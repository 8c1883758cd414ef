use irish_mcp_gateway::cli::{should_run_cli, Cli, Commands};
use irish_mcp_gateway::config::{parse_u16, validate_config, AppConfig, Config, ToolConfig};
use irish_mcp_gateway::error::GatewayError;
use irish_mcp_gateway::gramadoir::GrammarIssue;
use irish_mcp_gateway::json::Json;
use irish_mcp_gateway::json_parse::parse_json;
use irish_mcp_gateway::json_ser::json_to_string;
use irish_mcp_gateway::registry::build_registry;
use irish_mcp_gateway::rpc::{
    error, from_gateway_error, ok, parse_error, InitializeResult, ServerInfo,
};
use irish_mcp_gateway::session::{InMemorySessionStore, SessionStore};

#[test]
fn mod_core_module_compiles() {
    let _ = ();
}

#[test]
fn it_displays_message() {
    let e = GatewayError::Message("boom".into());
    assert_eq!(e.message(), "boom");
}

#[test]
fn in_memory_store_roundtrip() {
    let mut store = InMemorySessionStore::default();
    assert!(store.get("k").is_none());
    store.set("k", "v".into());
    assert_eq!(store.get("k").unwrap(), "v");
}

#[test]
fn store_last_write_wins() {
    let mut store = InMemorySessionStore::new();
    store.put("k", "a".into());
    store.put("k", "b".into());
    assert_eq!(store.lookup("k").unwrap(), "b");
    assert!(store.lookup("other").is_none());
}

#[test]
fn it_serializes_initialize_result() {
    let v = InitializeResult {
        server_info: ServerInfo { name: "gw".into(), version: "0.1".into() },
    };
    let s = json_to_string(&v.to_json());
    assert!(s.contains("server_info"));
}

#[test]
fn wraps_ok_response_in_json_rpc_envelope() {
    let resp = ok(Json::Int(1), parse_json("{\"x\":1}").unwrap());
    assert_eq!(resp.jsonrpc, "2.0");
    assert!(resp.error.is_none());
    assert!(matches!(resp.result.as_ref().unwrap().get("x"), Some(Json::Int(1))));
}

#[test]
fn wraps_error_response_in_json_rpc_envelope() {
    let resp = error(Json::Null, -32601, "method not found".to_string());
    assert_eq!(resp.jsonrpc, "2.0");
    assert!(resp.result.is_none());
    let err = resp.error.unwrap();
    assert_eq!(err.code, -32601);
    assert!(err.message.contains("method not found"));
}

#[test]
fn builds_parse_error_with_standard_code() {
    let resp = parse_error("bad json".to_string());
    assert_eq!(resp.jsonrpc, "2.0");
    assert!(resp.result.is_none());
    assert!(matches!(resp.id, Json::Null));
    let err = resp.error.unwrap();
    assert_eq!(err.code, -32700);
    assert!(err.message.contains("bad json"));
}

#[test]
fn gateway_errors_flatten_to_app_errors() {
    let resp = from_gateway_error(Json::Int(3), GatewayError::Message("nope".into()));
    let err = resp.error.unwrap();
    assert_eq!(err.code, -32000);
    assert_eq!(err.message, "nope");
}

#[test]
fn it_knows_grammar_issue_serde_roundtrip() {
    let gi = GrammarIssue {
        code: "AGR".into(),
        message: "Agreement issue".into(),
        start: 1,
        end: 3,
        suggestions: vec!["X".into()],
    };
    let text = json_to_string(&irish_mcp_gateway::gramadoir::issue_to_json(&gi));
    let back = parse_json(&text).unwrap();
    assert_eq!(back.get_str("code").unwrap(), "AGR");
    match back.get("suggestions") {
        Some(Json::Arr(ss)) => {
            assert_eq!(ss.len(), 1);
            assert_eq!(ss[0].as_str().unwrap(), "X");
        }
        _ => panic!("expected suggestions array"),
    }
}

#[test]
fn it_parses_env_and_defaults_serially() {
    // Defaults when unset or empty.
    let cfg = Config::from_parts(None, Some("".to_string()), Some("".to_string()));
    assert_eq!(cfg.mode, "server");
    assert_eq!(cfg.port, 8080);
    assert!(!cfg.deprecate_rest);

    // Overrides when provided.
    let cfg2 = Config::from_parts(
        Some("stdio".to_string()),
        Some("9090".to_string()),
        Some("1".to_string()),
    );
    assert_eq!(cfg2.mode, "stdio");
    assert_eq!(cfg2.port, 9090);
    assert!(cfg2.deprecate_rest);
}

#[test]
fn test_validate_config_valid() {
    let result = validate_config(Some("server".to_string()), Some("8080".to_string()));
    assert!(result.is_ok());
}

#[test]
fn test_validate_config_invalid_mode() {
    let result = validate_config(Some("invalid".to_string()), None);
    assert!(result.is_err());
    assert!(result.unwrap_err().contains("Invalid MODE"));
}

#[test]
fn test_validate_config_stdio_mode() {
    let result = validate_config(Some("stdio".to_string()), None);
    assert!(result.is_ok());
}

#[test]
fn test_validate_config_invalid_port() {
    let result = validate_config(Some("server".to_string()), Some("0".to_string()));
    assert!(result.is_err());
    assert!(result.unwrap_err().contains("PORT cannot be 0"));
}

#[test]
fn validate_config_non_numeric_port_defaults() {
    let result = validate_config(Some("server".to_string()), Some("abc".to_string()));
    assert!(result.is_ok());
}

#[test]
fn port_strings_parse_like_integers() {
    assert_eq!(parse_u16("8080"), Some(8080));
    assert_eq!(parse_u16("+80"), Some(80));
    assert_eq!(parse_u16("65536"), None);
    assert_eq!(parse_u16(""), None);
    assert_eq!(parse_u16("x1"), None);
}

#[test]
fn tool_config_merge_prefers_environment() {
    let env = ToolConfig {
        base_url: Some("http://env".to_string()),
        request_timeout_ms: None,
        retries: Some(1),
        concurrency_limit: None,
    };
    let file = ToolConfig {
        base_url: Some("http://file".to_string()),
        request_timeout_ms: Some(900),
        retries: Some(9),
        concurrency_limit: Some(4),
    };
    let merged = ToolConfig::merged(&env, &file);
    assert_eq!(merged.base_url.as_deref(), Some("http://env"));
    assert_eq!(merged.request_timeout_ms, Some(900));
    assert_eq!(merged.retries, Some(1));
    assert_eq!(merged.concurrency_limit, Some(4));
}

#[test]
fn registry_selects_backends_from_config() {
    let mut cfg = AppConfig::empty();
    cfg.grammar.base_url = Some("http://grammar".to_string());
    cfg.grammar.retries = Some(4);
    let reg = build_registry(&cfg);
    let listing = irish_mcp_gateway::dispatch::tools_list_json(&reg);
    match listing.get("tools") {
        Some(Json::Arr(entries)) => {
            assert_eq!(entries.len(), 2);
            assert_eq!(entries[0].get_str("name").unwrap(), "grammar.check");
            assert!(entries[0]
                .get_str("description")
                .unwrap()
                .contains("Gramad\u{f3}ir"));
            assert_eq!(entries[1].get_str("name").unwrap(), "spell.check");
            assert!(entries[1].get_str("description").unwrap().contains("stub"));
        }
        _ => panic!("expected tools array"),
    }
}

#[test]
fn blank_base_url_selects_the_stub() {
    let mut cfg = AppConfig::empty();
    cfg.grammar.base_url = Some("   ".to_string());
    let reg = build_registry(&cfg);
    let listing = irish_mcp_gateway::dispatch::tools_list_json(&reg);
    match listing.get("tools") {
        Some(Json::Arr(entries)) => {
            assert!(entries[0].get_str("description").unwrap().contains("stub"));
        }
        _ => panic!("expected tools array"),
    }
}

#[test]
fn cli_commands_carry_their_arguments() {
    let cli = Cli {
        command: Commands::TestGrammar { url: None, text: "T\u{e1} an peann ar an mbord".to_string() },
    };
    match cli.command {
        Commands::TestGrammar { url, text } => {
            assert!(url.is_none());
            assert_eq!(text, "T\u{e1} an peann ar an mbord");
        }
        _ => panic!("expected the grammar test command"),
    }
    assert!(should_run_cli(2));
    assert!(!should_run_cli(1));
}
