use irish_mcp_gateway::dispatch::{
    dispatch, finish_grammar, finish_line_grammar, handle_stdio_line, tools_list_json,
    DispatchStep, LineStep,
};
use irish_mcp_gateway::json::Json;
use irish_mcp_gateway::json_parse::parse_json;
use irish_mcp_gateway::json_ser::json_to_string;
use irish_mcp_gateway::registry::ToolRegistry;
use irish_mcp_gateway::remote::RemoteOutcome;
use irish_mcp_gateway::retry::{run_retry, Attempt};
use irish_mcp_gateway::remote::outcome_attempt;
use irish_mcp_gateway::rpc::req_from_json;
use irish_mcp_gateway::tool::{
    GrammarLocalBackend, GrammarRemoteBackend, HelloTool, SpellcheckLocalBackend,
    SpellcheckRemoteBackend, ToolImpl,
};

fn local_registry() -> ToolRegistry {
    let mut reg = ToolRegistry::new();
    reg.register(ToolImpl::GrammarLocal(GrammarLocalBackend));
    reg.register(ToolImpl::SpellLocal(SpellcheckLocalBackend));
    reg.register(ToolImpl::Hello(HelloTool));
    reg
}

fn remote_registry() -> ToolRegistry {
    let mut reg = ToolRegistry::new();
    reg.register(ToolImpl::GrammarRemote(GrammarRemoteBackend::new(
        "http://upstream.example".to_string(),
    )));
    reg.register(ToolImpl::SpellRemote(SpellcheckRemoteBackend::new(
        "http://upstream.example".to_string(),
    )));
    reg
}

fn dispatch_line(reg: &ToolRegistry, line: &str) -> String {
    match handle_stdio_line(reg, line) {
        LineStep::Reply(s) => s,
        _ => panic!("expected an immediate reply"),
    }
}

#[test]
fn handle_stdio_line_covers_initialize_and_list() {
    let reg = local_registry();
    let init = dispatch_line(&reg, "{\"jsonrpc\":\"2.0\",\"id\":1,\"method\":\"initialize\"}");
    assert!(init.contains("\"result\""));
    let list = dispatch_line(&reg, "{\"jsonrpc\":\"2.0\",\"id\":2,\"method\":\"tools.list\"}");
    assert!(list.contains("tools"));
}

#[test]
fn handle_stdio_line_covers_unknown_and_parse_error() {
    let reg = local_registry();
    let unk = dispatch_line(&reg, "{\"jsonrpc\":\"2.0\",\"id\":3,\"method\":\"nope\"}");
    assert!(unk.contains("-32601"));
    let bad = dispatch_line(&reg, "{ not json }");
    assert!(bad.contains("parse error"));
}

#[test]
fn initialize_reply_is_exact() {
    let reg = local_registry();
    let line = dispatch_line(&reg, "{\"jsonrpc\":\"2.0\",\"id\":1,\"method\":\"initialize\"}");
    assert_eq!(
        line,
        "{\"jsonrpc\":\"2.0\",\"id\":1,\"result\":{\"serverInfo\":{\"name\":\"irish-mcp-gateway\",\"version\":\"0.1.0\"},\"capabilities\":{}}}"
    );
}

#[test]
fn shutdown_returns_null_result() {
    let reg = local_registry();
    let line = dispatch_line(&reg, "{\"jsonrpc\":\"2.0\",\"id\":9,\"method\":\"shutdown\"}");
    assert_eq!(line, "{\"jsonrpc\":\"2.0\",\"id\":9,\"result\":null}");
}

#[test]
fn parse_error_carries_null_id() {
    let reg = local_registry();
    let line = dispatch_line(&reg, "{{{{");
    assert!(line.contains("\"id\":null"));
    assert!(line.contains("-32700"));
}

#[test]
fn missing_method_is_a_parse_error() {
    let reg = local_registry();
    let line = dispatch_line(&reg, "{\"jsonrpc\":\"2.0\",\"id\":1}");
    assert!(line.contains("-32700"));
}

#[test]
fn tools_list_names_match_registry() {
    let reg = local_registry();
    let listing = tools_list_json(&reg);
    match listing.get("tools") {
        Some(Json::Arr(entries)) => {
            let names: Vec<String> = entries
                .iter()
                .map(|e| e.get_str("name").unwrap().clone())
                .collect();
            assert_eq!(names, vec!["grammar.check", "spell.check", "hello.echo"]);
            for e in entries {
                assert!(!e.get_str("description").unwrap().is_empty());
                assert!(matches!(e.get("inputSchema"), Some(Json::Obj(_))));
            }
        }
        _ => panic!("expected tools array"),
    }
}

#[test]
fn tools_list_twice_is_identical() {
    let reg = local_registry();
    let a = json_to_string(&tools_list_json(&reg));
    let b = json_to_string(&tools_list_json(&reg));
    assert_eq!(a, b);
}

#[test]
fn register_is_last_write_wins() {
    let mut reg = ToolRegistry::new();
    reg.register(ToolImpl::GrammarLocal(GrammarLocalBackend));
    reg.register(ToolImpl::GrammarRemote(GrammarRemoteBackend::new(
        "http://u".to_string(),
    )));
    let listing = tools_list_json(&reg);
    match listing.get("tools") {
        Some(Json::Arr(entries)) => {
            assert_eq!(entries.len(), 1);
            assert_eq!(entries[0].get_str("name").unwrap(), "grammar.check");
            assert_eq!(
                entries[0].get_str("description").unwrap(),
                "Irish grammar via Gramad\u{f3}ir"
            );
        }
        _ => panic!("expected tools array"),
    }
}

#[test]
fn unknown_tool_yields_application_error() {
    let reg = local_registry();
    let line = dispatch_line(
        &reg,
        "{\"jsonrpc\":\"2.0\",\"id\":3,\"method\":\"tools.call\",\"params\":{\"name\":\"does.not.exist\",\"arguments\":{}}}",
    );
    assert!(line.contains("-32000"));
    assert!(line.contains("unknown tool"));
}

#[test]
fn missing_tool_name_yields_application_error() {
    let reg = local_registry();
    let line = dispatch_line(
        &reg,
        "{\"jsonrpc\":\"2.0\",\"id\":3,\"method\":\"tools.call\",\"params\":{}}",
    );
    assert!(line.contains("-32000"));
    assert!(line.contains("missing tool name"));
}

#[test]
fn grammar_missing_argument_names_the_field() {
    let reg = local_registry();
    let line = dispatch_line(
        &reg,
        "{\"jsonrpc\":\"2.0\",\"id\":5,\"method\":\"tools.call\",\"params\":{\"name\":\"grammar.check\"}}",
    );
    assert!(line.contains("-32000"));
    assert!(line.contains("missing"));
    assert!(line.contains("text"));
}

#[test]
fn local_grammar_call_returns_empty_issues() {
    let reg = local_registry();
    let line = dispatch_line(
        &reg,
        "{\"jsonrpc\":\"2.0\",\"id\":2,\"method\":\"tools.call\",\"params\":{\"name\":\"grammar.check\",\"arguments\":{\"text\":\"abc\"}}}",
    );
    assert_eq!(line, "{\"jsonrpc\":\"2.0\",\"id\":2,\"result\":{\"issues\":[]}}");
}

#[test]
fn local_spell_call_returns_empty_corrections() {
    let reg = local_registry();
    let line = dispatch_line(
        &reg,
        "{\"jsonrpc\":\"2.0\",\"id\":2,\"method\":\"tools/call\",\"params\":{\"name\":\"spell.check\",\"arguments\":{\"text\":\"Dia\"}}}",
    );
    assert!(line.contains("\"corrections\":[]"));
}

#[test]
fn alias_methods_route_identically() {
    let reg = local_registry();
    let a = dispatch_line(&reg, "{\"jsonrpc\":\"2.0\",\"id\":1,\"method\":\"tools.list\"}");
    let b = dispatch_line(&reg, "{\"jsonrpc\":\"2.0\",\"id\":1,\"method\":\"tools/list\"}");
    assert_eq!(a, b);
}

#[test]
fn remote_grammar_call_hands_back_the_post() {
    let reg = remote_registry();
    let step = handle_stdio_line(
        &reg,
        "{\"jsonrpc\":\"2.0\",\"id\":4,\"method\":\"tools.call\",\"params\":{\"name\":\"grammar.check\",\"arguments\":{\"text\":\"T\u{e1} s\u{e9}\"}}}",
    );
    match step {
        LineStep::Grammar { id, request } => {
            assert_eq!(json_to_string(&id), "4");
            assert_eq!(request.url, "http://upstream.example/api/gramadoir/1.0");
            assert_eq!(request.body, "{\"teacs\":\"T\u{e1} s\u{e9}\"}");
            assert_eq!(request.retries, 2);
        }
        _ => panic!("expected a grammar remote step"),
    }
}

#[test]
fn grammar_check_success_scenario() {
    // One upstream issue with rule id AGR for the sample sentence.
    let reg = remote_registry();
    let step = handle_stdio_line(
        &reg,
        "{\"jsonrpc\":\"2.0\",\"id\":2,\"method\":\"tools.call\",\"params\":{\"name\":\"grammar.check\",\"arguments\":{\"text\":\"T\u{e1} an peann ar an mbord\"}}}",
    );
    let (id, _request) = match step {
        LineStep::Grammar { id, request } => (id, request),
        _ => panic!("expected a grammar remote step"),
    };
    let body = "[{\"context\":\"T\u{e1} an peann ar an mbord\",\"contextoffset\":\"0\",\"errorlength\":\"2\",\"fromx\":\"0\",\"fromy\":\"0\",\"msg\":\"Agreement\",\"ruleId\":\"AGR\",\"tox\":\"2\",\"toy\":\"0\"}]";
    let outcome = RemoteOutcome::Http {
        status: 200,
        body: body.to_string(),
    };
    let line = finish_line_grammar(id, &outcome);
    let resp = parse_json(&line).unwrap();
    match resp.get("result") {
        Some(result) => match result.get("issues") {
            Some(Json::Arr(issues)) => {
                assert_eq!(issues[0].get_str("code").unwrap(), "AGR");
                assert_eq!(issues[0].get_str("message").unwrap(), "Agreement");
            }
            _ => panic!("expected issues array"),
        },
        None => panic!("expected a result"),
    }
    assert!(resp.get("error").is_none());
}

#[test]
fn upstream_500_then_200_scenario() {
    // First attempt fails with a server error, the retry succeeds: the
    // caller sees the successful payload.
    let outcomes = vec![
        RemoteOutcome::Http { status: 500, body: "err".to_string() },
        RemoteOutcome::Http { status: 200, body: "[]".to_string() },
        RemoteOutcome::Http { status: 200, body: "[]".to_string() },
    ];
    let classified: Vec<Attempt> = outcomes.iter().map(outcome_attempt).collect();
    let (used, last) = run_retry(2, &classified);
    assert_eq!(used, 2);
    assert!(matches!(last, Attempt::Success));
    let resp = finish_grammar(Json::Int(7), &outcomes[used - 1]);
    let line = resp.to_line();
    assert!(line.contains("\"result\":{\"issues\":[]}"));
    assert!(!line.contains("error"));
}

#[test]
fn dispatch_echoes_string_ids() {
    let reg = local_registry();
    let doc = parse_json(
        "{\"jsonrpc\":\"2.0\",\"id\":\"abc\",\"method\":\"shutdown\"}",
    )
    .unwrap();
    let req = req_from_json(&doc).unwrap();
    match dispatch(&reg, req) {
        DispatchStep::Done(resp) => {
            assert_eq!(resp.to_line(), "{\"jsonrpc\":\"2.0\",\"id\":\"abc\",\"result\":null}");
        }
        _ => panic!("expected a finished response"),
    }
}
