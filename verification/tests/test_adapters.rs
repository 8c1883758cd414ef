use irish_mcp_gateway::config::ToolConfig;
use irish_mcp_gateway::gaelspell::GaelspellRemote;
use irish_mcp_gateway::gramadoir::GramadoirRemote;
use irish_mcp_gateway::headers::{add_standard_headers, generate_request_id, request_id_from};
use irish_mcp_gateway::remote::{endpoint_url, outcome_attempt, status_err_msg, RemoteOutcome};
use irish_mcp_gateway::retry::{backoff_ms, run_retry, Attempt, RetrySchedule};

#[test]
fn it_maps_issues_from_remote_array() {
    let body = "[{\"context\":\"T\u{e1} an peann ar an bord\",\"contextoffset\":\"12\",\"errorlength\":\"10\",\"fromx\":\"12\",\"fromy\":\"0\",\"msg\":\"Initial mutation missing\",\"ruleId\":\"Lingua::GA::Gramadoir/CLAOCHLU\",\"tox\":\"21\",\"toy\":\"0\"}]";
    let out = GramadoirRemote::analyze_finish(&RemoteOutcome::Http {
        status: 200,
        body: body.to_string(),
    })
    .unwrap();
    assert_eq!(out.len(), 1);
    assert_eq!(out[0].code, "Lingua::GA::Gramadoir/CLAOCHLU");
    assert_eq!(out[0].message, "Initial mutation missing");
    assert_eq!(out[0].start, 12);
    assert_eq!(out[0].end, 21);
    assert!(out[0].suggestions.is_empty());
}

#[test]
fn derived_end_uses_length_when_tox_absent() {
    let body = "[{\"msg\":\"m\",\"ruleId\":\"R\",\"fromx\":\"3\",\"errorlength\":\"4\"}]";
    let out = GramadoirRemote::analyze_finish(&RemoteOutcome::Http {
        status: 200,
        body: body.to_string(),
    })
    .unwrap();
    assert_eq!(out[0].start, 3);
    assert_eq!(out[0].end, 7);
}

#[test]
fn unparsable_offsets_default_to_zero() {
    let body = "[{\"msg\":\"m\",\"ruleId\":\"R\",\"fromx\":\"oops\",\"tox\":\"\"}]";
    let out = GramadoirRemote::analyze_finish(&RemoteOutcome::Http {
        status: 200,
        body: body.to_string(),
    })
    .unwrap();
    assert_eq!(out[0].start, 0);
    assert_eq!(out[0].end, 0);
}

#[test]
fn missing_required_wire_fields_fail() {
    let body = "[{\"fromx\":\"1\"}]";
    let err = GramadoirRemote::analyze_finish(&RemoteOutcome::Http {
        status: 200,
        body: body.to_string(),
    })
    .unwrap_err();
    assert!(err.contains("upstream"));
}

#[test]
fn it_returns_upstream_status_on_client_error() {
    let err = GramadoirRemote::analyze_finish(&RemoteOutcome::Http {
        status: 400,
        body: "bad".to_string(),
    })
    .unwrap_err();
    assert!(err.contains("upstream status"));
    assert!(err.contains("400"));
}

#[test]
fn server_errors_are_marked_retryable() {
    let err = GramadoirRemote::analyze_finish(&RemoteOutcome::Http {
        status: 503,
        body: "down".to_string(),
    })
    .unwrap_err();
    assert_eq!(err, "retryable status 503");
    assert_eq!(status_err_msg(404), "upstream status 404");
}

#[test]
fn transport_errors_surface_unchanged() {
    let err = GramadoirRemote::analyze_finish(&RemoteOutcome::Transport(
        "connection refused".to_string(),
    ))
    .unwrap_err();
    assert_eq!(err, "connection refused");
}

#[test]
fn it_posts_to_gaelspell_and_maps_tokens() {
    let cli = GaelspellRemote::new("http://example".to_string());
    let req = cli.check_request("Dia dhuit");
    assert_eq!(req.url, "http://example/api/gaelspell/1.0");
    assert_eq!(req.body, "{\"teacs\":\"Dia dhuit\"}");
    let out = GaelspellRemote::check_finish(&RemoteOutcome::Http {
        status: 200,
        body: "[[\"abcdef\",[\"abc\",\"ab\"]]]".to_string(),
    })
    .unwrap();
    assert_eq!(out.len(), 1);
    assert_eq!(out[0].token, "abcdef");
    assert_eq!(out[0].suggestions[0], "abc");
    assert_eq!(out[0].start, 0);
    assert_eq!(out[0].end, 0);
}

#[test]
fn spell_wire_shape_is_strict() {
    let bad = GaelspellRemote::check_finish(&RemoteOutcome::Http {
        status: 200,
        body: "[[\"tok\"]]".to_string(),
    });
    assert!(bad.is_err());
    let bad2 = GaelspellRemote::check_finish(&RemoteOutcome::Http {
        status: 200,
        body: "{\"x\":1}".to_string(),
    });
    assert!(bad2.is_err());
    let bad3 = GaelspellRemote::check_finish(&RemoteOutcome::Http {
        status: 200,
        body: "not json".to_string(),
    });
    assert!(bad3.is_err());
}

#[test]
fn from_config_takes_url_and_retries() {
    let cfg = ToolConfig {
        base_url: Some("http://svc/".to_string()),
        request_timeout_ms: None,
        retries: Some(5),
        concurrency_limit: None,
    };
    let cli = GramadoirRemote::from_config(&cfg);
    assert_eq!(cli.base, "http://svc/");
    assert_eq!(cli.retries, 5);
    let req = cli.analyze_request("x");
    assert_eq!(req.url, "http://svc/api/gramadoir/1.0");
    assert_eq!(req.retries, 5);
}

#[test]
fn endpoint_url_trims_trailing_slashes() {
    assert_eq!(endpoint_url("http://a//", "/health"), "http://a/health");
    assert_eq!(endpoint_url("http://a", "/health"), "http://a/health");
    assert_eq!(
        GramadoirRemote::new("http://a/".to_string()).health_url(),
        "http://a/health"
    );
}

#[test]
fn limits_it_retries_then_succeeds() {
    let outcomes = vec![
        Attempt::RetryableFailure,
        Attempt::RetryableFailure,
        Attempt::Success,
        Attempt::Success,
    ];
    let (used, last) = run_retry(3, &outcomes);
    assert_eq!(used, 3);
    assert!(matches!(last, Attempt::Success));
}

#[test]
fn retry_exhausts_budget_on_constant_failure() {
    // An operation that always fails is attempted exactly retries + 1
    // times and the last failure is surfaced.
    let outcomes = vec![Attempt::RetryableFailure; 4];
    let (used, last) = run_retry(3, &outcomes);
    assert_eq!(used, 4);
    assert!(matches!(last, Attempt::RetryableFailure));
}

#[test]
fn terminal_failures_stop_retrying() {
    let outcomes = vec![Attempt::TerminalFailure, Attempt::Success];
    let (used, last) = run_retry(1, &outcomes);
    assert_eq!(used, 1);
    assert!(matches!(last, Attempt::TerminalFailure));
}

#[test]
fn backoff_doubles_to_the_ceiling() {
    assert_eq!(backoff_ms(0), 50);
    assert_eq!(backoff_ms(1), 100);
    assert_eq!(backoff_ms(2), 200);
    assert_eq!(backoff_ms(3), 400);
    assert_eq!(backoff_ms(4), 800);
    assert_eq!(backoff_ms(5), 1000);
    assert_eq!(backoff_ms(6), 1000);
}

#[test]
fn schedule_hands_out_delays_then_stops() {
    let mut sched = RetrySchedule::new(2);
    assert_eq!(sched.next_delay(), Some(50));
    assert_eq!(sched.next_delay(), Some(100));
    assert_eq!(sched.next_delay(), None);
    assert_eq!(sched.next_delay(), None);
}

#[test]
fn outcome_classification_matches_status() {
    assert!(matches!(
        outcome_attempt(&RemoteOutcome::Http { status: 204, body: String::new() }),
        Attempt::Success
    ));
    assert!(matches!(
        outcome_attempt(&RemoteOutcome::Http { status: 502, body: String::new() }),
        Attempt::RetryableFailure
    ));
    assert!(matches!(
        outcome_attempt(&RemoteOutcome::Http { status: 404, body: String::new() }),
        Attempt::TerminalFailure
    ));
    assert!(matches!(
        outcome_attempt(&RemoteOutcome::Transport("t".to_string())),
        Attempt::RetryableFailure
    ));
}

#[test]
fn request_ids_have_the_expected_shape() {
    assert_eq!(request_id_from(12, 345), "gw-12-345");
    let rid = generate_request_id();
    assert!(rid.starts_with("gw-"));
    assert_eq!(rid.matches('-').count(), 2);
}

#[test]
fn standard_headers_carry_the_request_id() {
    let (pairs, rid) = add_standard_headers(Some("gw-1-2".to_string()));
    assert_eq!(rid, "gw-1-2");
    assert_eq!(pairs[0].0, "x-request-id");
    assert_eq!(pairs[0].1, "gw-1-2");
    assert_eq!(pairs[1].0, "user-agent");
    assert_eq!(pairs[1].1, "irish-mcp-gateway/0.1.0");
    let (pairs2, rid2) = add_standard_headers(None);
    assert!(rid2.starts_with("gw-"));
    assert_eq!(pairs2[0].1, rid2);
}
