use irish_mcp_gateway::json::Json;
use irish_mcp_gateway::json_parse::parse_json;
use irish_mcp_gateway::json_ser::json_to_string;
use irish_mcp_gateway::text::parse_offset;

fn obj(members: Vec<(&str, Json)>) -> Json {
    Json::Obj(members.into_iter().map(|(k, v)| (k.to_string(), v)).collect())
}

fn s(v: &str) -> Json {
    Json::Str(v.to_string())
}

#[test]
fn parses_simple_object() {
    let j = parse_json(r#"{"a":1,"b":"x"}"#).unwrap();
    assert!(matches!(j.get("a"), Some(Json::Int(1))));
    assert_eq!(j.get_str("b").unwrap(), "x");
}

#[test]
fn parses_nested_arrays_and_objects() {
    let j = parse_json(r#" { "xs" : [ 1 , [ true , null ] , { "k" : -5 } ] } "#).unwrap();
    match j.get("xs") {
        Some(Json::Arr(items)) => {
            assert_eq!(items.len(), 3);
            assert!(matches!(items[0], Json::Int(1)));
            match &items[1] {
                Json::Arr(inner) => {
                    assert!(matches!(inner[0], Json::Bool(true)));
                    assert!(matches!(inner[1], Json::Null));
                }
                _ => panic!("expected array"),
            }
            match &items[2] {
                Json::Obj(_) => assert!(matches!(items[2].get("k"), Some(Json::Int(-5)))),
                _ => panic!("expected object"),
            }
        }
        _ => panic!("expected array"),
    }
}

#[test]
fn parses_escapes_and_unicode() {
    let j = parse_json(r#""a\n\t\"\\\u0041b""#).unwrap();
    match j {
        Json::Str(st) => assert_eq!(st, "a\n\t\"\\Ab"),
        _ => panic!("expected string"),
    }
    let j = parse_json("\"T\u{e1} an peann\"").unwrap();
    match j {
        Json::Str(st) => assert_eq!(st, "Tá an peann"),
        _ => panic!("expected string"),
    }
}

#[test]
fn rejects_malformed_documents() {
    assert!(parse_json("{ not json }").is_none());
    assert!(parse_json("").is_none());
    assert!(parse_json("{\"a\":1,}").is_none());
    assert!(parse_json("[1 2]").is_none());
    assert!(parse_json("\"unterminated").is_none());
    assert!(parse_json("nul").is_none());
    assert!(parse_json("01").is_none());
    assert!(parse_json("1.5").is_none());
    assert!(parse_json("1e3").is_none());
    assert!(parse_json("\"\\q\"").is_none());
    assert!(parse_json("{\"a\":1} trailing").is_none());
}

#[test]
fn parses_integer_bounds() {
    match parse_json("9223372036854775807").unwrap() {
        Json::Int(n) => assert_eq!(n, i64::MAX),
        _ => panic!("expected integer"),
    }
    assert!(parse_json("9223372036854775808").is_none());
    match parse_json("-42").unwrap() {
        Json::Int(n) => assert_eq!(n, -42),
        _ => panic!("expected integer"),
    }
    match parse_json("0").unwrap() {
        Json::Int(n) => assert_eq!(n, 0),
        _ => panic!("expected integer"),
    }
}

#[test]
fn serializes_canonically() {
    let doc = obj(vec![
        ("a", Json::Int(1)),
        ("b", Json::Arr(vec![Json::Null, Json::Bool(false)])),
        ("c", s("x\"y\\z\n")),
    ]);
    assert_eq!(
        json_to_string(&doc),
        "{\"a\":1,\"b\":[null,false],\"c\":\"x\\\"y\\\\z\\n\"}"
    );
}

#[test]
fn serializes_negative_and_control() {
    assert_eq!(json_to_string(&Json::Int(-7)), "-7");
    assert_eq!(json_to_string(&Json::Int(i64::MIN)), "-9223372036854775808");
    assert_eq!(json_to_string(&s("\u{1}")), "\"\\u0001\"");
    assert_eq!(json_to_string(&s("\u{8}\u{c}")), "\"\\b\\f\"");
}

#[test]
fn round_trips_a_document() {
    let text = r#"{"jsonrpc":"2.0","id":7,"method":"tools.list","params":{}}"#;
    let j = parse_json(text).unwrap();
    assert_eq!(json_to_string(&j), text);
}

#[test]
fn deep_clone_copies_structure() {
    let doc = obj(vec![("xs", Json::Arr(vec![Json::Int(1), s("two")]))]);
    let copy = doc.deep_clone();
    assert_eq!(json_to_string(&doc), json_to_string(&copy));
}

#[test]
fn object_lookup_takes_first_binding() {
    let j = parse_json(r#"{"k":1,"k":2}"#).unwrap();
    assert!(matches!(j.get("k"), Some(Json::Int(1))));
}

#[test]
fn parse_offset_reads_defensively() {
    assert_eq!(parse_offset("12"), 12);
    assert_eq!(parse_offset("+5"), 5);
    assert_eq!(parse_offset("0"), 0);
    assert_eq!(parse_offset(""), 0);
    assert_eq!(parse_offset("abc"), 0);
    assert_eq!(parse_offset("12x"), 0);
    assert_eq!(parse_offset("-3"), 0);
    assert_eq!(parse_offset("99999999999999999999"), 0);
}
