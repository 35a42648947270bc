use assume_rolers::error::Error;
use assume_rolers::json::{parse_json_text, to_json_string, JsonField, JsonValue};

#[test]
fn a_tree_prints_compactly() {
    let tree = JsonValue::Obj(vec![
        JsonField { key: "a".to_string(), value: JsonValue::Null },
        JsonField { key: "b".to_string(), value: JsonValue::Bool(true) },
        JsonField {
            key: "c".to_string(),
            value: JsonValue::Arr(vec![JsonValue::Str("x".to_string()), JsonValue::Bool(false)]),
        },
    ]);
    assert_eq!(to_json_string(&tree), r#"{"a":null,"b":true,"c":["x",false]}"#);
}

#[test]
fn strings_are_escaped_and_unescaped() {
    let tree = JsonValue::Str("a\"b\\c\nd\re\tf\u{1}g".to_string());
    let text = to_json_string(&tree);
    assert_eq!(text, "\"a\\\"b\\\\c\\nd\\re\\tf\\u0001g\"");
    match parse_json_text(&text) {
        Some(JsonValue::Str(s)) => assert_eq!(s, "a\"b\\c\nd\re\tf\u{1}g"),
        other => panic!("expected the string back, got {:?}", other),
    }
}

#[test]
fn printed_trees_read_back() {
    let tree = JsonValue::Obj(vec![
        JsonField {
            key: "outer".to_string(),
            value: JsonValue::Obj(vec![JsonField {
                key: "inner".to_string(),
                value: JsonValue::Arr(vec![JsonValue::Null]),
            }]),
        },
    ]);
    let text = to_json_string(&tree);
    assert_eq!(text, r#"{"outer":{"inner":[null]}}"#);
    let back = parse_json_text(&text).unwrap();
    assert_eq!(to_json_string(&back), text);
}

#[test]
fn numbers_are_carried_as_raw_tokens() {
    match parse_json_text("-12.5e3") {
        Some(JsonValue::Num(raw)) => assert_eq!(raw, "-12.5e3"),
        other => panic!("expected a raw number, got {:?}", other),
    }
}

#[test]
fn malformed_text_reads_as_nothing() {
    assert!(parse_json_text("").is_none());
    assert!(parse_json_text("{").is_none());
    assert!(parse_json_text(r#"{"a":}"#).is_none());
    assert!(parse_json_text(r#""unterminated"#).is_none());
    assert!(parse_json_text("nul").is_none());
    assert!(parse_json_text("[1,]").is_none());
    assert!(parse_json_text("[1] trailing").is_none());
}

#[test]
fn error_messages_name_their_cause() {
    let m = Error::NotFound("dev".to_string()).message();
    assert_eq!(m, "no profile found. profile_name:dev");
    assert!(!Error::MissingSessionToken.message().is_empty());
}
