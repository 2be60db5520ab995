use knowledge_companion::json::{parse_json, json_to_string, JsonValue};

#[test]
fn test_json_round_trip_compact() {
    let v = parse_json("{\"a\": [1, true, null, \"x\"], \"b\": \"y\"}").unwrap();
    assert_eq!(json_to_string(&v), "{\"a\":[1,true,null,\"x\"],\"b\":\"y\"}");
}

#[test]
fn test_json_string_escapes() {
    let v = parse_json("\"a\\nb\\t\\\"c\\\"\"").unwrap();
    assert_eq!(json_to_string(&v), "\"a\\nb\\t\\\"c\\\"\"");
}

#[test]
fn test_json_unicode_escape() {
    let v = parse_json("\"\\u0041\"").unwrap();
    match &v {
        JsonValue::Str(s) => assert_eq!(s, "A"),
        _ => panic!("expected a string"),
    }
}

#[test]
fn test_json_rejects_leading_zero() {
    assert!(parse_json("01").is_none());
    assert!(parse_json("{\"a\": 01}").is_none());
}

#[test]
fn test_json_rejects_trailing_garbage() {
    assert!(parse_json("{} x").is_none());
    assert!(parse_json("{\"a\":}").is_none());
}

#[test]
fn test_json_get_first_field_wins() {
    let v = parse_json("{\"k\":\"first\",\"k\":\"second\"}").unwrap();
    let got = v.get("k").unwrap();
    match got {
        JsonValue::Str(s) => assert_eq!(s, "first"),
        _ => panic!("expected a string"),
    }
}

#[test]
fn test_json_number_text_preserved() {
    let v = parse_json("[0, -1.5, 2e3]").unwrap();
    assert_eq!(json_to_string(&v), "[0,-1.5,2e3]");
}
