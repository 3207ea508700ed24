use daprox::json::{json_to_string, JsonValue};

fn s(v: &str) -> String {
    v.to_string()
}

#[test]
fn null_serializes_as_null() {
    assert_eq!(json_to_string(&JsonValue::Null), "null");
}

#[test]
fn booleans_serialize_as_keywords() {
    assert_eq!(json_to_string(&JsonValue::Bool(true)), "true");
    assert_eq!(json_to_string(&JsonValue::Bool(false)), "false");
}

#[test]
fn integers_serialize_in_decimal() {
    assert_eq!(json_to_string(&JsonValue::Int(0)), "0");
    assert_eq!(json_to_string(&JsonValue::Int(7)), "7");
    assert_eq!(json_to_string(&JsonValue::Int(1234567890)), "1234567890");
    assert_eq!(json_to_string(&JsonValue::Int(-1)), "-1");
    assert_eq!(json_to_string(&JsonValue::Int(i64::MAX)), "9223372036854775807");
    assert_eq!(json_to_string(&JsonValue::Int(i64::MIN)), "-9223372036854775808");
}

#[test]
fn number_tokens_pass_through() {
    assert_eq!(json_to_string(&JsonValue::Num(s("1.5"))), "1.5");
    assert_eq!(json_to_string(&JsonValue::Num(s("-2.25e3"))), "-2.25e3");
}

#[test]
fn plain_strings_are_quoted() {
    assert_eq!(json_to_string(&JsonValue::Str(s("hello"))), "\"hello\"");
    assert_eq!(json_to_string(&JsonValue::Str(s(""))), "\"\"");
}

#[test]
fn quotes_and_backslashes_are_escaped() {
    assert_eq!(json_to_string(&JsonValue::Str(s("a\"b"))), "\"a\\\"b\"");
    assert_eq!(json_to_string(&JsonValue::Str(s("a\\b"))), "\"a\\\\b\"");
}

#[test]
fn control_characters_get_unicode_escapes() {
    assert_eq!(json_to_string(&JsonValue::Str(s("a\nb"))), "\"a\\u000ab\"");
    assert_eq!(json_to_string(&JsonValue::Str(s("\t"))), "\"\\u0009\"");
    assert_eq!(json_to_string(&JsonValue::Str(s("\u{1f}"))), "\"\\u001f\"");
}

#[test]
fn escaped_strings_parse_back() {
    let input = "line1\nline2\t\"quoted\" \\ done";
    let text = json_to_string(&JsonValue::Str(s(input)));
    let parsed: serde_json::Value = serde_json::from_str(&text).unwrap();
    assert_eq!(parsed, serde_json::Value::String(input.to_string()));
}

#[test]
fn arrays_serialize_in_order() {
    assert_eq!(json_to_string(&JsonValue::Array(vec![])), "[]");
    let v = JsonValue::Array(vec![JsonValue::Int(1), JsonValue::Null, JsonValue::Bool(true)]);
    assert_eq!(json_to_string(&v), "[1,null,true]");
}

#[test]
fn objects_keep_entry_order() {
    let v = JsonValue::Object(vec![
        (s("b"), JsonValue::Int(2)),
        (s("a"), JsonValue::Int(1)),
    ]);
    assert_eq!(json_to_string(&v), "{\"b\":2,\"a\":1}");
    assert_eq!(json_to_string(&JsonValue::Object(vec![])), "{}");
}

#[test]
fn nested_values_serialize() {
    let v = JsonValue::Object(vec![(
        s("rows"),
        JsonValue::Array(vec![JsonValue::Object(vec![(s("v"), JsonValue::Int(1))])]),
    )]);
    assert_eq!(json_to_string(&v), "{\"rows\":[{\"v\":1}]}");
}

#[test]
fn non_ascii_characters_pass_through_raw() {
    let text = json_to_string(&JsonValue::Str(s("héllo ünïcode")));
    assert_eq!(text, "\"héllo ünïcode\"");
    let parsed: serde_json::Value = serde_json::from_str(&text).unwrap();
    assert_eq!(parsed, serde_json::Value::String("héllo ünïcode".to_string()));
}
