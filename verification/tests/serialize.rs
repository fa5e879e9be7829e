//! The tab-indented pretty printer, byte for byte.

use tyedev::json::{to_json_bytes_with_tabs, JsonValue};

#[test]
fn test_to_writer_with_tabs() {
    let value = JsonValue::Obj(vec![(
        "test".to_string(),
        JsonValue::Obj(vec![("deep".to_string(), JsonValue::Num("1".to_string()))]),
    )]);
    let bytes = to_json_bytes_with_tabs(&value);
    assert_eq!(bytes.as_slice(), b"{\n\t\"test\": {\n\t\t\"deep\": 1\n\t}\n}");
}

#[test]
fn empty_containers_print_inline() {
    let value = JsonValue::Obj(vec![
        ("a".to_string(), JsonValue::Obj(vec![])),
        ("b".to_string(), JsonValue::Arr(vec![])),
    ]);
    let bytes = to_json_bytes_with_tabs(&value);
    assert_eq!(bytes.as_slice(), b"{\n\t\"a\": {},\n\t\"b\": []\n}");
}

#[test]
fn strings_are_escaped() {
    let value = JsonValue::Arr(vec![
        JsonValue::Str("a\"b\\c\n".to_string()),
        JsonValue::Bool(true),
        JsonValue::Null,
    ]);
    let bytes = to_json_bytes_with_tabs(&value);
    assert_eq!(bytes.as_slice(), b"[\n\t\"a\\\"b\\\\c\\n\",\n\ttrue,\n\tnull\n]");
}

#[test]
fn control_bytes_use_unicode_escapes() {
    let value = JsonValue::Str("\u{1}".to_string());
    let bytes = to_json_bytes_with_tabs(&value);
    assert_eq!(bytes.as_slice(), b"\"\\u0001\"");
}
