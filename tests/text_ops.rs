use rsjson::codec::RsJson;
use rsjson::text::{c_str_to_string, encode, get_value, validate};

#[test]
fn test_encode() {
    let input = r#"{"key": "value"}"#;
    let output = encode(input.as_bytes());
    assert_eq!(output, r#"{"key":"value"}"#);
}

#[test]
fn test_validate() {
    let valid_input = r#"{"key": "value"}"#;
    let output = validate(valid_input.as_bytes());
    assert_eq!(output, "Valid JSON");

    let invalid_input = r#"{"key": "value"#;
    let output = validate(invalid_input.as_bytes());
    assert!(output.starts_with("Invalid JSON"));
}

#[test]
fn test_get_value() {
    let json = r#"{"key": "value", "nested": {"inner": 42}}"#;
    let output = get_value(json.as_bytes(), "nested".as_bytes());
    assert_eq!(output, r#"{"inner":42}"#);

    let output = get_value(json.as_bytes(), "non_existent".as_bytes());
    assert_eq!(output, "Key 'non_existent' not found");
}

#[test]
fn encode_reports_parse_failure() {
    let output = encode(br#"{"key": "value""#);
    assert!(output.starts_with("Failed to encode JSON: "));
    assert!(output.len() > "Failed to encode JSON: ".len());
}

#[test]
fn invalid_utf8_is_reported() {
    let bad: &[u8] = &[0x7b, 0xff, 0x7d];
    assert_eq!(encode(bad), "Invalid UTF-8 string");
    assert_eq!(validate(bad), "Invalid UTF-8 string");
    assert_eq!(get_value(bad, b"k"), "Invalid UTF-8 string");
    assert_eq!(get_value(b"{}", bad), "Invalid UTF-8 string");
    assert_eq!(c_str_to_string(bad), Err("Invalid UTF-8 string".to_string()));
}

#[test]
fn c_str_to_string_decodes_text() {
    assert_eq!(c_str_to_string("héllo".as_bytes()), Ok("héllo".to_string()));
}

#[test]
fn get_value_on_non_object_and_bad_text() {
    assert_eq!(get_value(b"[1,2]", b"0"), "Key '0' not found");
    assert!(get_value(b"{\"a\":", b"a").starts_with("Failed to parse JSON: "));
    assert_eq!(get_value(br#"{"a": [1, 2.5, "x"]}"#, b"a"), r#"[1,2.5,"x"]"#);
}

#[test]
fn parse_failure_has_message() {
    let r = RsJson::parse(r#"{"key": "value""#);
    match r {
        Err(e) => assert!(!e.message.is_empty()),
        Ok(_) => panic!("a truncated object must not parse"),
    }
}

#[test]
fn stringify_compact_and_pretty() {
    let v = RsJson::parse(r#"{"a": [1, true, null]}"#).unwrap();
    assert_eq!(RsJson::stringify(&v).unwrap(), r#"{"a":[1,true,null]}"#);
    assert_eq!(
        RsJson::stringify_pretty(&v).unwrap(),
        "{\n  \"a\": [\n    1,\n    true,\n    null\n  ]\n}"
    );
}

#[test]
fn parse_keeps_member_order() {
    let v = RsJson::parse(r#"{"z": 1, "a": 2}"#).unwrap();
    assert_eq!(RsJson::stringify(&v).unwrap(), r#"{"z":1,"a":2}"#);
}
