use mqtt_auth::response::build_user_create_response;
use mqtt_auth::text::escape_json_str;

#[test]
fn success_response_contains_username() {
    let json = build_user_create_response(Some("alice"), true, "created");
    assert!(json.contains("\"isSuccess\":true"));
    assert!(json.contains("\"message\":\"created\""));
    assert!(json.contains("\"data\":{"));
    assert!(json.contains("\"username\":\"alice\""));
}

#[test]
fn error_response_has_null_data_and_escaped_message() {
    let json = build_user_create_response(None, false, "bad \"input\"");
    assert!(json.contains("\"isSuccess\":false"));
    assert!(json.contains("bad \\\"input\\\""));
    assert!(json.contains("\"data\":null"));
}

#[test]
fn escapes_quotes_and_backslashes() {
    let s = r#"a\"b"#;
    let got = escape_json_str(s);
    assert!(got.contains("\\\"") || got.contains("\\\\"));
}

#[test]
fn preserves_simple_text() {
    let s = "alice";
    assert_eq!(escape_json_str(s), "alice");
}

#[test]
fn response_is_exact() {
    let json = build_user_create_response(Some("bob"), true, "ok");
    assert_eq!(json, "{\"isSuccess\":true,\"message\":\"ok\",\"data\":{\"username\":\"bob\"}}");
    let json = build_user_create_response(None, false, "no");
    assert_eq!(json, "{\"isSuccess\":false,\"message\":\"no\",\"data\":null}");
}

#[test]
fn escapes_control_characters() {
    assert_eq!(escape_json_str("a\nb\rc\td\\e\"f"), "a\\nb\\rc\\td\\\\e\\\"f");
    assert_eq!(escape_json_str(""), "");
}

#[test]
fn keeps_other_control_characters() {
    assert_eq!(escape_json_str("a\u{1}b\u{1f}"), "a\u{1}b\u{1f}");
    assert_eq!(escape_json_str("\u{7f}"), "\u{7f}");
}
