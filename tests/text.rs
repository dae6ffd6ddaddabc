use mqtt_auth::text::{constant_time_eq, is_blank_text, same_text, starts_with_text};

#[test]
fn blank_texts() {
    assert!(is_blank_text(""));
    assert!(is_blank_text(" \t\n\u{3000}"));
    assert!(!is_blank_text(" a "));
}

#[test]
fn prefixes_and_equality() {
    assert!(starts_with_text("users/alice/temp", "users/alice/"));
    assert!(!starts_with_text("users/alicex/temp", "users/alice/"));
    assert!(!starts_with_text("users", "users/alice/"));
    assert!(same_text("abc", "abc"));
    assert!(!same_text("abc", "abd"));
    assert!(constant_time_eq("secret", "secret"));
    assert!(!constant_time_eq("secret", "secreT"));
    assert!(!constant_time_eq("secret", "secrets"));
}
