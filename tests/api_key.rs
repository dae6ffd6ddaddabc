use mqtt_auth::api_key::{is_authorized, request_authorized, trim_text};

#[test]
fn bare_and_bearer_keys() {
    assert!(is_authorized("k3y", "k3y"));
    assert!(is_authorized("Bearer k3y", "k3y"));
    assert!(is_authorized("bearer   k3y  ", "k3y"));
    assert!(is_authorized("BEARER k3y", "k3y"));
    assert!(is_authorized("BeArEr\tk3y", "k3y"));
    assert!(!is_authorized("Bearer other", "k3y"));
    assert!(!is_authorized("Basic k3y", "k3y"));
    assert!(!is_authorized("bearer", "k3y"));
    assert!(!is_authorized("", "k3y"));
    assert!(!is_authorized("Bearer k3y extra", "k3y"));
}

#[test]
fn requests_need_a_configured_key() {
    assert!(request_authorized(Some("  Bearer k3y  "), "k3y"));
    assert!(!request_authorized(Some("Bearer k3y"), ""));
    assert!(!request_authorized(None, "k3y"));
    assert!(!request_authorized(Some(""), ""));
}

#[test]
fn trims_white_space() {
    assert_eq!(trim_text("  a b \n"), "a b");
    assert_eq!(trim_text("   "), "");
    assert_eq!(trim_text(""), "");
}
