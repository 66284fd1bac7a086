use exoclaw::gateway::{auth_failed_frame, check_startup, constant_time_eq, verify_connect, StartupError};

#[test]
fn valid_token_authenticates() {
    let expected = Some("my-secret-token".to_string());
    let msg = r#"{"token": "my-secret-token"}"#;
    assert!(verify_connect(msg, &expected));
}

#[test]
fn invalid_token_rejected() {
    let expected = Some("my-secret-token".to_string());
    let msg = r#"{"token": "wrong-token"}"#;
    assert!(!verify_connect(msg, &expected));
}

#[test]
fn no_token_configured_allows_all() {
    let expected = None;
    let msg = r#"{"anything": "here"}"#;
    assert!(verify_connect(msg, &expected));
}

#[test]
fn malformed_json_rejected() {
    let expected = Some("secret".to_string());
    let msg = "this is not json";
    assert!(!verify_connect(msg, &expected));
}

#[test]
fn empty_token_string_rejected() {
    let expected = Some("my-secret".to_string());
    let msg = r#"{"token": ""}"#;
    assert!(!verify_connect(msg, &expected));
}

#[test]
fn missing_token_field_rejected() {
    let expected = Some("secret".to_string());
    let msg = r#"{"not_token": "secret"}"#;
    assert!(!verify_connect(msg, &expected));
}

#[test]
fn json_with_extra_fields_accepted() {
    let expected = Some("correct".to_string());
    let msg = r#"{"token": "correct", "extra": true}"#;
    assert!(verify_connect(msg, &expected));
}

#[test]
fn wrong_token_scenario_gives_auth_failed_frame() {
    let expected = Some("secret".to_string());
    assert!(!verify_connect(r#"{"token":"wrong"}"#, &expected));
    let v: serde_json::Value = serde_json::from_str(auth_failed_frame()).unwrap();
    assert_eq!(v["error"], "auth_failed");
    assert_eq!(v["code"], 4001);
}

#[test]
fn constant_time_eq_compares_bytes() {
    assert!(constant_time_eq(b"abc", b"abc"));
    assert!(!constant_time_eq(b"abc", b"abd"));
    assert!(!constant_time_eq(b"abc", b"ab"));
}

#[test]
fn non_loopback_without_token_fails_startup() {
    assert!(matches!(check_startup("0.0.0.0", &None), Err(StartupError::TokenRequired(_))));
    assert!(check_startup("0.0.0.0", &Some("t".into())).is_ok());
    assert!(check_startup("127.0.0.1", &None).is_ok());
    assert!(check_startup("::1", &None).is_ok());
}

#[test]
fn startup_refusal_message() {
    let err = check_startup("0.0.0.0", &None).unwrap_err();
    assert!(err.to_string().starts_with("Auth token required when binding to non-loopback address."));
}
