use exoclaw::capabilities::{allowed_hosts, parse, parse_all, Capability};

#[test]
fn parse_http_capability() {
    let cap = parse("http:api.telegram.org").unwrap();
    assert_eq!(cap, Capability::Http("api.telegram.org".into()));
}

#[test]
fn parse_store_capability() {
    let cap = parse("store:sessions").unwrap();
    assert_eq!(cap, Capability::Store("sessions".into()));
}

#[test]
fn parse_host_function_capability() {
    let cap = parse("host_function:my_func").unwrap();
    assert_eq!(cap, Capability::HostFunction("my_func".into()));
}

#[test]
fn parse_unknown_type_fails() {
    let result = parse("filesystem:tmp");
    assert!(result.is_err());
    assert!(result.unwrap_err().to_string().contains("unknown capability type"));
}

#[test]
fn parse_missing_colon_fails() {
    let result = parse("http");
    assert!(result.is_err());
    assert!(result.unwrap_err().to_string().contains("expected 'type:value'"));
}

#[test]
fn parse_empty_value_fails() {
    let result = parse("http:");
    assert!(result.is_err());
    assert!(result.unwrap_err().to_string().contains("cannot be empty"));
}

#[test]
fn parse_all_succeeds() {
    let caps = parse_all(&["http:api.example.com".into(), "store:data".into()]).unwrap();
    assert_eq!(caps.len(), 2);
}

#[test]
fn parse_all_fails_on_invalid() {
    let result = parse_all(&["http:api.example.com".into(), "bad".into()]);
    assert!(result.is_err());
}

#[test]
fn allowed_hosts_filters_http() {
    let caps = vec![
        Capability::Http("api.example.com".into()),
        Capability::Store("sessions".into()),
        Capability::Http("api.other.com".into()),
    ];
    let hosts = allowed_hosts(&caps);
    assert_eq!(hosts, vec!["api.example.com", "api.other.com"]);
}

#[test]
fn display_capability() {
    assert_eq!(Capability::Http("host".into()).to_string(), "http:host");
    assert_eq!(Capability::Store("s".into()).to_string(), "store:s");
    assert_eq!(Capability::HostFunction("f".into()).to_string(), "host_function:f");
}

#[test]
fn parse_then_display_gives_back_the_text() {
    for text in ["http:api.example.com", "store:a:b", "host_function:f"] {
        assert_eq!(parse(text).unwrap().to_string(), text);
    }
}

#[test]
fn parse_splits_at_first_colon_only() {
    assert_eq!(parse("store:a:b").unwrap(), Capability::Store("a:b".into()));
}

#[test]
fn allowed_hosts_of_no_http_grant_is_empty() {
    let caps = vec![Capability::Store("s".into()), Capability::HostFunction("f".into())];
    assert!(allowed_hosts(&caps).is_empty());
}
