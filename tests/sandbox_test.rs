use exoclaw::capabilities::{self, Capability};

#[test]
fn capability_parsing() {
    let cap = capabilities::parse("http:api.telegram.org").unwrap();
    assert_eq!(cap, Capability::Http("api.telegram.org".into()));

    let cap = capabilities::parse("store:sessions").unwrap();
    assert_eq!(cap, Capability::Store("sessions".into()));

    let cap = capabilities::parse("host_function:my_func").unwrap();
    assert_eq!(cap, Capability::HostFunction("my_func".into()));

    assert!(capabilities::parse("bad").is_err());
    assert!(capabilities::parse("http:").is_err());
    assert!(capabilities::parse("unknown:val").is_err());
}

#[test]
fn capability_parse_all() {
    let caps =
        capabilities::parse_all(&["http:api.example.com".into(), "store:data".into()]).unwrap();
    assert_eq!(caps.len(), 2);

    let result = capabilities::parse_all(&["http:ok".into(), "bad".into()]);
    assert!(result.is_err());
}

#[test]
fn allowed_hosts_from_capabilities() {
    let caps = vec![
        Capability::Http("api.example.com".into()),
        Capability::Store("sessions".into()),
        Capability::Http("api.other.com".into()),
    ];
    let hosts = capabilities::allowed_hosts(&caps);
    assert_eq!(hosts, vec!["api.example.com", "api.other.com"]);
}
