use exoclaw::capabilities::Capability;
use exoclaw::sandbox::{
    check_proxy_url, detect_plugin_type, failed_tool_call, interpret_tool_output, webhook_status, PluginHost,
    PluginType, WebhookOutcome,
};

#[test]
fn tool_output_json_fields_are_used() {
    let r = interpret_tool_output(r#"{"content":"echo: hi","is_error":false}"#);
    assert_eq!(r.content, "echo: hi");
    assert!(!r.is_error);
    let r = interpret_tool_output(r#"{"content":"bad","is_error":true}"#);
    assert!(r.is_error);
}

#[test]
fn tool_output_empty_content_falls_back_to_raw() {
    let raw = r#"{"result":42}"#;
    let r = interpret_tool_output(raw);
    assert_eq!(r.content, raw);
    assert!(!r.is_error);
}

#[test]
fn tool_output_not_json_is_raw() {
    let r = interpret_tool_output("plain text");
    assert_eq!(r.content, "plain text");
    assert!(!r.is_error);
    let f = failed_tool_call("trap");
    assert_eq!(f.content, "tool execution failed: trap");
    assert!(f.is_error);
}

#[test]
fn describe_decides_kind() {
    let (k, s) = detect_plugin_type(Some(r#"{"type":"channel_adapter"}"#), false, false);
    assert_eq!(k, PluginType::ChannelAdapter);
    assert!(s.is_none());
    let (k, s) = detect_plugin_type(Some(r#"{"plugin_type":"channel_adapter"}"#), false, false);
    assert_eq!(k, PluginType::ChannelAdapter);
    assert!(s.is_none());
    let (k, s) = detect_plugin_type(Some(r#"{"name":"echo"}"#), true, true);
    assert_eq!(k, PluginType::Tool);
    assert_eq!(s.as_deref(), Some(r#"{"name":"echo"}"#));
    let (k, _) = detect_plugin_type(None, true, false);
    assert_eq!(k, PluginType::ChannelAdapter);
    let (k, s) = detect_plugin_type(Some("not json"), false, false);
    assert_eq!(k, PluginType::Tool);
    assert!(s.is_none());
}

#[test]
fn registry_lookups() {
    let mut host = PluginHost::new();
    assert!(host.list().is_empty());
    host.register("echo", PluginType::Tool, vec![], Some(r#"{"name":"echo"}"#.into()));
    host.register(
        "telegram",
        PluginType::ChannelAdapter,
        vec![Capability::Http("api.telegram.org".into()), Capability::Store("s".into())],
        None,
    );
    assert_eq!(host.count(), 2);
    assert!(host.has_plugin("echo"));
    assert!(!host.has_plugin("nope"));
    assert_eq!(host.plugin_type("telegram"), Some(PluginType::ChannelAdapter));
    assert_eq!(host.tool_schemas(), vec![r#"{"name":"echo"}"#.to_string()]);
    assert_eq!(host.find_channel_adapter("telegram").as_deref(), Some("telegram"));
    assert_eq!(host.find_channel_adapter("echo"), None);
    assert_eq!(host.allowed_hosts("telegram"), vec!["api.telegram.org".to_string()]);
    assert!(host.allowed_hosts("echo").is_empty());
    host.register("echo", PluginType::Tool, vec![], None);
    assert_eq!(host.count(), 2);
    assert!(host.tool_schemas().is_empty());
    assert_eq!(host.list()[0].name, "echo");
}

#[test]
fn proxy_urls_are_checked_against_allowed_hosts() {
    let allowed = vec!["api.telegram.org".to_string()];
    assert!(check_proxy_url("https://api.telegram.org/bot/send", &allowed, "telegram").is_ok());
    let denied = check_proxy_url("https://evil.example.com/x", &allowed, "telegram").unwrap_err();
    assert_eq!(denied.host.as_deref(), Some("evil.example.com"));
    assert_eq!(denied.to_string(), "proxy denied: evil.example.com not in allowed_hosts for adapter 'telegram'");
    assert!(check_proxy_url("not a url", &allowed, "telegram").is_err());
}

#[test]
fn webhook_statuses() {
    assert_eq!(webhook_status(&WebhookOutcome::Delivered), 200);
    assert_eq!(webhook_status(&WebhookOutcome::BadPayload), 400);
    assert_eq!(webhook_status(&WebhookOutcome::ProxyDenied), 403);
    assert_eq!(webhook_status(&WebhookOutcome::NoAdapter), 404);
    assert_eq!(webhook_status(&WebhookOutcome::ProviderFailed), 500);
    assert_eq!(webhook_status(&WebhookOutcome::ProxyFailed), 502);
}

#[test]
fn list_plugins() {
    let mut host = PluginHost::new();
    assert!(host.list().is_empty());

    host.register("echo", PluginType::Tool, vec![], None);
    let list = host.list();
    assert_eq!(list.len(), 1);
    assert_eq!(list[0].name, "echo");
}
