use exoclaw::types::StreamEvent;
use exoclaw::webhook::{
    after_format, after_proxy, no_adapter_response, parse_failed_response, provider_failed_response,
    webhook_params, ReplyCollector, WebhookStep,
};

#[test]
fn webhook_params_defaults_account_and_peer() {
    let p = webhook_params("telegram", r#"{"content":"hi","guild":"g"}"#).unwrap();
    assert_eq!(p.channel, "telegram");
    assert_eq!(p.content, "hi");
    assert_eq!(p.account, "webhook");
    assert_eq!(p.peer, "main");
    assert_eq!(p.guild.as_deref(), Some("g"));
    assert_eq!(p.team, None);
    let p = webhook_params("t", r#"{"content":"hi","account":"a1","peer":"p1","team":"x"}"#).unwrap();
    assert_eq!(p.account, "a1");
    assert_eq!(p.peer, "p1");
    assert_eq!(p.team.as_deref(), Some("x"));
}

#[test]
fn webhook_params_refuses_empty_or_missing_content() {
    let r = webhook_params("t", r#"{"content":""}"#).unwrap_err();
    assert_eq!((r.status, r.body.as_str()), (400, "empty message content"));
    let r = webhook_params("t", r#"{"account":"a"}"#).unwrap_err();
    assert_eq!(r.status, 400);
    let r = webhook_params("t", "not json").unwrap_err();
    assert_eq!(r.status, 400);
    assert!(r.body.starts_with("parse_incoming failed: channel adapter returned invalid JSON: "));
}

#[test]
fn fixed_responses() {
    let r = no_adapter_response("irc");
    assert_eq!((r.status, r.body.as_str()), (404, "no channel adapter for 'irc'"));
    let r = parse_failed_response("trap");
    assert_eq!((r.status, r.body.as_str()), (400, "parse_incoming failed: trap"));
    let r = provider_failed_response("no key");
    assert_eq!((r.status, r.body.as_str()), (500, "provider error: no key"));
}

#[test]
fn reply_collector_collects_text_and_fails_on_error() {
    let mut c = ReplyCollector::new();
    c.on_event(&StreamEvent::Text("hel".into()));
    c.on_event(&StreamEvent::Usage { input_tokens: 1, output_tokens: 1 });
    c.on_event(&StreamEvent::Text("lo".into()));
    c.on_event(&StreamEvent::Done);
    assert!(c.done);
    assert_eq!(c.result().unwrap(), "hello");
    let mut c = ReplyCollector::new();
    c.on_event(&StreamEvent::Text("partial".into()));
    c.on_event(&StreamEvent::Error("boom".into()));
    let r = c.result().unwrap_err();
    assert_eq!((r.status, r.body.as_str()), (500, "agent error: boom"));
}

#[test]
fn after_format_cases() {
    let allowed = vec!["api.telegram.org".to_string()];
    match after_format("reply", None, &allowed, "tg") {
        WebhookStep::Respond(r) => assert_eq!((r.status, r.body.as_str()), (200, "reply")),
        _ => panic!("expected a response"),
    }
    match after_format("reply", Some(r#"{"text":"x"}"#), &allowed, "tg") {
        WebhookStep::Respond(r) => assert_eq!((r.status, r.body.as_str()), (200, r#"{"text":"x"}"#)),
        _ => panic!("expected a response"),
    }
    match after_format("reply", Some(r#"{"url":"https://api.telegram.org/send","body":{"chat":1}}"#), &allowed, "tg") {
        WebhookStep::Proxy { url, body } => {
            assert_eq!(url, "https://api.telegram.org/send");
            assert_eq!(body, r#"{"chat":1}"#);
        }
        _ => panic!("expected a proxy call"),
    }
    match after_format("say \"hi\"", Some(r#"{"url":"https://api.telegram.org/send"}"#), &allowed, "tg") {
        WebhookStep::Proxy { body, .. } => assert_eq!(body, r#"{"text":"say \"hi\""}"#),
        _ => panic!("expected a proxy call"),
    }
    match after_format("reply", Some(r#"{"url":"https://evil.example.com/x"}"#), &allowed, "tg") {
        WebhookStep::Respond(r) => {
            assert_eq!(r.status, 403);
            assert_eq!(r.body, "proxy denied: evil.example.com not in allowed_hosts for adapter 'tg'");
        }
        _ => panic!("expected a refusal"),
    }
    match after_format("reply", Some(r#"{"url":"nonsense"}"#), &allowed, "tg") {
        WebhookStep::Respond(r) => {
            assert_eq!(r.status, 403);
            assert_eq!(r.body, "proxy denied: unknown not in allowed_hosts for adapter 'tg'");
        }
        _ => panic!("expected a refusal"),
    }
}

#[test]
fn after_proxy_cases() {
    let r = after_proxy(Ok("sent".into()));
    assert_eq!((r.status, r.body.as_str()), (200, "sent"));
    let r = after_proxy(Err("timeout".into()));
    assert_eq!((r.status, r.body.as_str()), (502, "proxy call failed: timeout"));
}
