use exoclaw::gateway::{
    classify_method, error_response, parse_error_response, pong_response, status_response,
    unknown_method_response, RpcMethod, TurnRelay,
};
use exoclaw::types::StreamEvent;

fn parse(s: &str) -> serde_json::Value {
    serde_json::from_str(s).expect("valid json")
}

#[test]
fn parse_error_frame_uses_id_zero() {
    let v = parse(&parse_error_response("expected value at line 1 column 1"));
    assert_eq!(v["id"], "0");
    assert_eq!(v["error"], "parse error: expected value at line 1 column 1");
}

#[test]
fn ping_gives_pong() {
    let v = parse(&pong_response("1"));
    assert_eq!(v["id"], "1");
    assert_eq!(v["result"], "pong");
}

#[test]
fn unknown_method_is_named() {
    let v = parse(&unknown_method_response("7", "foo.bar"));
    assert_eq!(v["id"], "7");
    assert_eq!(v["error"], "unknown method: foo.bar");
}

#[test]
fn status_lists_counts() {
    let v = parse(&status_response("2", "0.1.0", 3, 4));
    assert_eq!(v["result"]["version"], "0.1.0");
    assert_eq!(v["result"]["plugins"], 3);
    assert_eq!(v["result"]["sessions"], 4);
}

#[test]
fn error_response_carries_message() {
    let v = parse(&error_response("9", "token budget exceeded (session:s: 900/1000)"));
    assert_eq!(v["error"], "token budget exceeded (session:s: 900/1000)");
}

#[test]
fn methods_are_classified() {
    assert_eq!(classify_method("ping"), RpcMethod::Ping);
    assert_eq!(classify_method("status"), RpcMethod::Status);
    assert_eq!(classify_method("plugin.list"), RpcMethod::PluginList);
    assert_eq!(classify_method("chat.send"), RpcMethod::ChatSend);
    assert_eq!(classify_method("chat.sendx"), RpcMethod::Unknown);
}

#[test]
fn relay_streams_frames_and_stops_after_done() {
    let mut relay = TurnRelay::new("chat1");
    let a = relay.on_event(&StreamEvent::Text("hel".into())).unwrap();
    let b = relay.on_event(&StreamEvent::Text("lo".into())).unwrap();
    let c = relay.on_event(&StreamEvent::Usage { input_tokens: 5, output_tokens: 1 }).unwrap();
    let d = relay.on_event(&StreamEvent::Done).unwrap();
    assert!(relay.on_event(&StreamEvent::Text("late".into())).is_none());
    assert!(relay.on_event(&StreamEvent::Done).is_none());
    assert_eq!(parse(&a)["data"], "hel");
    assert_eq!(parse(&b)["id"], "chat1");
    assert_eq!(parse(&c)["event"], "usage");
    assert_eq!(d, r#"{"id":"chat1","event":"done"}"#);
    assert!(relay.finished());
    assert_eq!(relay.assistant_text(), "hello");
}

#[test]
fn relay_ignores_non_text_in_assistant_text() {
    let mut relay = TurnRelay::new("x");
    relay.on_event(&StreamEvent::Error("boom".into()));
    relay.on_event(&StreamEvent::Text("ok".into()));
    assert_eq!(relay.assistant_text(), "ok");
    assert!(!relay.finished());
}
