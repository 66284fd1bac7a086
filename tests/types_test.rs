use exoclaw::types::{Message, MessageContent, StreamEvent};

fn parse(s: &str) -> serde_json::Value {
    serde_json::from_str(s).expect("valid json")
}

#[test]
fn text_message_constructor_sets_defaults() {
    let msg = Message::text("user", "hello");
    assert_eq!(msg.role, "user");
    assert!(matches!(msg.content, MessageContent::Text { .. }));
    assert!(msg.token_count.is_none());
}

#[test]
fn provider_message_for_text() {
    let msg = Message::text("user", "hello");
    let provider = parse(&msg.as_provider_message().expect("provider message"));
    assert_eq!(provider["role"], "user");
    assert_eq!(provider["content"], "hello");
}

#[test]
fn provider_message_for_tool_use() {
    let msg = Message {
        role: "assistant".into(),
        content: MessageContent::ToolUse {
            id: "call-1".into(),
            name: "search".into(),
            input: r#"{"q":"rust"}"#.into(),
        },
        timestamp: 0,
        token_count: Some(42),
    };
    let provider = parse(&msg.as_provider_message().expect("provider message"));
    assert_eq!(provider["role"], "assistant");
    assert_eq!(provider["content"][0]["type"], "tool_use");
    assert_eq!(provider["content"][0]["id"], "call-1");
    assert_eq!(provider["content"][0]["name"], "search");
    assert_eq!(provider["content"][0]["input"]["q"], "rust");
}

#[test]
fn provider_message_for_tool_result() {
    let msg = Message {
        role: "user".into(),
        content: MessageContent::ToolResult {
            tool_use_id: "call-1".into(),
            content: "done".into(),
            is_error: true,
        },
        timestamp: 0,
        token_count: None,
    };
    let provider = parse(&msg.as_provider_message().expect("provider message"));
    assert_eq!(provider["role"], "user");
    assert_eq!(provider["content"][0]["type"], "tool_result");
    assert_eq!(provider["content"][0]["tool_use_id"], "call-1");
    assert_eq!(provider["content"][0]["content"], "done");
    assert_eq!(provider["content"][0]["is_error"], true);
}

#[test]
fn stream_event_to_frame_formats_wire_payloads() {
    let request_id = "req-1";

    let text = parse(&StreamEvent::Text("chunk".into()).to_frame(request_id));
    assert_eq!(text["id"], request_id);
    assert_eq!(text["event"], "text");
    assert_eq!(text["data"], "chunk");

    let tool_use = parse(
        &StreamEvent::ToolUse { id: "call-2".into(), name: "lookup".into(), input: r#"{"x":1}"#.into() }
            .to_frame(request_id),
    );
    assert_eq!(tool_use["event"], "tool_use");
    assert_eq!(tool_use["data"]["id"], "call-2");
    assert_eq!(tool_use["data"]["name"], "lookup");
    assert_eq!(tool_use["data"]["input"]["x"], 1);

    let tool_result = parse(
        &StreamEvent::ToolResult { tool_use_id: "call-2".into(), content: "ok".into(), is_error: false }
            .to_frame(request_id),
    );
    assert_eq!(tool_result["event"], "tool_result");
    assert_eq!(tool_result["data"]["tool_use_id"], "call-2");
    assert_eq!(tool_result["data"]["content"], "ok");
    assert_eq!(tool_result["data"]["is_error"], false);

    let usage = parse(&StreamEvent::Usage { input_tokens: 10, output_tokens: 4 }.to_frame(request_id));
    assert_eq!(usage["event"], "usage");
    assert_eq!(usage["data"]["input_tokens"], 10);
    assert_eq!(usage["data"]["output_tokens"], 4);

    let done = parse(&StreamEvent::Done.to_frame(request_id));
    assert_eq!(done["event"], "done");

    let error = parse(&StreamEvent::Error("boom".into()).to_frame(request_id));
    assert_eq!(error["event"], "error");
    assert_eq!(error["data"], "boom");
}

#[test]
fn frames_are_exact_text() {
    assert_eq!(StreamEvent::Text("hello".into()).to_frame("chat1"), r#"{"id":"chat1","event":"text","data":"hello"}"#);
    assert_eq!(
        StreamEvent::Usage { input_tokens: 5, output_tokens: 1 }.to_frame("chat1"),
        r#"{"id":"chat1","event":"usage","data":{"input_tokens":5,"output_tokens":1}}"#
    );
    assert_eq!(StreamEvent::Done.to_frame("chat1"), r#"{"id":"chat1","event":"done"}"#);
}

#[test]
fn frames_escape_text() {
    let f = StreamEvent::Text("say \"hi\"\n".into()).to_frame("r");
    assert_eq!(parse(&f)["data"], "say \"hi\"\n");
}

#[test]
fn event_kinds() {
    assert_eq!(StreamEvent::Text("x".into()).kind(), "text");
    assert_eq!(StreamEvent::Done.kind(), "done");
    assert_eq!(StreamEvent::Usage { input_tokens: 1, output_tokens: 2 }.kind(), "usage");
    assert_eq!(StreamEvent::Error("e".into()).kind(), "error");
}
