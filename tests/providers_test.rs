use exoclaw::providers::{
    build_anthropic_tools, build_openai_tools, build_tools_for_provider, from_config, http_failure_events,
    openai_data, sse_fields, has_event_data, AnthropicEvent, AnthropicStream, OpenAiChunk, OpenAiStream,
    ProviderChoice, ProviderConfigError, ToolCallDelta,
};
use exoclaw::config::AgentDefConfig;
use exoclaw::types::StreamEvent;

fn parse(s: &str) -> serde_json::Value {
    serde_json::from_str(s).expect("valid json")
}

#[test]
fn anthropic_stream_text_then_usage_and_done() {
    let mut st = AnthropicStream::new();
    assert!(st.on_event(AnthropicEvent::MessageStart { input_tokens: Some(5) }).is_empty());
    let t = st.on_event(AnthropicEvent::TextDelta("hello".into()));
    assert!(matches!(&t[..], [StreamEvent::Text(x)] if x == "hello"));
    st.on_event(AnthropicEvent::MessageDelta { output_tokens: Some(1) });
    let end = st.on_event(AnthropicEvent::MessageStop);
    assert!(matches!(end[0], StreamEvent::Usage { input_tokens: 5, output_tokens: 1 }));
    assert!(matches!(end[1], StreamEvent::Done));
    assert!(st.finished);
}

#[test]
fn anthropic_stream_buffers_tool_call() {
    let mut st = AnthropicStream::new();
    st.on_event(AnthropicEvent::ToolUseStart { id: "t1".into(), name: "echo".into() });
    st.on_event(AnthropicEvent::InputJsonDelta("{\"message\":".into()));
    st.on_event(AnthropicEvent::InputJsonDelta("\"hi\"}".into()));
    let out = st.on_event(AnthropicEvent::BlockStop);
    match &out[..] {
        [StreamEvent::ToolUse { id, name, input }] => {
            assert_eq!(id, "t1");
            assert_eq!(name, "echo");
            assert_eq!(parse(input)["message"], "hi");
        }
        _ => panic!("expected one tool call"),
    }
    assert!(st.on_event(AnthropicEvent::BlockStop).is_empty());
}

#[test]
fn anthropic_bad_tool_json_becomes_empty_object() {
    let mut st = AnthropicStream::new();
    st.on_event(AnthropicEvent::ToolUseStart { id: "t1".into(), name: "echo".into() });
    st.on_event(AnthropicEvent::InputJsonDelta("{not json".into()));
    let out = st.on_event(AnthropicEvent::BlockStop);
    assert!(matches!(&out[..], [StreamEvent::ToolUse { input, .. }] if input == "{}"));
}

#[test]
fn anthropic_stream_end_without_stop() {
    let mut st = AnthropicStream::new();
    let out = st.finish();
    assert!(matches!(out[0], StreamEvent::Usage { input_tokens: 0, output_tokens: 0 }));
    assert!(matches!(out[1], StreamEvent::Done));
}

#[test]
fn http_failure_gives_error_then_done() {
    let out = http_failure_events("401 Unauthorized", "bad key");
    assert!(matches!(&out[0], StreamEvent::Error(m) if m == "401 Unauthorized: bad key"));
    assert!(matches!(out[1], StreamEvent::Done));
}

fn delta(index: u64, id: Option<&str>, name: Option<&str>, args: Option<&str>) -> ToolCallDelta {
    ToolCallDelta {
        index,
        id: id.map(String::from),
        name: name.map(String::from),
        arguments: args.map(String::from),
    }
}

#[test]
fn openai_stream_emits_tool_calls_in_index_order() {
    let mut st = OpenAiStream::new();
    let out = st.on_chunk(OpenAiChunk {
        prompt_tokens: None,
        completion_tokens: None,
        content: Some("thinking".into()),
        tool_calls: vec![delta(1, Some("b"), Some("second"), Some("{\"x\":")), delta(0, Some("a"), Some("first"), Some("{}"))],
        finish_tool_calls: false,
    });
    assert!(matches!(&out[..], [StreamEvent::Text(t)] if t == "thinking"));
    let out = st.on_chunk(OpenAiChunk {
        prompt_tokens: Some(7),
        completion_tokens: Some(3),
        content: None,
        tool_calls: vec![delta(1, None, None, Some("2}"))],
        finish_tool_calls: true,
    });
    assert_eq!(out.len(), 2);
    match (&out[0], &out[1]) {
        (StreamEvent::ToolUse { id: a, name: an, input: ai }, StreamEvent::ToolUse { id: b, input: bi, .. }) => {
            assert_eq!(a, "a");
            assert_eq!(an, "first");
            assert_eq!(ai, "{}");
            assert_eq!(b, "b");
            assert_eq!(parse(bi)["x"], 2);
        }
        _ => panic!("expected two tool calls"),
    }
    let end = st.finish();
    assert!(matches!(end[0], StreamEvent::Usage { input_tokens: 7, output_tokens: 3 }));
    assert!(matches!(end[1], StreamEvent::Done));
}

#[test]
fn sse_block_fields() {
    let (e, d) = sse_fields("event: content_block_delta\r\ndata: {\"a\":1}\n");
    assert_eq!(e, "content_block_delta");
    assert_eq!(d, "{\"a\":1}");
    let (e, d) = sse_fields(": comment");
    assert_eq!(e, "");
    assert_eq!(d, "");
    assert!(has_event_data("{}"));
    assert!(!has_event_data("[DONE]"));
    assert!(!has_event_data(""));
}

#[test]
fn openai_data_prefix() {
    assert_eq!(openai_data("data: [DONE]"), Some("[DONE]"));
    assert_eq!(openai_data("event: x"), None);
}

#[test]
fn build_anthropic_tool_format() {
    let schemas = vec![r#"{"name":"echo","description":"Echo back","input_schema":{"type":"object","properties":{"message":{"type":"string"}}}}"#.to_string()];
    let tools = build_anthropic_tools(&schemas);
    assert_eq!(tools.len(), 1);
    let t = parse(&tools[0]);
    assert_eq!(t["name"], "echo");
    assert_eq!(t["description"], "Echo back");
    assert_eq!(t["input_schema"]["type"], "object");
}

#[test]
fn build_openai_tool_format() {
    let schemas = vec![r#"{"name":"echo","description":"Echo back"}"#.to_string()];
    let tools = build_openai_tools(&schemas);
    let t = parse(&tools[0]);
    assert_eq!(t["type"], "function");
    assert_eq!(t["function"]["name"], "echo");
    assert_eq!(t["function"]["parameters"]["type"], "object");
}

#[test]
fn tools_for_unknown_provider_use_anthropic_shape() {
    let schemas = vec!["not json".to_string()];
    let t = parse(&build_tools_for_provider("other", &schemas)[0]);
    assert_eq!(t["name"], "unknown");
    assert_eq!(t["description"], "");
}

#[test]
fn provider_choice_from_config() {
    let mut cfg = AgentDefConfig::default();
    assert_eq!(
        from_config(&cfg),
        Err(ProviderConfigError::NoApiKey { provider: "anthropic".into(), env_var: "ANTHROPIC_API_KEY".into() })
    );
    cfg.api_key = Some("k".into());
    assert!(matches!(from_config(&cfg), Ok(ProviderChoice::Anthropic { .. })));
    cfg.provider = "openai".into();
    assert!(matches!(from_config(&cfg), Ok(ProviderChoice::OpenAi { max_tokens: 4096, .. })));
    cfg.provider = "other".into();
    assert_eq!(from_config(&cfg), Err(ProviderConfigError::UnknownProvider("other".into())));
}
