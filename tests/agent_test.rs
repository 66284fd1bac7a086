use exoclaw::agent::{unknown_tool_result, ToolCallResult, ToolLoop, TurnEnd, TurnStart, MAX_TOOL_ITERATIONS};
use exoclaw::types::StreamEvent;

fn parse(s: &str) -> serde_json::Value {
    serde_json::from_str(s).expect("valid json")
}

#[test]
fn tool_loop_scenario() {
    let mut lp = ToolLoop::new(vec![r#"{"role":"user","content":"say hi"}"#.to_string()]);
    assert!(matches!(lp.begin_turn(), TurnStart::CallProvider));
    let fwd = lp.on_provider_event(StreamEvent::ToolUse {
        id: "t1".into(),
        name: "echo".into(),
        input: r#"{"message":"hi"}"#.into(),
    });
    assert!(matches!(fwd, Some(StreamEvent::ToolUse { .. })));
    assert!(lp.on_provider_event(StreamEvent::Done).is_none());
    let calls = match lp.end_turn() {
        TurnEnd::CallTools(calls) => calls,
        TurnEnd::Finished(_) => panic!("expected tool calls"),
    };
    assert_eq!(calls.len(), 1);
    assert_eq!(calls[0].name, "echo");
    let ev = lp.tool_result(&calls[0], ToolCallResult { content: "echo: hi".into(), is_error: false });
    assert!(matches!(ev, StreamEvent::ToolResult { ref content, is_error: false, .. } if content == "echo: hi"));
    lp.finish_tools();
    let msgs = lp.messages();
    assert_eq!(msgs.len(), 3);
    let assistant = parse(&msgs[1]);
    assert_eq!(assistant["role"], "assistant");
    assert_eq!(assistant["content"][0]["type"], "tool_use");
    assert_eq!(assistant["content"][0]["id"], "t1");
    assert_eq!(assistant["content"][0]["input"]["message"], "hi");
    let user = parse(&msgs[2]);
    assert_eq!(user["role"], "user");
    assert_eq!(user["content"][0]["type"], "tool_result");
    assert_eq!(user["content"][0]["tool_use_id"], "t1");
    assert_eq!(user["content"][0]["content"], "echo: hi");
    assert_eq!(user["content"][0]["is_error"], false);

    assert!(matches!(lp.begin_turn(), TurnStart::CallProvider));
    let fwd = lp.on_provider_event(StreamEvent::Text("done now".into()));
    assert!(matches!(fwd, Some(StreamEvent::Text(_))));
    assert!(lp.on_provider_event(StreamEvent::Done).is_none());
    assert!(matches!(lp.end_turn(), TurnEnd::Finished(StreamEvent::Done)));
    assert!(lp.finished());
}

#[test]
fn tool_loop_gives_up_after_max_iterations() {
    let mut lp = ToolLoop::new(vec![]);
    for i in 0..MAX_TOOL_ITERATIONS {
        assert!(matches!(lp.begin_turn(), TurnStart::CallProvider));
        lp.on_provider_event(StreamEvent::ToolUse { id: format!("t{i}"), name: "x".into(), input: "{}".into() });
        match lp.end_turn() {
            TurnEnd::CallTools(calls) => {
                for c in &calls {
                    lp.tool_result(c, unknown_tool_result(&c.name));
                }
                lp.finish_tools();
            }
            TurnEnd::Finished(_) => panic!("expected tool calls"),
        }
    }
    match lp.begin_turn() {
        TurnStart::GiveUp(evs) => {
            assert_eq!(evs.len(), 2);
            assert!(matches!(&evs[0], StreamEvent::Error(m) if m == "tool-use loop exceeded max iterations"));
            assert!(matches!(evs[1], StreamEvent::Done));
        }
        TurnStart::CallProvider => panic!("expected to give up"),
    }
    assert!(lp.finished());
}

#[test]
fn unknown_tool_is_an_error_result() {
    let r = unknown_tool_result("nope");
    assert_eq!(r.content, "unknown tool: nope");
    assert!(r.is_error);
}

#[test]
fn two_tool_calls_keep_their_order() {
    let mut lp = ToolLoop::new(vec![]);
    lp.begin_turn();
    lp.on_provider_event(StreamEvent::ToolUse { id: "a".into(), name: "x".into(), input: "{}".into() });
    lp.on_provider_event(StreamEvent::Usage { input_tokens: 1, output_tokens: 2 });
    lp.on_provider_event(StreamEvent::ToolUse { id: "b".into(), name: "y".into(), input: "[1]".into() });
    let calls = match lp.end_turn() {
        TurnEnd::CallTools(c) => c,
        _ => panic!(),
    };
    for c in &calls {
        lp.tool_result(c, ToolCallResult { content: c.id.clone(), is_error: false });
    }
    lp.finish_tools();
    let user = parse(&lp.messages()[1]);
    assert_eq!(user["content"][0]["tool_use_id"], "a");
    assert_eq!(user["content"][1]["tool_use_id"], "b");
    let assistant = parse(&lp.messages()[0]);
    assert_eq!(assistant["content"][1]["input"][0], 1);
}
