//! The tool-use loop as a state machine. The caller performs each provider call and
//! each tool call; this machine decides what to forward, what to dispatch, how the
//! conversation grows, and when the reply is done.
use vstd::prelude::*;
use vstd::string::*;
use crate::types::{tool_result_block, tool_result_block_json, tool_use_block, tool_use_block_json, StreamEvent};

verus! {

/// An event of a provider stream or of the reply to a client.
pub type AgentEvent = StreamEvent;

/// The most provider calls one reply may take.
pub const MAX_TOOL_ITERATIONS: u32 = 10;

/// A tool call requested by the model; `input` is JSON text.
#[derive(Debug, Clone)]
pub struct ToolCall {
    pub id: String,
    pub name: String,
    pub input: String,
}

/// The result of a tool call.
#[derive(Debug, Clone)]
pub struct ToolCallResult {
    pub content: String,
    pub is_error: bool,
}

/// Provider settings of an agent.
#[derive(Debug, Clone)]
pub struct AgentConfig {
    pub provider: String,
    pub model: String,
    pub api_key: String,
    pub max_tokens: u32,
}

/// What to do before a provider call.
pub enum TurnStart {
    /// Call the provider with the current messages.
    CallProvider,
    /// The loop has run too long: send these events; the reply is over.
    GiveUp(Vec<StreamEvent>),
}

/// What to do once a provider stream has ended.
pub enum TurnEnd {
    /// No tool was requested: send this event; the reply is over.
    Finished(StreamEvent),
    /// Run these tool calls in order, report each result, then start the next turn.
    CallTools(Vec<ToolCall>),
}

pub open spec fn is_done(e: StreamEvent) -> bool {
    e matches StreamEvent::Done
}

/// The number of `Done` events in a sequence.
pub open spec fn done_count(es: Seq<StreamEvent>) -> nat
    decreases es.len(),
{
    if es.len() == 0 {
        0
    } else {
        done_count(es.drop_last()) + if is_done(es.last()) {
            1nat
        } else {
            0nat
        }
    }
}

/// Comma-separated blocks.
pub open spec fn join_blocks(bs: Seq<Seq<char>>) -> Seq<char>
    decreases bs.len(),
{
    if bs.len() == 0 {
        Seq::empty()
    } else if bs.len() == 1 {
        bs[0]
    } else {
        join_blocks(bs.drop_last()) + ","@ + bs.last()
    }
}

pub open spec fn call_blocks(calls: Seq<ToolCall>) -> Seq<Seq<char>> {
    calls.map_values(|c: ToolCall| tool_use_block(c.id@, c.name@, c.input@))
}

/// The assistant message that records a turn's tool calls.
pub open spec fn tool_use_message(calls: Seq<ToolCall>) -> Seq<char> {
    "{\"role\":\"assistant\",\"content\":["@ + join_blocks(call_blocks(calls)) + "]}"@
}

/// The user message that carries a turn's tool results.
pub open spec fn tool_result_message(blocks: Seq<Seq<char>>) -> Seq<char> {
    "{\"role\":\"user\",\"content\":["@ + join_blocks(blocks) + "]}"@
}

pub open spec fn texts(v: Seq<String>) -> Seq<Seq<char>> {
    v.map_values(|s: String| s@)
}

/// The state of one reply's tool-use loop.
pub struct ToolLoop {
    messages: Vec<String>,
    iteration: u32,
    pending: Vec<ToolCall>,
    results: Vec<String>,
    finished: bool,
    emitted: Ghost<Seq<StreamEvent>>,
}

impl ToolLoop {
    /// The provider-shaped messages, JSON text each.
    pub closed spec fn message_log(&self) -> Seq<Seq<char>> {
        texts(self.messages@)
    }

    /// Provider calls made so far.
    pub closed spec fn iterations(&self) -> nat {
        self.iteration as nat
    }

    /// Tool calls buffered in the current turn.
    pub closed spec fn pending_calls(&self) -> Seq<ToolCall> {
        self.pending@
    }

    /// Tool-result blocks gathered in the current dispatch.
    pub closed spec fn result_blocks(&self) -> Seq<Seq<char>> {
        texts(self.results@)
    }

    /// The reply is over.
    pub closed spec fn is_finished(&self) -> bool {
        self.finished
    }

    /// Every event this loop has handed out for the client, in order.
    pub closed spec fn emitted(&self) -> Seq<StreamEvent> {
        self.emitted@
    }

    /// Until the reply is over no `Done` has been sent; once it is over exactly one
    /// has, and it was the last event.
    pub open spec fn wf(&self) -> bool {
        &&& self.iterations() <= MAX_TOOL_ITERATIONS
        &&& !self.is_finished() ==> done_count(self.emitted()) == 0
        &&& self.is_finished() ==> done_count(self.emitted()) == 1 && self.emitted().len() > 0
            && is_done(self.emitted().last())
    }

    /// A loop over the conversation so far (JSON messages).
    pub fn new(messages: Vec<String>) -> (r: Self)
        ensures
            r.wf(),
            r.message_log() == texts(messages@),
            r.iterations() == 0,
            !r.is_finished(),
            r.emitted() == Seq::<StreamEvent>::empty(),
            r.pending_calls() == Seq::<ToolCall>::empty(),
    {
        ToolLoop {
            messages,
            iteration: 0,
            pending: Vec::new(),
            results: Vec::new(),
            finished: false,
            emitted: Ghost(Seq::empty()),
        }
    }

    /// The messages to send to the provider.
    pub fn messages(&self) -> (r: &Vec<String>)
        ensures
            texts(r@) == self.message_log(),
    {
        &self.messages
    }

    /// Whether the reply is over.
    pub fn finished(&self) -> (r: bool)
        ensures
            r == self.is_finished(),
    {
        self.finished
    }

    /// Before a provider call: after `MAX_TOOL_ITERATIONS` calls, gives up with an
    /// error and `Done`; otherwise counts the call and clears the turn's buffers.
    pub fn begin_turn(&mut self) -> (r: TurnStart)
        requires
            old(self).wf(),
            !old(self).is_finished(),
        ensures
            final(self).wf(),
            final(self).message_log() == old(self).message_log(),
            old(self).iterations() == MAX_TOOL_ITERATIONS ==> {
                &&& match r {
                    TurnStart::GiveUp(evs) => {
                        &&& evs@.len() == 2
                        &&& (evs@[0] matches StreamEvent::Error(m) && m@
                            == "tool-use loop exceeded max iterations"@)
                        &&& is_done(evs@[1])
                        &&& final(self).emitted() == old(self).emitted() + evs@
                    },
                    _ => false,
                }
                &&& final(self).is_finished()
            },
            old(self).iterations() < MAX_TOOL_ITERATIONS ==> {
                &&& r is CallProvider
                &&& final(self).iterations() == old(self).iterations() + 1
                &&& !final(self).is_finished()
                &&& final(self).emitted() == old(self).emitted()
                &&& final(self).pending_calls() == Seq::<ToolCall>::empty()
                &&& final(self).result_blocks() == Seq::<Seq<char>>::empty()
            },
    {
        if self.iteration >= MAX_TOOL_ITERATIONS {
            let mut evs: Vec<StreamEvent> = Vec::new();
            evs.push(StreamEvent::Error("tool-use loop exceeded max iterations".to_owned()));
            evs.push(StreamEvent::Done);
            let ghost before = self.emitted@;
            self.emitted = Ghost(self.emitted@ + evs@);
            self.finished = true;
            proof {
                let e = self.emitted@;
                assert(e.drop_last() =~= before.push(evs@[0]));
                assert(before.push(evs@[0]).drop_last() =~= before);
                assert(!is_done(evs@[0]));
                assert(done_count(before.push(evs@[0])) == done_count(before));
                assert(done_count(e) == done_count(e.drop_last()) + 1);
            }
            TurnStart::GiveUp(evs)
        } else {
            self.iteration = self.iteration + 1;
            self.pending = Vec::new();
            self.results = Vec::new();
            assert(texts(self.results@) =~= Seq::<Seq<char>>::empty());
            TurnStart::CallProvider
        }
    }

    /// One event of the provider stream: a tool call is buffered and forwarded,
    /// the provider's `Done` ends the turn and is not forwarded, every other event
    /// is forwarded unchanged.
    pub fn on_provider_event(&mut self, ev: StreamEvent) -> (r: Option<StreamEvent>)
        requires
            old(self).wf(),
            !old(self).is_finished(),
        ensures
            final(self).wf(),
            !final(self).is_finished(),
            final(self).message_log() == old(self).message_log(),
            final(self).iterations() == old(self).iterations(),
            final(self).result_blocks() == old(self).result_blocks(),
            is_done(ev) ==> r is None && final(self).emitted() == old(self).emitted()
                && final(self).pending_calls() == old(self).pending_calls(),
            !is_done(ev) ==> r == Some(ev) && final(self).emitted() == old(self).emitted().push(ev),
            ev matches StreamEvent::ToolUse { id, name, input } ==> final(self).pending_calls()
                == old(self).pending_calls().push(ToolCall { id, name, input }),
            !(ev is ToolUse) ==> final(self).pending_calls() == old(self).pending_calls(),
    {
        match ev {
            StreamEvent::Done => None,
            StreamEvent::ToolUse { id, name, input } => {
                let call = ToolCall { id: id.clone(), name: name.clone(), input: input.clone() };
                self.pending.push(call);
                let out = StreamEvent::ToolUse { id, name, input };
                let ghost before = self.emitted@;
                self.emitted = Ghost(self.emitted@.push(out));
                assert(self.emitted@.drop_last() =~= before);
                Some(out)
            },
            other => {
                let ghost before = self.emitted@;
                self.emitted = Ghost(self.emitted@.push(other));
                assert(self.emitted@.drop_last() =~= before);
                Some(other)
            },
        }
    }

    /// After the provider stream: with no tool call the reply is done; otherwise
    /// the assistant's tool-use message is appended and the calls are handed out.
    pub fn end_turn(&mut self) -> (r: TurnEnd)
        requires
            old(self).wf(),
            !old(self).is_finished(),
        ensures
            final(self).wf(),
            final(self).iterations() == old(self).iterations(),
            old(self).pending_calls().len() == 0 ==> {
                &&& match r {
                    TurnEnd::Finished(e) => is_done(e) && final(self).emitted() == old(self).emitted().push(e),
                    _ => false,
                }
                &&& final(self).is_finished()
                &&& final(self).message_log() == old(self).message_log()
            },
            old(self).pending_calls().len() > 0 ==> {
                &&& match r {
                    TurnEnd::CallTools(calls) => calls@ == old(self).pending_calls(),
                    _ => false,
                }
                &&& !final(self).is_finished()
                &&& final(self).emitted() == old(self).emitted()
                &&& final(self).message_log() == old(self).message_log().push(
                    tool_use_message(old(self).pending_calls()),
                )
                &&& final(self).result_blocks() == Seq::<Seq<char>>::empty()
            },
    {
        if self.pending.len() == 0 {
            self.finished = true;
            let ghost before = self.emitted@;
            self.emitted = Ghost(self.emitted@.push(StreamEvent::Done));
            assert(self.emitted@.drop_last() =~= before);
            TurnEnd::Finished(StreamEvent::Done)
        } else {
            let mut msg = "{\"role\":\"assistant\",\"content\":[".to_owned();
            let ghost blocks = call_blocks(self.pending@);
            let mut i: usize = 0;
            while i < self.pending.len()
                invariant
                    blocks == call_blocks(self.pending@),
                    0 < self.pending@.len(),
                    i <= self.pending@.len(),
                    msg@ == "{\"role\":\"assistant\",\"content\":["@ + join_blocks(
                        blocks.subrange(0, i as int),
                    ),
                decreases self.pending@.len() - i,
            {
                let c = &self.pending[i];
                let b = tool_use_block_json(c.id.as_str(), c.name.as_str(), c.input.as_str());
                assert(blocks.subrange(0, i + 1).drop_last() =~= blocks.subrange(0, i as int));
                if i > 0 {
                    msg.append(",");
                } else {
                    assert(join_blocks(blocks.subrange(0, 0)) =~= Seq::<char>::empty());
                }
                msg.append(b.as_str());
                proof {
                    let h = "{\"role\":\"assistant\",\"content\":["@;
                    if i == 0 {
                        assert(h + Seq::<char>::empty() =~= h);
                    }
                }
                i = i + 1;
            }
            assert(blocks.subrange(0, self.pending@.len() as int) =~= blocks);
            msg.append("]}");
            let ghost before = texts(self.messages@);
            self.messages.push(msg);
            assert(texts(self.messages@) =~= before.push(tool_use_message(self.pending@)));
            let mut calls: Vec<ToolCall> = Vec::new();
            std::mem::swap(&mut calls, &mut self.pending);
            self.results = Vec::new();
            assert(texts(self.results@) =~= Seq::<Seq<char>>::empty());
            TurnEnd::CallTools(calls)
        }
    }

    /// Records the result of a tool call and gives the event to forward.
    pub fn tool_result(&mut self, call: &ToolCall, result: ToolCallResult) -> (r: StreamEvent)
        requires
            old(self).wf(),
            !old(self).is_finished(),
        ensures
            final(self).wf(),
            !final(self).is_finished(),
            final(self).message_log() == old(self).message_log(),
            final(self).iterations() == old(self).iterations(),
            final(self).pending_calls() == old(self).pending_calls(),
            r == (StreamEvent::ToolResult {
                tool_use_id: call.id,
                content: result.content,
                is_error: result.is_error,
            }),
            final(self).emitted() == old(self).emitted().push(r),
            final(self).result_blocks() == old(self).result_blocks().push(
                tool_result_block(call.id@, result.content@, result.is_error),
            ),
    {
        let block = tool_result_block_json(call.id.as_str(), result.content.as_str(), result.is_error);
        let ghost before = texts(self.results@);
        self.results.push(block);
        assert(texts(self.results@) =~= before.push(
            tool_result_block(call.id@, result.content@, result.is_error),
        ));
        let ev = StreamEvent::ToolResult {
            tool_use_id: call.id.clone(),
            content: result.content,
            is_error: result.is_error,
        };
        let ghost before_ev = self.emitted@;
        self.emitted = Ghost(self.emitted@.push(ev));
        assert(self.emitted@.drop_last() =~= before_ev);
        ev
    }

    /// Appends the user message carrying the results gathered since the last
    /// `end_turn`, in the order they were recorded.
    pub fn finish_tools(&mut self)
        requires
            old(self).wf(),
            !old(self).is_finished(),
        ensures
            final(self).wf(),
            !final(self).is_finished(),
            final(self).iterations() == old(self).iterations(),
            final(self).emitted() == old(self).emitted(),
            final(self).message_log() == old(self).message_log().push(
                tool_result_message(old(self).result_blocks()),
            ),
            final(self).result_blocks() == Seq::<Seq<char>>::empty(),
    {
        let mut msg = "{\"role\":\"user\",\"content\":[".to_owned();
        let ghost blocks = texts(self.results@);
        let mut i: usize = 0;
        while i < self.results.len()
            invariant
                blocks == texts(self.results@),
                i <= self.results@.len(),
                msg@ == "{\"role\":\"user\",\"content\":["@ + join_blocks(blocks.subrange(0, i as int)),
            decreases self.results@.len() - i,
        {
            assert(blocks.subrange(0, i + 1).drop_last() =~= blocks.subrange(0, i as int));
            if i > 0 {
                msg.append(",");
            } else {
                assert(join_blocks(blocks.subrange(0, 0)) =~= Seq::<char>::empty());
                assert("{\"role\":\"user\",\"content\":["@ + Seq::<char>::empty()
                    =~= "{\"role\":\"user\",\"content\":["@);
            }
            msg.append(self.results[i].as_str());
            i = i + 1;
        }
        assert(blocks.subrange(0, self.results@.len() as int) =~= blocks);
        msg.append("]}");
        let ghost before = texts(self.messages@);
        self.messages.push(msg);
        assert(texts(self.messages@) =~= before.push(tool_result_message(blocks)));
        self.results = Vec::new();
        assert(texts(self.results@) =~= Seq::<Seq<char>>::empty());
    }
}

/// The result reported for a call to a tool no plugin provides.
pub fn unknown_tool_result(name: &str) -> (r: ToolCallResult)
    ensures
        r.content@ == "unknown tool: "@ + name@,
        r.is_error,
{
    let mut content = "unknown tool: ".to_owned();
    content.append(name);
    ToolCallResult { content, is_error: true }
}

} // verus!
