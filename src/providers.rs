//! Provider stream normalization: the events of an Anthropic-style or an
//! OpenAI-style stream turned into the one event vocabulary of the gateway.
//! The HTTP exchange and the JSON field access stay with the caller, which hands
//! over each stream event as plain values.
use vstd::prelude::*;
use vstd::string::*;
use crate::text::{occurs_at, push_char, str_eq};
use crate::types::StreamEvent;

verus! {

/// Whether a text parses as JSON.
pub uninterp spec fn json_valid_of(s: Seq<char>) -> bool;

/// Relies on `serde_json::from_str` into a `Value`: whether the text is JSON.
#[verifier::external_body]
fn is_valid_json(s: &str) -> (r: bool)
    ensures
        r == json_valid_of(s@),
{
    serde_json::from_str::<serde_json::Value>(s).is_ok()
}

/// Tool arguments as sent on: the accumulated text when it is JSON, `{}` otherwise.
pub open spec fn tool_input(args: Seq<char>) -> Seq<char> {
    if json_valid_of(args) {
        args
    } else {
        "{}"@
    }
}

fn tool_input_exec(args: &str) -> (r: String)
    ensures
        r@ == tool_input(args@),
{
    if is_valid_json(args) {
        args.to_owned()
    } else {
        "{}".to_owned()
    }
}

/// The named server-sent event types of the Anthropic-style stream, with the fields
/// each one carries.
pub enum AnthropicEvent {
    MessageStart { input_tokens: Option<u32> },
    ToolUseStart { id: String, name: String },
    TextDelta(String),
    InputJsonDelta(String),
    BlockStop,
    MessageDelta { output_tokens: Option<u32> },
    MessageStop,
    Other,
}

/// State of one Anthropic-style stream.
pub struct AnthropicStream {
    pub input_tokens: u32,
    pub output_tokens: u32,
    pub tool_id: String,
    pub tool_name: String,
    pub tool_args: String,
    pub finished: bool,
}

pub open spec fn usage_then_done(i: u32, o: u32) -> Seq<StreamEvent> {
    seq![StreamEvent::Usage { input_tokens: i, output_tokens: o }, StreamEvent::Done]
}

/// The buffered tool block is unchanged.
pub open spec fn same_tool(a: AnthropicStream, b: AnthropicStream) -> bool {
    a.tool_id == b.tool_id && a.tool_name == b.tool_name && a.tool_args == b.tool_args
}

/// The token counts are unchanged.
pub open spec fn same_tokens(a: AnthropicStream, b: AnthropicStream) -> bool {
    a.input_tokens == b.input_tokens && a.output_tokens == b.output_tokens
}

impl AnthropicStream {
    pub fn new() -> (r: Self)
        ensures
            r.input_tokens == 0 && r.output_tokens == 0 && r.tool_id@.len() == 0 && r.tool_name@.len()
                == 0 && r.tool_args@.len() == 0 && !r.finished,
    {
        AnthropicStream {
            input_tokens: 0,
            output_tokens: 0,
            tool_id: String::new(),
            tool_name: String::new(),
            tool_args: String::new(),
            finished: false,
        }
    }

    /// The events one stream event yields, and the new state: text deltas become
    /// text; a tool block is buffered and becomes one tool call when it stops;
    /// `message_stop` yields usage and then `Done` and ends the stream.
    pub fn on_event(&mut self, ev: AnthropicEvent) -> (r: Vec<StreamEvent>)
        requires
            !old(self).finished,
        ensures
            match ev {
                AnthropicEvent::MessageStart { input_tokens } => {
                    &&& r@.len() == 0
                    &&& final(self).input_tokens == match input_tokens {
                        Some(t) => t,
                        None => old(self).input_tokens,
                    }
                    &&& final(self).output_tokens == old(self).output_tokens
                    &&& same_tool(*final(self), *old(self))
                    &&& !final(self).finished
                },
                AnthropicEvent::ToolUseStart { id, name } => {
                    &&& r@.len() == 0
                    &&& final(self).tool_id@ == id@
                    &&& final(self).tool_name@ == name@
                    &&& final(self).tool_args@.len() == 0
                    &&& same_tokens(*final(self), *old(self))
                    &&& !final(self).finished
                },
                AnthropicEvent::TextDelta(t) => {
                    &&& r@ == seq![StreamEvent::Text(t)]
                    &&& *final(self) == *old(self)
                },
                AnthropicEvent::InputJsonDelta(p) => {
                    &&& r@.len() == 0
                    &&& final(self).tool_args@ == old(self).tool_args@ + p@
                    &&& final(self).tool_id == old(self).tool_id
                    &&& final(self).tool_name == old(self).tool_name
                    &&& same_tokens(*final(self), *old(self))
                    &&& !final(self).finished
                },
                AnthropicEvent::BlockStop => {
                    &&& same_tokens(*final(self), *old(self))
                    &&& !final(self).finished
                    &&& if old(self).tool_id@.len() > 0 {
                        &&& r@.len() == 1
                        &&& match r@[0] {
                            StreamEvent::ToolUse { id, name, input } => id@ == old(self).tool_id@
                                && name@ == old(self).tool_name@ && input@ == tool_input(
                                old(self).tool_args@,
                            ),
                            _ => false,
                        }
                        &&& final(self).tool_id@.len() == 0
                        &&& final(self).tool_name@.len() == 0
                        &&& final(self).tool_args@.len() == 0
                    } else {
                        &&& r@.len() == 0
                        &&& same_tool(*final(self), *old(self))
                    }
                },
                AnthropicEvent::MessageDelta { output_tokens } => {
                    &&& r@.len() == 0
                    &&& final(self).output_tokens == match output_tokens {
                        Some(t) => t,
                        None => old(self).output_tokens,
                    }
                    &&& final(self).input_tokens == old(self).input_tokens
                    &&& same_tool(*final(self), *old(self))
                    &&& !final(self).finished
                },
                AnthropicEvent::MessageStop => {
                    &&& r@ == usage_then_done(old(self).input_tokens, old(self).output_tokens)
                    &&& final(self).finished
                },
                AnthropicEvent::Other => r@.len() == 0 && *final(self) == *old(self),
            },
    {
        let mut out: Vec<StreamEvent> = Vec::new();
        match ev {
            AnthropicEvent::MessageStart { input_tokens } => {
                if let Some(t) = input_tokens {
                    self.input_tokens = t;
                }
            },
            AnthropicEvent::ToolUseStart { id, name } => {
                self.tool_id = id;
                self.tool_name = name;
                self.tool_args = String::new();
            },
            AnthropicEvent::TextDelta(t) => {
                out.push(StreamEvent::Text(t));
            },
            AnthropicEvent::InputJsonDelta(p) => {
                self.tool_args.append(p.as_str());
            },
            AnthropicEvent::BlockStop => {
                if self.tool_id.as_str().unicode_len() > 0 {
                    let input = tool_input_exec(self.tool_args.as_str());
                    out.push(
                        StreamEvent::ToolUse {
                            id: self.tool_id.clone(),
                            name: self.tool_name.clone(),
                            input,
                        },
                    );
                    self.tool_id = String::new();
                    self.tool_name = String::new();
                    self.tool_args = String::new();
                }
            },
            AnthropicEvent::MessageDelta { output_tokens } => {
                if let Some(t) = output_tokens {
                    self.output_tokens = t;
                }
            },
            AnthropicEvent::MessageStop => {
                out.push(
                    StreamEvent::Usage {
                        input_tokens: self.input_tokens,
                        output_tokens: self.output_tokens,
                    },
                );
                out.push(StreamEvent::Done);
                self.finished = true;
            },
            AnthropicEvent::Other => {},
        }
        out
    }

    /// The stream ended without `message_stop`: usage, then `Done`.
    pub fn finish(&mut self) -> (r: Vec<StreamEvent>)
        requires
            !old(self).finished,
        ensures
            r@ == usage_then_done(old(self).input_tokens, old(self).output_tokens),
            final(self).finished,
    {
        let mut out: Vec<StreamEvent> = Vec::new();
        out.push(
            StreamEvent::Usage { input_tokens: self.input_tokens, output_tokens: self.output_tokens },
        );
        out.push(StreamEvent::Done);
        self.finished = true;
        out
    }
}

/// The events of a failed HTTP exchange: `Error("<status>: <body>")`, then `Done`.
pub fn http_failure_events(status: &str, body: &str) -> (r: Vec<StreamEvent>)
    ensures
        r@.len() == 2,
        match r@[0] {
            StreamEvent::Error(m) => m@ == status@ + ": "@ + body@,
            _ => false,
        },
        r@[1] matches StreamEvent::Done,
{
    let mut m = status.to_owned();
    m.append(": ");
    m.append(body);
    let mut out: Vec<StreamEvent> = Vec::new();
    out.push(StreamEvent::Error(m));
    out.push(StreamEvent::Done);
    out
}

/// One tool-call fragment of an OpenAI-style chunk.
pub struct ToolCallDelta {
    pub index: u64,
    pub id: Option<String>,
    pub name: Option<String>,
    pub arguments: Option<String>,
}

/// The fields of one OpenAI-style `data:` chunk that the stream uses.
pub struct OpenAiChunk {
    pub prompt_tokens: Option<u32>,
    pub completion_tokens: Option<u32>,
    pub content: Option<String>,
    pub tool_calls: Vec<ToolCallDelta>,
    pub finish_tool_calls: bool,
}

/// A tool call being assembled.
pub struct PendingCall {
    pub index: u64,
    pub id: String,
    pub name: String,
    pub args: String,
}

/// A tool call being assembled, over character sequences.
pub struct CallView {
    pub index: u64,
    pub id: Seq<char>,
    pub name: Seq<char>,
    pub args: Seq<char>,
}

pub open spec fn call_view(c: PendingCall) -> CallView {
    CallView { index: c.index, id: c.id@, name: c.name@, args: c.args@ }
}

pub open spec fn opt_or(o: Option<String>, d: Seq<char>) -> Seq<char> {
    match o {
        Some(s) => s@,
        None => d,
    }
}

/// A call started by a fragment.
pub open spec fn started(d: ToolCallDelta) -> CallView {
    CallView {
        index: d.index,
        id: opt_or(d.id, Seq::empty()),
        name: opt_or(d.name, Seq::empty()),
        args: opt_or(d.arguments, Seq::empty()),
    }
}

/// A call extended by a fragment of the same index.
pub open spec fn extended(c: CallView, d: ToolCallDelta) -> CallView {
    CallView {
        index: c.index,
        id: opt_or(d.id, c.id),
        name: opt_or(d.name, c.name),
        args: c.args + opt_or(d.arguments, Seq::empty()),
    }
}

/// The calls, ordered by index, after one fragment.
pub open spec fn merge_delta(cs: Seq<CallView>, d: ToolCallDelta) -> Seq<CallView>
    decreases cs.len(),
{
    if cs.len() == 0 {
        seq![started(d)]
    } else if cs[0].index == d.index {
        seq![extended(cs[0], d)] + cs.drop_first()
    } else if d.index < cs[0].index {
        seq![started(d)] + cs
    } else {
        seq![cs[0]] + merge_delta(cs.drop_first(), d)
    }
}

/// The calls after a chunk's fragments, in order.
pub open spec fn merge_all(cs: Seq<CallView>, ds: Seq<ToolCallDelta>) -> Seq<CallView>
    decreases ds.len(),
{
    if ds.len() == 0 {
        cs
    } else {
        merge_delta(merge_all(cs, ds.drop_last()), ds.last())
    }
}

/// Indices strictly increase.
pub open spec fn sorted(cs: Seq<CallView>) -> bool {
    forall|i: int, j: int| 0 <= i < j < cs.len() ==> cs[i].index < cs[j].index
}

/// The tool calls emitted for assembled calls, in order.
pub open spec fn emitted_calls(cs: Seq<CallView>) -> Seq<(Seq<char>, Seq<char>, Seq<char>)> {
    cs.map_values(|c: CallView| (c.id, c.name, tool_input(c.args)))
}

pub open spec fn tool_use_parts(es: Seq<StreamEvent>) -> Seq<(Seq<char>, Seq<char>, Seq<char>)> {
    es.map_values(|e: StreamEvent|
        match e {
            StreamEvent::ToolUse { id, name, input } => (id@, name@, input@),
            _ => (Seq::empty(), Seq::empty(), Seq::empty()),
        })
}

pub open spec fn all_tool_uses(es: Seq<StreamEvent>) -> bool {
    forall|i: int| 0 <= i < es.len() ==> (#[trigger] es[i]) is ToolUse
}

/// The text event of a chunk's content, if any.
pub open spec fn text_events(content: Option<String>) -> Seq<StreamEvent> {
    match content {
        Some(t) => seq![StreamEvent::Text(t)],
        None => Seq::empty(),
    }
}

/// State of one OpenAI-style stream.
pub struct OpenAiStream {
    pub input_tokens: u32,
    pub output_tokens: u32,
    pub calls: Vec<PendingCall>,
    pub finished: bool,
}

proof fn lemma_merge_sorted(cs: Seq<CallView>, d: ToolCallDelta)
    requires
        sorted(cs),
    ensures
        sorted(merge_delta(cs, d)),
        forall|i: int|
            0 <= i < merge_delta(cs, d).len() ==> #[trigger] merge_delta(cs, d)[i].index == d.index
                || exists|j: int| 0 <= j < cs.len() && cs[j].index == merge_delta(cs, d)[i].index,
    decreases cs.len(),
{
    if cs.len() > 0 && cs[0].index != d.index && d.index >= cs[0].index {
        let t = cs.drop_first();
        lemma_merge_sorted(t, d);
        let m = merge_delta(t, d);
        let r = merge_delta(cs, d);
        assert(r == seq![cs[0]] + m);
        assert forall|i: int| 0 <= i < m.len() implies cs[0].index < #[trigger] m[i].index by {
            if m[i].index != d.index {
                let j = choose|j: int| 0 <= j < t.len() && t[j].index == m[i].index;
                assert(t[j] == cs[j + 1]);
            }
        }
        assert forall|i: int, j: int| 0 <= i < j < r.len() implies r[i].index < r[j].index by {
            if i > 0 {
                assert(r[i] == m[i - 1] && r[j] == m[j - 1]);
            } else {
                assert(r[j] == m[j - 1]);
            }
        }
        assert forall|i: int| 0 <= i < r.len() implies #[trigger] r[i].index == d.index || exists|
            j: int,
        | 0 <= j < cs.len() && cs[j].index == r[i].index by {
            if i == 0 {
                assert(cs[0].index == r[0].index);
            } else {
                assert(r[i] == m[i - 1]);
                if m[i - 1].index != d.index {
                    let j = choose|j: int| 0 <= j < t.len() && t[j].index == m[i - 1].index;
                    assert(t[j] == cs[j + 1]);
                }
            }
        }
    } else if cs.len() > 0 && cs[0].index == d.index {
        let r = merge_delta(cs, d);
        assert forall|i: int| 0 <= i < r.len() implies #[trigger] r[i].index == d.index || exists|
            j: int,
        | 0 <= j < cs.len() && cs[j].index == r[i].index by {
            if i > 0 {
                assert(r[i] == cs[i]);
            }
        }
    } else if cs.len() > 0 {
        let r = merge_delta(cs, d);
        assert forall|i: int| 0 <= i < r.len() implies #[trigger] r[i].index == d.index || exists|
            j: int,
        | 0 <= j < cs.len() && cs[j].index == r[i].index by {
            if i > 0 {
                assert(r[i] == cs[i - 1]);
            }
        }
    }
}

proof fn lemma_merge_at(cs: Seq<CallView>, d: ToolCallDelta, k: int)
    requires
        sorted(cs),
        0 <= k <= cs.len(),
        forall|j: int| 0 <= j < k ==> cs[j].index < d.index,
        k < cs.len() ==> cs[k].index >= d.index,
    ensures
        merge_delta(cs, d) == if k < cs.len() && cs[k].index == d.index {
            cs.update(k, extended(cs[k], d))
        } else {
            cs.insert(k, started(d))
        },
    decreases k,
{
    if k > 0 {
        let t = cs.drop_first();
        assert forall|j: int| 0 <= j < k - 1 implies t[j].index < d.index by {
            assert(t[j] == cs[j + 1]);
        }
        lemma_merge_at(t, d, k - 1);
        if k < cs.len() && cs[k].index == d.index {
            assert(seq![cs[0]] + t.update(k - 1, extended(t[k - 1], d)) =~= cs.update(
                k,
                extended(cs[k], d),
            ));
        } else {
            assert(seq![cs[0]] + t.insert(k - 1, started(d)) =~= cs.insert(k, started(d)));
        }
    } else {
        if cs.len() == 0 {
            assert(cs.insert(0, started(d)) =~= seq![started(d)]);
        } else if cs[0].index == d.index {
            assert(seq![extended(cs[0], d)] + cs.drop_first() =~= cs.update(0, extended(cs[0], d)));
        } else {
            assert(seq![started(d)] + cs =~= cs.insert(0, started(d)));
        }
    }
}

impl OpenAiStream {
    /// The calls being assembled, ordered by index.
    pub open spec fn calls(&self) -> Seq<CallView> {
        self.calls@.map_values(|c: PendingCall| call_view(c))
    }

    pub open spec fn wf(&self) -> bool {
        sorted(self.calls())
    }

    pub fn new() -> (r: Self)
        ensures
            r.wf(),
            r.calls() == Seq::<CallView>::empty(),
            r.input_tokens == 0 && r.output_tokens == 0 && !r.finished,
    {
        let r = OpenAiStream { input_tokens: 0, output_tokens: 0, calls: Vec::new(), finished: false };
        assert(r.calls() =~= Seq::<CallView>::empty());
        r
    }

    fn merge(&mut self, d: ToolCallDelta)
        requires
            old(self).wf(),
        ensures
            final(self).wf(),
            final(self).calls() == merge_delta(old(self).calls(), d),
            final(self).input_tokens == old(self).input_tokens,
            final(self).output_tokens == old(self).output_tokens,
            final(self).finished == old(self).finished,
    {
        let ghost cs = self.calls();
        let mut k: usize = 0;
        while k < self.calls.len() && self.calls[k].index < d.index
            invariant
                cs == self.calls(),
                sorted(cs),
                k <= self.calls@.len(),
                forall|j: int| 0 <= j < k ==> cs[j].index < d.index,
            decreases self.calls@.len() - k,
        {
            k = k + 1;
        }
        proof {
            lemma_merge_at(cs, d, k as int);
            lemma_merge_sorted(cs, d);
        }
        let ghost dv = d;
        if k < self.calls.len() && self.calls[k].index == d.index {
            let mut c = self.calls.remove(k);
            let ghost cv = call_view(c);
            if let Some(id) = d.id {
                c.id = id;
            }
            if let Some(name) = d.name {
                c.name = name;
            }
            if let Some(a) = d.arguments {
                c.args.append(a.as_str());
            } else {
                assert(c.args@ + Seq::<char>::empty() =~= c.args@);
            }
            assert(call_view(c) == extended(cv, dv));
            self.calls.insert(k, c);
            assert(self.calls() =~= cs.update(k as int, extended(cs[k as int], dv)));
        } else {
            let c = PendingCall {
                index: d.index,
                id: match d.id {
                    Some(s) => s,
                    None => String::new(),
                },
                name: match d.name {
                    Some(s) => s,
                    None => String::new(),
                },
                args: match d.arguments {
                    Some(s) => s,
                    None => String::new(),
                },
            };
            assert(call_view(c) == started(dv));
            self.calls.insert(k, c);
            assert(self.calls() =~= cs.insert(k as int, started(dv)));
        }
    }

    /// The events one chunk yields: its text, if any; and, when it finishes with
    /// tool calls, one tool call per assembled call in ascending index order.
    /// Usage counts present in the chunk are kept for the end of the stream.
    pub fn on_chunk(&mut self, chunk: OpenAiChunk) -> (r: Vec<StreamEvent>)
        requires
            old(self).wf(),
            !old(self).finished,
        ensures
            final(self).wf(),
            !final(self).finished,
            final(self).input_tokens == match chunk.prompt_tokens {
                Some(t) => t,
                None => old(self).input_tokens,
            },
            final(self).output_tokens == match chunk.completion_tokens {
                Some(t) => t,
                None => old(self).output_tokens,
            },
            ({
                let merged = merge_all(old(self).calls(), chunk.tool_calls@);
                let text = text_events(chunk.content);
                &&& r@.subrange(0, text.len() as int) == text
                &&& if chunk.finish_tool_calls {
                    &&& all_tool_uses(r@.subrange(text.len() as int, r@.len() as int))
                    &&& tool_use_parts(r@.subrange(text.len() as int, r@.len() as int))
                        == emitted_calls(merged)
                    &&& final(self).calls() == Seq::<CallView>::empty()
                } else {
                    r@.len() == text.len() && final(self).calls() == merged
                }
            }),
    {
        if let Some(t) = chunk.prompt_tokens {
            self.input_tokens = t;
        }
        if let Some(t) = chunk.completion_tokens {
            self.output_tokens = t;
        }
        let mut out: Vec<StreamEvent> = Vec::new();
        let ghost text = text_events(chunk.content);
        match chunk.content {
            Some(t) => out.push(StreamEvent::Text(t)),
            None => {},
        }
        assert(out@ =~= text);
        let ghost start = self.calls();
        let ghost ds = chunk.tool_calls@;
        let n = chunk.tool_calls.len();
        assert(ds.len() == n);
        let mut deltas = chunk.tool_calls;
        let mut rev: Vec<ToolCallDelta> = Vec::new();
        while deltas.len() > 0
            invariant
                deltas@ + rev@.reverse() == ds,
            decreases deltas@.len(),
        {
            let d = deltas.pop().unwrap();
            let ghost before_rev = rev@;
            rev.push(d);
            assert(rev@.reverse() =~= seq![d] + before_rev.reverse());
            assert(deltas@ + rev@.reverse() =~= (deltas@.push(d)) + before_rev.reverse());
        }
        assert(rev@.reverse() =~= ds);
        let mut applied: usize = 0;
        while rev.len() > 0
            invariant
                self.wf(),
                !self.finished,
                rev@.reverse() =~= ds.subrange(applied as int, ds.len() as int),
                applied <= ds.len(),
                ds.len() <= usize::MAX,
                self.calls() == merge_all(start, ds.subrange(0, applied as int)),
                self.input_tokens == match chunk.prompt_tokens {
                    Some(t) => t,
                    None => old(self).input_tokens,
                },
                self.output_tokens == match chunk.completion_tokens {
                    Some(t) => t,
                    None => old(self).output_tokens,
                },
            decreases rev@.len(),
        {
            let ghost before = rev@;
            let d = rev.pop().unwrap();
            proof {
                assert(before.reverse().len() == before.len());
                assert(ds.subrange(applied as int, ds.len() as int).len() == before.len());
                assert(applied < ds.len());
                assert(before.reverse()[0] == d);
                assert(ds.subrange(applied as int, ds.len() as int)[0] == d);
                assert(ds[applied as int] == d);
                assert(rev@.reverse() =~= before.reverse().drop_first());
                assert(ds.subrange(0, applied + 1).drop_last() =~= ds.subrange(0, applied as int));
            }
            self.merge(d);
            applied = applied + 1;
        }
        assert(ds.subrange(0, ds.len() as int) =~= ds);
        if chunk.finish_tool_calls {
            let ghost merged = self.calls();
            let mut calls: Vec<PendingCall> = Vec::new();
            std::mem::swap(&mut calls, &mut self.calls);
            let mut i: usize = 0;
            while i < calls.len()
                invariant
                    merged == calls@.map_values(|c: PendingCall| call_view(c)),
                    i <= calls@.len(),
                    out@.len() == text.len() + i,
                    out@.subrange(0, text.len() as int) == text,
                    all_tool_uses(out@.subrange(text.len() as int, out@.len() as int)),
                    tool_use_parts(out@.subrange(text.len() as int, out@.len() as int))
                        == emitted_calls(merged.subrange(0, i as int)),
                decreases calls@.len() - i,
            {
                let c = &calls[i];
                let input = tool_input_exec(c.args.as_str());
                let ghost before = out@;
                out.push(StreamEvent::ToolUse { id: c.id.clone(), name: c.name.clone(), input });
                assert(out@.subrange(0, text.len() as int) =~= before.subrange(0, text.len() as int));
                assert(out@.subrange(text.len() as int, out@.len() as int) =~= before.subrange(
                    text.len() as int,
                    before.len() as int,
                ).push(out@.last()));
                assert(emitted_calls(merged.subrange(0, i + 1)) =~= emitted_calls(
                    merged.subrange(0, i as int),
                ).push((c.id@, c.name@, tool_input(c.args@))));
                assert(tool_use_parts(out@.subrange(text.len() as int, out@.len() as int))
                    =~= tool_use_parts(
                    before.subrange(text.len() as int, before.len() as int),
                ).push((c.id@, c.name@, tool_input(c.args@))));
                i = i + 1;
            }
            assert(merged.subrange(0, calls@.len() as int) =~= merged);
            assert(self.calls() =~= Seq::<CallView>::empty());
        }
        out
    }

    /// `[DONE]` or the end of the stream: usage, then `Done`.
    pub fn finish(&mut self) -> (r: Vec<StreamEvent>)
        requires
            !old(self).finished,
        ensures
            r@ == usage_then_done(old(self).input_tokens, old(self).output_tokens),
            final(self).finished,
    {
        let mut out: Vec<StreamEvent> = Vec::new();
        out.push(
            StreamEvent::Usage { input_tokens: self.input_tokens, output_tokens: self.output_tokens },
        );
        out.push(StreamEvent::Done);
        self.finished = true;
        out
    }
}

/// The `name`, `description` and `input_schema` (as JSON text) of a tool schema, when
/// the schema text is JSON; each present only when it is a string (a JSON value for
/// `input_schema`).
pub uninterp spec fn schema_fields_of(schema: Seq<char>) -> Option<(Option<Seq<char>>, Option<Seq<char>>, Option<Seq<char>>)>;

/// Relies on `serde_json::from_str` into a `Value`, `Value::get` and
/// `serde_json::to_string` of the `input_schema` value.
#[verifier::external_body]
fn schema_fields(schema: &str) -> (r: Option<(Option<String>, Option<String>, Option<String>)>)
    ensures
        schema_fields_of(schema@) == match r {
            Some((a, b, c)) => Some((opt_view(a), opt_view(b), opt_view(c))),
            None => None,
        },
{
    match serde_json::from_str::<serde_json::Value>(schema) {
        Ok(v) => {
            let name = match v.get("name") { Some(serde_json::Value::String(s)) => Some(s.clone()), _ => None };
            let description = match v.get("description") { Some(serde_json::Value::String(s)) => Some(s.clone()), _ => None };
            let input = match v.get("input_schema") { Some(x) => serde_json::to_string(x).ok(), None => None };
            Some((name, description, input))
        },
        Err(_) => None,
    }
}

pub open spec fn opt_view(o: Option<String>) -> Option<Seq<char>> {
    match o {
        Some(s) => Some(s@),
        None => None,
    }
}

/// The fields a tool definition uses, with their defaults: name `unknown`, empty
/// description, and an empty object schema.
pub open spec fn tool_parts(schema: Seq<char>) -> (Seq<char>, Seq<char>, Seq<char>) {
    let f = schema_fields_of(schema);
    let (n, d, i) = match f {
        Some(t) => t,
        None => (None, None, None),
    };
    (
        match n {
            Some(x) => x,
            None => "unknown"@,
        },
        match d {
            Some(x) => x,
            None => Seq::empty(),
        },
        match i {
            Some(x) => x,
            None => "{\"type\":\"object\",\"properties\":{}}"@,
        },
    )
}

/// `{"name":…,"description":…,"input_schema":…}`.
pub open spec fn anthropic_tool(schema: Seq<char>) -> Seq<char> {
    let (n, d, i) = tool_parts(schema);
    "{\"name\":"@ + crate::types::json_quoted(n) + ",\"description\":"@ + crate::types::json_quoted(d)
        + ",\"input_schema\":"@ + i + "}"@
}

/// `{"type":"function","function":{"name":…,"description":…,"parameters":…}}`.
pub open spec fn openai_tool(schema: Seq<char>) -> Seq<char> {
    let (n, d, i) = tool_parts(schema);
    "{\"type\":\"function\",\"function\":{\"name\":"@ + crate::types::json_quoted(n)
        + ",\"description\":"@ + crate::types::json_quoted(d) + ",\"parameters\":"@ + i + "}}"@
}

fn tool_parts_exec(schema: &str) -> (r: (String, String, String))
    ensures
        (r.0@, r.1@, r.2@) == tool_parts(schema@),
{
    let (n, d, i) = match schema_fields(schema) {
        Some(t) => t,
        None => (None, None, None),
    };
    (
        match n {
            Some(x) => x,
            None => "unknown".to_owned(),
        },
        match d {
            Some(x) => x,
            None => String::new(),
        },
        match i {
            Some(x) => x,
            None => "{\"type\":\"object\",\"properties\":{}}".to_owned(),
        },
    )
}

/// Tool definitions in the Anthropic shape, one per schema, in order.
pub fn build_anthropic_tools(schemas: &[String]) -> (r: Vec<String>)
    ensures
        r@.len() == schemas@.len(),
        forall|k: int| 0 <= k < r@.len() ==> (#[trigger] r@[k])@ == anthropic_tool(schemas@[k]@),
{
    let mut out: Vec<String> = Vec::new();
    let mut k: usize = 0;
    while k < schemas.len()
        invariant
            k <= schemas@.len(),
            out@.len() == k,
            forall|j: int| 0 <= j < k ==> (#[trigger] out@[j])@ == anthropic_tool(schemas@[j]@),
        decreases schemas@.len() - k,
    {
        let (n, d, i) = tool_parts_exec(schemas[k].as_str());
        let mut t = "{\"name\":".to_owned();
        let q = crate::types::json_quote(n.as_str());
        t.append(q.as_str());
        t.append(",\"description\":");
        let q = crate::types::json_quote(d.as_str());
        t.append(q.as_str());
        t.append(",\"input_schema\":");
        t.append(i.as_str());
        t.append("}");
        out.push(t);
        k = k + 1;
    }
    out
}

/// Tool definitions in the OpenAI shape, one per schema, in order.
pub fn build_openai_tools(schemas: &[String]) -> (r: Vec<String>)
    ensures
        r@.len() == schemas@.len(),
        forall|k: int| 0 <= k < r@.len() ==> (#[trigger] r@[k])@ == openai_tool(schemas@[k]@),
{
    let mut out: Vec<String> = Vec::new();
    let mut k: usize = 0;
    while k < schemas.len()
        invariant
            k <= schemas@.len(),
            out@.len() == k,
            forall|j: int| 0 <= j < k ==> (#[trigger] out@[j])@ == openai_tool(schemas@[j]@),
        decreases schemas@.len() - k,
    {
        let (n, d, i) = tool_parts_exec(schemas[k].as_str());
        let mut t = "{\"type\":\"function\",\"function\":{\"name\":".to_owned();
        let q = crate::types::json_quote(n.as_str());
        t.append(q.as_str());
        t.append(",\"description\":");
        let q = crate::types::json_quote(d.as_str());
        t.append(q.as_str());
        t.append(",\"parameters\":");
        t.append(i.as_str());
        t.append("}}");
        out.push(t);
        k = k + 1;
    }
    out
}

/// Tool definitions shaped for a provider: OpenAI's for `openai`, Anthropic's otherwise.
pub fn build_tools_for_provider(provider: &str, schemas: &[String]) -> (r: Vec<String>)
    ensures
        r@.len() == schemas@.len(),
        forall|k: int|
            0 <= k < r@.len() ==> (#[trigger] r@[k])@ == if provider@ == "openai"@ {
                openai_tool(schemas@[k]@)
            } else {
                anthropic_tool(schemas@[k]@)
            },
{
    if str_eq(provider, "openai") {
        build_openai_tools(schemas)
    } else {
        build_anthropic_tools(schemas)
    }
}

/// Which adapter to build, with what it needs.
#[derive(Debug, Clone, PartialEq, Eq)]
pub enum ProviderChoice {
    Anthropic { api_key: String, model: String, max_tokens: u32 },
    OpenAi { api_key: String, model: String, max_tokens: u32 },
}

/// Why no adapter could be built.
#[derive(Debug, Clone, PartialEq, Eq)]
pub enum ProviderConfigError {
    /// No API key is configured; holds the provider and the variable that would set it.
    NoApiKey { provider: String, env_var: String },
    /// The provider is not one the gateway can talk to.
    UnknownProvider(String),
}

impl ProviderConfigError {
    pub fn to_string(&self) -> String {
        match self {
            ProviderConfigError::NoApiKey { provider, env_var } => {
                let mut r = "no API key for provider '".to_owned();
                r.append(provider.as_str());
                r.append("'. Set ");
                r.append(env_var.as_str());
                r.append(" env var.");
                r
            },
            ProviderConfigError::UnknownProvider(p) => {
                let mut r = "unknown provider: ".to_owned();
                r.append(p.as_str());
                r
            },
        }
    }
}

/// The variable that supplies a provider's API key.
pub open spec fn key_var(provider: Seq<char>) -> Seq<char> {
    if provider == "anthropic"@ {
        "ANTHROPIC_API_KEY"@
    } else if provider == "openai"@ {
        "OPENAI_API_KEY"@
    } else {
        "the appropriate API key"@
    }
}

/// The adapter for an agent: refused without an API key, then by provider.
pub fn from_config(config: &crate::config::AgentDefConfig) -> (r: Result<ProviderChoice, ProviderConfigError>)
    ensures
        match r {
            Ok(ProviderChoice::Anthropic { api_key, model, max_tokens }) => config.provider@
                == "anthropic"@ && config.api_key == Some(api_key) && model@ == config.model@
                && max_tokens == config.max_tokens,
            Ok(ProviderChoice::OpenAi { api_key, model, max_tokens }) => config.provider@
                == "openai"@ && config.api_key == Some(api_key) && model@ == config.model@
                && max_tokens == config.max_tokens,
            Err(ProviderConfigError::NoApiKey { provider, env_var }) => config.api_key is None
                && provider@ == config.provider@ && env_var@ == key_var(config.provider@),
            Err(ProviderConfigError::UnknownProvider(p)) => config.api_key is Some && p@
                == config.provider@ && config.provider@ != "anthropic"@ && config.provider@
                != "openai"@,
        },
{
    let p = config.provider.as_str();
    match &config.api_key {
        None => {
            let env_var = if str_eq(p, "anthropic") {
                "ANTHROPIC_API_KEY"
            } else if str_eq(p, "openai") {
                "OPENAI_API_KEY"
            } else {
                "the appropriate API key"
            };
            Err(ProviderConfigError::NoApiKey { provider: p.to_owned(), env_var: env_var.to_owned() })
        },
        Some(key) => {
            if str_eq(p, "anthropic") {
                Ok(ProviderChoice::Anthropic { api_key: key.clone(), model: config.model.clone(), max_tokens: config.max_tokens })
            } else if str_eq(p, "openai") {
                Ok(ProviderChoice::OpenAi { api_key: key.clone(), model: config.model.clone(), max_tokens: config.max_tokens })
            } else {
                Err(ProviderConfigError::UnknownProvider(p.to_owned()))
            }
        },
    }
}

/// The lines of a text, split at `\n` (the last one possibly empty).
pub open spec fn line_pieces(t: Seq<char>) -> Seq<Seq<char>>
    decreases t.len(),
{
    if t.len() == 0 {
        seq![Seq::empty()]
    } else {
        let prev = line_pieces(t.drop_last());
        if t.last() == '\n' {
            prev.push(Seq::empty())
        } else {
            prev.update(prev.len() - 1, prev.last().push(t.last()))
        }
    }
}

/// A line without its trailing `\r`.
pub open spec fn strip_cr(l: Seq<char>) -> Seq<char> {
    if l.len() > 0 && l.last() == '\r' {
        l.drop_last()
    } else {
        l
    }
}

/// The `event: ` and `data: ` values of a server-sent event block: the last line
/// with each prefix wins; absent ones are empty.
pub open spec fn sse_spec(lines: Seq<Seq<char>>) -> (Seq<char>, Seq<char>)
    decreases lines.len(),
{
    if lines.len() == 0 {
        (Seq::empty(), Seq::empty())
    } else {
        let (e, d) = sse_spec(lines.drop_last());
        let l = strip_cr(lines.last());
        if occurs_at(l, "event: "@, 0) {
            (l.subrange(7, l.len() as int), d)
        } else if occurs_at(l, "data: "@, 0) {
            (e, l.subrange(6, l.len() as int))
        } else {
            (e, d)
        }
    }
}

proof fn lemma_line_pieces_nonempty(t: Seq<char>)
    ensures
        line_pieces(t).len() >= 1,
    decreases t.len(),
{
    if t.len() > 0 {
        lemma_line_pieces_nonempty(t.drop_last());
    }
}

fn apply_line(line: &str, event: &mut String, data: &mut String)
    ensures
        ({
            let l = strip_cr(line@);
            if occurs_at(l, "event: "@, 0) {
                final(event)@ == l.subrange(7, l.len() as int) && final(data)@ == old(data)@
            } else if occurs_at(l, "data: "@, 0) {
                final(event)@ == old(event)@ && final(data)@ == l.subrange(6, l.len() as int)
            } else {
                final(event)@ == old(event)@ && final(data)@ == old(data)@
            }
        }),
{
    let n = line.unicode_len();
    let l = if n > 0 && line.get_char(n - 1) == '\r' {
        line.substring_char(0, n - 1)
    } else {
        line
    };
    proof {
        if n > 0 && line@.last() == '\r' {
            assert(line@.subrange(0, n - 1) =~= line@.drop_last());
        }
        reveal_strlit("event: ");
        reveal_strlit("data: ");
    }
    let m = l.unicode_len();
    if crate::text::occurs_at_exec(l, "event: ", 0) {
        *event = l.substring_char(7, m).to_owned();
    } else if crate::text::occurs_at_exec(l, "data: ", 0) {
        *data = l.substring_char(6, m).to_owned();
    }
}

/// The event type and data of a server-sent event block.
pub fn sse_fields(block: &str) -> (r: (String, String))
    ensures
        (r.0@, r.1@) == sse_spec(line_pieces(block@)),
{
    let n = block.unicode_len();
    let mut event = String::new();
    let mut data = String::new();
    let mut cur = String::new();
    let mut i: usize = 0;
    while i < n
        invariant
            n == block@.len(),
            i <= n,
            line_pieces(block@.subrange(0, i as int)).last() == cur@,
            (event@, data@) == sse_spec(line_pieces(block@.subrange(0, i as int)).drop_last()),
        decreases n - i,
    {
        let c = block.get_char(i);
        let ghost t = block@.subrange(0, i + 1);
        assert(t.drop_last() =~= block@.subrange(0, i as int));
        proof {
            lemma_line_pieces_nonempty(t.drop_last());
        }
        if c == '\n' {
            let ghost ps = line_pieces(t.drop_last());
            apply_line(cur.as_str(), &mut event, &mut data);
            cur = String::new();
            assert(line_pieces(t).drop_last() =~= ps);
            assert(ps.drop_last() =~= ps.subrange(0, ps.len() - 1));
        } else {
            let ghost ps = line_pieces(t.drop_last());
            push_char(&mut cur, c);
            assert(line_pieces(t).drop_last() =~= ps.drop_last());
        }
        i = i + 1;
    }
    assert(block@.subrange(0, n as int) =~= block@);
    proof {
        lemma_line_pieces_nonempty(block@);
    }
    let ghost ps = line_pieces(block@);
    apply_line(cur.as_str(), &mut event, &mut data);
    assert(ps.drop_last().push(ps.last()) =~= ps);
    (event, data)
}

/// Whether an Anthropic-style block carries data to act on: data that is neither
/// empty nor `[DONE]`.
pub fn has_event_data(data: &str) -> (r: bool)
    ensures
        r == (data@.len() > 0 && data@ != "[DONE]"@),
{
    data.unicode_len() > 0 && !str_eq(data, "[DONE]")
}

/// The data of an OpenAI-style block: the text after a leading `data: `.
pub fn openai_data(block: &str) -> (r: Option<&str>)
    ensures
        match r {
            Some(d) => occurs_at(block@, "data: "@, 0) && d@ == block@.subrange(6, block@.len() as int),
            None => !occurs_at(block@, "data: "@, 0),
        },
{
    proof {
        reveal_strlit("data: ");
    }
    if crate::text::occurs_at_exec(block, "data: ", 0) {
        Some(block.substring_char(6, block.unicode_len()))
    } else {
        None
    }
}

} // verus!
