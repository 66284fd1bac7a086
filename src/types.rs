//! Messages, normalized channel input, and the streaming events sent to clients.
//!
//! Tool inputs travel as JSON text: the gateway never looks inside them.
use vstd::prelude::*;
use vstd::string::*;
use crate::text::{decimal, u64_to_decimal};

verus! {

/// A lower-case hexadecimal digit.
pub open spec fn hex_digit(d: nat) -> char {
    if d < 10 {
        ('0' as u32 + d) as char
    } else {
        ('a' as u32 + d - 10) as char
    }
}

/// How one character appears inside a JSON string: `"` and `\` escaped, the
/// short escapes for backspace, tab, line feed, form feed and carriage return,
/// `\u00XX` for the other control characters below 0x20, and every other
/// character as itself.
pub open spec fn escape_char(c: char) -> Seq<char> {
    if c == '"' {
        seq!['\\', '"']
    } else if c == '\\' {
        seq!['\\', '\\']
    } else if c == '\u{8}' {
        seq!['\\', 'b']
    } else if c == '\t' {
        seq!['\\', 't']
    } else if c == '\n' {
        seq!['\\', 'n']
    } else if c == '\u{c}' {
        seq!['\\', 'f']
    } else if c == '\r' {
        seq!['\\', 'r']
    } else if (c as u32) < 0x20 {
        seq!['\\', 'u', '0', '0', hex_digit((c as u32 / 16) as nat), hex_digit((c as u32 % 16) as nat)]
    } else {
        seq![c]
    }
}

/// The characters of `s`, each escaped.
pub open spec fn escaped(s: Seq<char>) -> Seq<char>
    decreases s.len(),
{
    if s.len() == 0 {
        Seq::empty()
    } else {
        escaped(s.drop_last()) + escape_char(s.last())
    }
}

/// `s` as a JSON string literal: quoted, each character escaped.
pub open spec fn json_quoted(s: Seq<char>) -> Seq<char> {
    seq!['"'] + escaped(s) + seq!['"']
}

/// Relies on `serde_json::to_string` on a `&str`: serde_json writes `"`, each
/// character through its escape table (`ESCAPE` and `write_char_escape` in its
/// `ser.rs`), and `"`; serializing a string does not fail.
#[verifier::external_body]
pub(crate) fn json_quote(s: &str) -> (r: String)
    ensures
        r@ == json_quoted(s@),
{
    match serde_json::to_string(s) {
        Ok(t) => t,
        Err(_) => String::new(),
    }
}

/// A message of a conversation.
#[derive(Debug, Clone)]
pub struct Message {
    pub role: String,
    pub content: MessageContent,
    /// Seconds since the epoch.
    pub timestamp: i64,
    pub token_count: Option<u32>,
}

/// Plain text, a tool-use request, or a tool result.
#[derive(Debug, Clone)]
pub enum MessageContent {
    Text { text: String },
    /// `input` is JSON text.
    ToolUse { id: String, name: String, input: String },
    ToolResult { tool_use_id: String, content: String, is_error: bool },
}

pub open spec fn bool_text(b: bool) -> Seq<char> {
    if b {
        "true"@
    } else {
        "false"@
    }
}

fn bool_json(b: bool) -> (r: &'static str)
    ensures
        r@ == bool_text(b),
{
    if b {
        "true"
    } else {
        "false"
    }
}

/// The provider-facing JSON of a message.
pub open spec fn provider_json(m: Message) -> Seq<char> {
    match m.content {
        MessageContent::Text { text } => "{\"role\":"@ + json_quoted(m.role@) + ",\"content\":"@
            + json_quoted(text@) + "}"@,
        MessageContent::ToolUse { id, name, input } => "{\"role\":\"assistant\",\"content\":["@
            + tool_use_block(id@, name@, input@) + "]}"@,
        MessageContent::ToolResult { tool_use_id, content, is_error } =>
            "{\"role\":\"user\",\"content\":["@ + tool_result_block(
            tool_use_id@,
            content@,
            is_error,
        ) + "]}"@,
    }
}

/// `{"type":"tool_use","id":…,"name":…,"input":…}`.
pub open spec fn tool_use_block(id: Seq<char>, name: Seq<char>, input: Seq<char>) -> Seq<char> {
    "{\"type\":\"tool_use\",\"id\":"@ + json_quoted(id) + ",\"name\":"@ + json_quoted(name)
        + ",\"input\":"@ + input + "}"@
}

/// `{"type":"tool_result","tool_use_id":…,"content":…,"is_error":…}`.
pub open spec fn tool_result_block(id: Seq<char>, content: Seq<char>, is_error: bool) -> Seq<
    char,
> {
    "{\"type\":\"tool_result\",\"tool_use_id\":"@ + json_quoted(id) + ",\"content\":"@
        + json_quoted(content) + ",\"is_error\":"@ + bool_text(is_error) + "}"@
}

pub fn tool_use_block_json(id: &str, name: &str, input: &str) -> (r: String)
    ensures
        r@ == tool_use_block(id@, name@, input@),
{
    let mut r = "{\"type\":\"tool_use\",\"id\":".to_owned();
    let q = json_quote(id);
    r.append(q.as_str());
    r.append(",\"name\":");
    let q = json_quote(name);
    r.append(q.as_str());
    r.append(",\"input\":");
    r.append(input);
    r.append("}");
    r
}

pub fn tool_result_block_json(id: &str, content: &str, is_error: bool) -> (r: String)
    ensures
        r@ == tool_result_block(id@, content@, is_error),
{
    let mut r = "{\"type\":\"tool_result\",\"tool_use_id\":".to_owned();
    let q = json_quote(id);
    r.append(q.as_str());
    r.append(",\"content\":");
    let q = json_quote(content);
    r.append(q.as_str());
    r.append(",\"is_error\":");
    r.append(bool_json(is_error));
    r.append("}");
    r
}

impl MessageContent {
    /// An equal copy.
    pub fn duplicate(&self) -> (r: Self)
        ensures
            r == *self,
    {
        match self {
            MessageContent::Text { text } => MessageContent::Text { text: text.clone() },
            MessageContent::ToolUse { id, name, input } => MessageContent::ToolUse {
                id: id.clone(),
                name: name.clone(),
                input: input.clone(),
            },
            MessageContent::ToolResult { tool_use_id, content, is_error } =>
                MessageContent::ToolResult {
                tool_use_id: tool_use_id.clone(),
                content: content.clone(),
                is_error: *is_error,
            },
        }
    }
}

impl Message {
    /// An equal copy.
    pub fn duplicate(&self) -> (r: Self)
        ensures
            r == *self,
    {
        Message {
            role: self.role.clone(),
            content: self.content.duplicate(),
            timestamp: self.timestamp,
            token_count: self.token_count,
        }
    }

    /// A text message stamped `timestamp`, with no token estimate.
    pub fn text_at(role: &str, text: &str, timestamp: i64) -> (r: Self)
        ensures
            r.role@ == role@,
            r.content matches MessageContent::Text { text: t } && t@ == text@,
            r.timestamp == timestamp,
            r.token_count is None,
    {
        Message {
            role: role.to_owned(),
            content: MessageContent::Text { text: text.to_owned() },
            timestamp,
            token_count: None,
        }
    }

    /// A text message stamped now, with no token estimate.
    pub fn text(role: &str, text: &str) -> (r: Self)
        ensures
            r.role@ == role@,
            r.content matches MessageContent::Text { text: t } && t@ == text@,
            r.token_count is None,
    {
        Self::text_at(role, text, crate::metering::now_secs())
    }

    /// The message as the JSON a provider takes.
    pub fn as_provider_message(&self) -> (r: Option<String>)
        ensures
            r matches Some(j) && j@ == provider_json(*self),
    {
        match &self.content {
            MessageContent::Text { text } => {
                let mut r = "{\"role\":".to_owned();
                let q = json_quote(self.role.as_str());
                r.append(q.as_str());
                r.append(",\"content\":");
                let q = json_quote(text.as_str());
                r.append(q.as_str());
                r.append("}");
                Some(r)
            },
            MessageContent::ToolUse { id, name, input } => {
                let mut r = "{\"role\":\"assistant\",\"content\":[".to_owned();
                let b = tool_use_block_json(id.as_str(), name.as_str(), input.as_str());
                r.append(b.as_str());
                r.append("]}");
                Some(r)
            },
            MessageContent::ToolResult { tool_use_id, content, is_error } => {
                let mut r = "{\"role\":\"user\",\"content\":[".to_owned();
                let b = tool_result_block_json(tool_use_id.as_str(), content.as_str(), *is_error);
                r.append(b.as_str());
                r.append("]}");
                Some(r)
            },
        }
    }
}

/// A message from any channel, normalized.
#[derive(Debug, Clone)]
pub struct AgentMessage {
    pub channel: String,
    pub account: String,
    pub peer: String,
    pub content: String,
    pub guild: Option<String>,
    pub team: Option<String>,
}

/// The peer used when a channel names none.
pub fn default_peer() -> (r: String)
    ensures
        r@ == "main"@,
{
    "main".to_owned()
}

/// One event of a streamed reply.
#[derive(Debug, Clone)]
pub enum StreamEvent {
    Text(String),
    /// `input` is JSON text.
    ToolUse { id: String, name: String, input: String },
    ToolResult { tool_use_id: String, content: String, is_error: bool },
    Usage { input_tokens: u32, output_tokens: u32 },
    Done,
    Error(String),
}

/// The wire frame of an event for request `id`.
pub open spec fn frame_spec(e: StreamEvent, id: Seq<char>) -> Seq<char> {
    let head = "{\"id\":"@ + json_quoted(id) + ",\"event\":"@;
    match e {
        StreamEvent::Text(d) => head + "\"text\",\"data\":"@ + json_quoted(d@) + "}"@,
        StreamEvent::ToolUse { id: call, name, input } => head + "\"tool_use\",\"data\":{\"id\":"@
            + json_quoted(call@) + ",\"name\":"@ + json_quoted(name@) + ",\"input\":"@ + input@
            + "}}"@,
        StreamEvent::ToolResult { tool_use_id, content, is_error } => head
            + "\"tool_result\",\"data\":{\"tool_use_id\":"@ + json_quoted(tool_use_id@)
            + ",\"content\":"@ + json_quoted(content@) + ",\"is_error\":"@ + bool_text(is_error)
            + "}}"@,
        StreamEvent::Usage { input_tokens, output_tokens } => head
            + "\"usage\",\"data\":{\"input_tokens\":"@ + decimal(input_tokens as nat)
            + ",\"output_tokens\":"@ + decimal(output_tokens as nat) + "}}"@,
        StreamEvent::Done => head + "\"done\"}"@,
        StreamEvent::Error(d) => head + "\"error\",\"data\":"@ + json_quoted(d@) + "}"@,
    }
}

impl StreamEvent {
    /// The name of the event's kind on the wire.
    pub fn kind(&self) -> (r: &'static str)
        ensures
            r@ == match *self {
                StreamEvent::Text(_) => "text"@,
                StreamEvent::ToolUse { .. } => "tool_use"@,
                StreamEvent::ToolResult { .. } => "tool_result"@,
                StreamEvent::Usage { .. } => "usage"@,
                StreamEvent::Done => "done"@,
                StreamEvent::Error(_) => "error"@,
            },
    {
        match self {
            StreamEvent::Text(_) => "text",
            StreamEvent::ToolUse { .. } => "tool_use",
            StreamEvent::ToolResult { .. } => "tool_result",
            StreamEvent::Usage { .. } => "usage",
            StreamEvent::Done => "done",
            StreamEvent::Error(_) => "error",
        }
    }

    /// The JSON wire frame of this event for request `request_id`.
    pub fn to_frame(&self, request_id: &str) -> (r: String)
        ensures
            r@ == frame_spec(*self, request_id@),
    {
        let mut r = "{\"id\":".to_owned();
        let q = json_quote(request_id);
        r.append(q.as_str());
        r.append(",\"event\":");
        match self {
            StreamEvent::Text(d) => {
                r.append("\"text\",\"data\":");
                let q = json_quote(d.as_str());
                r.append(q.as_str());
                r.append("}");
            },
            StreamEvent::ToolUse { id, name, input } => {
                r.append("\"tool_use\",\"data\":{\"id\":");
                let q = json_quote(id.as_str());
                r.append(q.as_str());
                r.append(",\"name\":");
                let q = json_quote(name.as_str());
                r.append(q.as_str());
                r.append(",\"input\":");
                r.append(input.as_str());
                r.append("}}");
            },
            StreamEvent::ToolResult { tool_use_id, content, is_error } => {
                r.append("\"tool_result\",\"data\":{\"tool_use_id\":");
                let q = json_quote(tool_use_id.as_str());
                r.append(q.as_str());
                r.append(",\"content\":");
                let q = json_quote(content.as_str());
                r.append(q.as_str());
                r.append(",\"is_error\":");
                r.append(bool_json(*is_error));
                r.append("}}");
            },
            StreamEvent::Usage { input_tokens, output_tokens } => {
                r.append("\"usage\",\"data\":{\"input_tokens\":");
                let d = u64_to_decimal(*input_tokens as u64);
                r.append(d.as_str());
                r.append(",\"output_tokens\":");
                let d = u64_to_decimal(*output_tokens as u64);
                r.append(d.as_str());
                r.append("}}");
            },
            StreamEvent::Done => {
                r.append("\"done\"}");
            },
            StreamEvent::Error(d) => {
                r.append("\"error\",\"data\":");
                let q = json_quote(d.as_str());
                r.append(q.as_str());
                r.append("}");
            },
        }
        r
    }
}

} // verus!
