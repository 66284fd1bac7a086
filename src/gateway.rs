//! The gateway's decisions: startup checks, connection authentication, RPC
//! responses, and the relay that turns a reply's events into client frames.
use vstd::prelude::*;
use vstd::string::*;
use subtle::ConstantTimeEq;
use crate::agent::{done_count, is_done};
use crate::text::{str_eq, u64_to_decimal, decimal};
use crate::types::{frame_spec, json_quote, json_quoted, StreamEvent};

verus! {

/// Whether the bind address is a loopback address.
pub open spec fn is_loopback(bind: Seq<char>) -> bool {
    bind == "127.0.0.1"@ || bind == "::1"@
}

/// Why the gateway refuses to start.
#[derive(Debug, Clone, PartialEq, Eq)]
pub enum StartupError {
    /// A non-loopback address was configured without an auth token.
    TokenRequired(String),
}

/// The message of a refused startup.
pub open spec fn startup_message(e: StartupError) -> Seq<char> {
    match e {
        StartupError::TokenRequired(bind) =>
            "Auth token required when binding to non-loopback address. Set EXOCLAW_TOKEN or bind to 127.0.0.1 (bind address: "@
            + bind@ + ")"@,
    }
}

impl StartupError {
    /// `Auth token required when binding to non-loopback address. …(bind address: <bind>)`.
    pub fn to_string(&self) -> (r: String)
        ensures
            r@ == startup_message(*self),
    {
        match self {
            StartupError::TokenRequired(bind) => {
                let mut r = "Auth token required when binding to non-loopback address. Set EXOCLAW_TOKEN or bind to 127.0.0.1 (bind address: ".to_owned();
                r.append(bind.as_str());
                r.append(")");
                r
            },
        }
    }
}

/// Startup is refused exactly when the address is not loopback and no token is set.
pub fn check_startup(bind: &str, token: &Option<String>) -> (r: Result<(), StartupError>)
    ensures
        r is Err <==> (!is_loopback(bind@) && token is None),
{
    let loopback = str_eq(bind, "127.0.0.1") || str_eq(bind, "::1");
    if !loopback && token.is_none() {
        Err(StartupError::TokenRequired(bind.to_owned()))
    } else {
        Ok(())
    }
}

/// The `token` field of a JSON object, when the text is JSON and the field is a string.
pub uninterp spec fn token_field_of(msg: Seq<char>) -> Option<Seq<char>>;

/// Relies on `serde_json::from_str` into a `Value`, `Value::get("token")` and the
/// `Value::String` variant: the string value of the `token` field, if any.
#[verifier::external_body]
fn token_field(msg: &str) -> (r: Option<String>)
    ensures
        match r {
            Some(t) => token_field_of(msg@) == Some(t@),
            None => token_field_of(msg@) is None,
        },
{
    match serde_json::from_str::<serde_json::Value>(msg) {
        Ok(v) => match v.get("token") {
            Some(serde_json::Value::String(t)) => Some(t.clone()),
            _ => None,
        },
        Err(_) => None,
    }
}

/// Compares two byte strings in time independent of their contents (for equal lengths).
/// Relies on `subtle::ConstantTimeEq` for slices: equal lengths and equal bytes.
#[verifier::external_body]
pub fn constant_time_eq(a: &[u8], b: &[u8]) -> (r: bool)
    ensures
        r == (a@ == b@),
{
    a.ct_eq(b).into()
}

/// Whether the first frame of a connection authenticates it: always with no token
/// configured; otherwise when the frame is a JSON object whose `token` equals it.
pub fn verify_connect(msg: &str, expected: &Option<String>) -> (r: bool)
    ensures
        r == match expected {
            None => true,
            Some(e) => token_field_of(msg@) == Some(e@),
        },
{
    match expected {
        None => true,
        Some(e) => match token_field(msg) {
            Some(t) => {
                let same = constant_time_eq(t.as_str().as_bytes(), e.as_str().as_bytes());
                proof {
                    vstd::utf8::encode_utf8_decode_utf8(t@);
                    vstd::utf8::encode_utf8_decode_utf8(e@);
                }
                same
            },
            None => false,
        },
    }
}

/// The methods a request may name.
#[derive(Debug, Clone, Copy, PartialEq, Eq)]
pub enum RpcMethod {
    Ping,
    Status,
    PluginList,
    ChatSend,
    Unknown,
}

/// The method a request names.
pub fn classify_method(method: &str) -> (r: RpcMethod)
    ensures
        r == (if method@ == "ping"@ {
            RpcMethod::Ping
        } else if method@ == "status"@ {
            RpcMethod::Status
        } else if method@ == "plugin.list"@ {
            RpcMethod::PluginList
        } else if method@ == "chat.send"@ {
            RpcMethod::ChatSend
        } else {
            RpcMethod::Unknown
        }),
{
    if str_eq(method, "ping") {
        RpcMethod::Ping
    } else if str_eq(method, "status") {
        RpcMethod::Status
    } else if str_eq(method, "plugin.list") {
        RpcMethod::PluginList
    } else if str_eq(method, "chat.send") {
        RpcMethod::ChatSend
    } else {
        RpcMethod::Unknown
    }
}

/// `{"id":…,"error":…}`.
pub open spec fn error_frame(id: Seq<char>, msg: Seq<char>) -> Seq<char> {
    "{\"id\":"@ + json_quoted(id) + ",\"error\":"@ + json_quoted(msg) + "}"@
}

/// An error response to request `id`.
pub fn error_response(id: &str, msg: &str) -> (r: String)
    ensures
        r@ == error_frame(id@, msg@),
{
    let mut r = "{\"id\":".to_owned();
    let q = json_quote(id);
    r.append(q.as_str());
    r.append(",\"error\":");
    let q = json_quote(msg);
    r.append(q.as_str());
    r.append("}");
    r
}

/// The response to a frame that is not a valid request: id `"0"` and
/// `parse error: <detail>`.
pub fn parse_error_response(detail: &str) -> (r: String)
    ensures
        r@ == error_frame("0"@, "parse error: "@ + detail@),
{
    let mut msg = "parse error: ".to_owned();
    msg.append(detail);
    error_response("0", msg.as_str())
}

/// The response to a request for a method that does not exist.
pub fn unknown_method_response(id: &str, method: &str) -> (r: String)
    ensures
        r@ == error_frame(id@, "unknown method: "@ + method@),
{
    let mut msg = "unknown method: ".to_owned();
    msg.append(method);
    error_response(id, msg.as_str())
}

/// `{"id":…,"result":"pong"}`.
pub fn pong_response(id: &str) -> (r: String)
    ensures
        r@ == "{\"id\":"@ + json_quoted(id@) + ",\"result\":\"pong\"}"@,
{
    let mut r = "{\"id\":".to_owned();
    let q = json_quote(id);
    r.append(q.as_str());
    r.append(",\"result\":\"pong\"}");
    r
}

/// `{"id":…,"result":{"version":…,"plugins":n,"sessions":n}}`.
pub fn status_response(id: &str, version: &str, plugins: u64, sessions: u64) -> (r: String)
    ensures
        r@ == "{\"id\":"@ + json_quoted(id@) + ",\"result\":{\"version\":"@ + json_quoted(version@)
            + ",\"plugins\":"@ + decimal(plugins as nat) + ",\"sessions\":"@ + decimal(
            sessions as nat,
        ) + "}}"@,
{
    let mut r = "{\"id\":".to_owned();
    let q = json_quote(id);
    r.append(q.as_str());
    r.append(",\"result\":{\"version\":");
    let q = json_quote(version);
    r.append(q.as_str());
    r.append(",\"plugins\":");
    let d = u64_to_decimal(plugins);
    r.append(d.as_str());
    r.append(",\"sessions\":");
    let d = u64_to_decimal(sessions);
    r.append(d.as_str());
    r.append("}}");
    r
}

/// The `{"error":"auth_failed","code":4001}` frame sent before closing a connection
/// whose first frame does not authenticate.
pub fn auth_failed_frame() -> (r: &'static str)
    ensures
        r@ == "{\"error\":\"auth_failed\",\"code\":4001}"@,
{
    "{\"error\":\"auth_failed\",\"code\":4001}"
}

/// The parameters of a `chat.send` request.
#[derive(Debug, Clone)]
pub struct ChatSendParams {
    pub channel: String,
    pub account: String,
    pub peer: String,
    pub content: String,
    pub guild: Option<String>,
    pub team: Option<String>,
}

/// The concatenation, in order, of the data of the text events.
pub open spec fn text_concat(evs: Seq<StreamEvent>) -> Seq<char>
    decreases evs.len(),
{
    if evs.len() == 0 {
        Seq::empty()
    } else {
        text_concat(evs.drop_last()) + match evs.last() {
            StreamEvent::Text(t) => t@,
            _ => Seq::empty(),
        }
    }
}

/// Relays one reply's events to the client as frames for one request id, and
/// collects the assistant's text. Nothing is relayed after `Done`.
pub struct TurnRelay {
    request_id: String,
    text: String,
    done: bool,
    relayed: Ghost<Seq<StreamEvent>>,
}

impl TurnRelay {
    pub closed spec fn id(&self) -> Seq<char> {
        self.request_id@
    }

    /// The events relayed so far.
    pub closed spec fn relayed(&self) -> Seq<StreamEvent> {
        self.relayed@
    }

    pub closed spec fn is_done(&self) -> bool {
        self.done
    }

    pub closed spec fn text_so_far(&self) -> Seq<char> {
        self.text@
    }

    /// The text is the concatenation of the relayed text events; at most one
    /// `Done` was relayed, and only as the last event.
    pub open spec fn wf(&self) -> bool {
        &&& self.text_so_far() == text_concat(self.relayed())
        &&& !self.is_done() ==> done_count(self.relayed()) == 0
        &&& self.is_done() ==> done_count(self.relayed()) == 1 && self.relayed().len() > 0
            && is_done(self.relayed().last())
    }

    pub fn new(request_id: &str) -> (r: Self)
        ensures
            r.wf(),
            r.id() == request_id@,
            r.relayed() == Seq::<StreamEvent>::empty(),
            !r.is_done(),
    {
        TurnRelay {
            request_id: request_id.to_owned(),
            text: String::new(),
            done: false,
            relayed: Ghost(Seq::empty()),
        }
    }

    /// The frame for one event, or nothing once `Done` has been relayed.
    pub fn on_event(&mut self, ev: &StreamEvent) -> (r: Option<String>)
        requires
            old(self).wf(),
        ensures
            final(self).wf(),
            final(self).id() == old(self).id(),
            old(self).is_done() ==> r is None && final(self).relayed() == old(self).relayed()
                && final(self).is_done(),
            !old(self).is_done() ==> {
                &&& match r {
                    Some(f) => f@ == frame_spec(*ev, old(self).id()),
                    None => false,
                }
                &&& final(self).relayed() == old(self).relayed().push(*ev)
                &&& final(self).is_done() == is_done(*ev)
            },
    {
        if self.done {
            return None;
        }
        let frame = ev.to_frame(self.request_id.as_str());
        let ghost before = self.relayed@;
        match ev {
            StreamEvent::Text(t) => {
                self.text.append(t.as_str());
            },
            StreamEvent::Done => {
                self.done = true;
            },
            _ => {},
        }
        self.relayed = Ghost(self.relayed@.push(*ev));
        assert(self.relayed@.drop_last() =~= before);
        assert(text_concat(self.relayed@) == text_concat(before) + match *ev {
            StreamEvent::Text(t) => t@,
            _ => Seq::<char>::empty(),
        });
        proof {
            if !(*ev is Text) {
                assert(text_concat(before) + Seq::<char>::empty() =~= text_concat(before));
            }
        }
        Some(frame)
    }

    /// Whether `Done` has been relayed.
    pub fn finished(&self) -> (r: bool)
        ensures
            r == self.is_done(),
    {
        self.done
    }

    /// The assistant text: the concatenation, in arrival order, of every text event relayed.
    pub fn assistant_text(&self) -> (r: String)
        requires
            self.wf(),
        ensures
            r@ == text_concat(self.relayed()),
    {
        self.text.clone()
    }
}

/// A request's client stream carries at most one `done`, and once it carries one
/// that `done` is its last frame; the assistant text is the concatenation of the
/// text events relayed, in order.
pub proof fn lemma_relay_ends_with_one_done(r: TurnRelay)
    requires
        r.wf(),
    ensures
        done_count(r.relayed()) <= 1,
        r.is_done() <==> done_count(r.relayed()) == 1,
        r.is_done() ==> is_done(r.relayed().last()),
        r.text_so_far() == text_concat(r.relayed()),
{
}

} // verus!
