//! The webhook pipeline's decisions. The caller runs the channel adapter's
//! `parse_incoming` and `format_outgoing`, the chat turn and the proxied POST;
//! each step here decides what follows from what came back, and which status
//! and body the request gets.
use vstd::prelude::*;
use vstd::string::*;
use crate::gateway::ChatSendParams;
use crate::sandbox::{check_proxy_url, denied_text, url_host_of};
use crate::capabilities::texts;
use crate::types::{json_quote, json_quoted, StreamEvent};

verus! {

/// The parse error of a text that is not JSON; `None` for JSON.
pub uninterp spec fn json_parse_error_of(text: Seq<char>) -> Option<Seq<char>>;

/// Relies on `serde_json::from_str` into a `Value`: the error's `Display` text when
/// the text is not JSON.
#[verifier::external_body]
fn json_parse_error(text: &str) -> (r: Option<String>)
    ensures
        match r {
            Some(e) => json_parse_error_of(text@) == Some(e@),
            None => json_parse_error_of(text@) is None,
        },
{
    match serde_json::from_str::<serde_json::Value>(text) {
        Ok(_) => None,
        Err(e) => Some(e.to_string()),
    }
}

/// The string value of a top-level field of a JSON text, if it has one.
pub uninterp spec fn json_str_field_of(text: Seq<char>, key: Seq<char>) -> Option<Seq<char>>;

/// Relies on `serde_json::from_str` into a `Value`, `Value::get` and the
/// `Value::String` variant: the field's string value; `None` when the text is not
/// JSON, the field is missing, or it is not a string.
#[verifier::external_body]
fn json_str_field(text: &str, key: &str) -> (r: Option<String>)
    ensures
        match r {
            Some(v) => json_str_field_of(text@, key@) == Some(v@),
            None => json_str_field_of(text@, key@) is None,
        },
{
    match serde_json::from_str::<serde_json::Value>(text) {
        Ok(v) => match v.get(key) {
            Some(serde_json::Value::String(s)) => Some(s.clone()),
            _ => None,
        },
        Err(_) => None,
    }
}

/// The JSON text of a top-level field of a JSON text, whatever its type.
pub uninterp spec fn json_field_text_of(text: Seq<char>, key: Seq<char>) -> Option<Seq<char>>;

/// Relies on `serde_json::from_str` into a `Value`, `Value::get` and
/// `serde_json::to_string` of the field's value.
#[verifier::external_body]
fn json_field_text(text: &str, key: &str) -> (r: Option<String>)
    ensures
        match r {
            Some(v) => json_field_text_of(text@, key@) == Some(v@),
            None => json_field_text_of(text@, key@) is None,
        },
{
    match serde_json::from_str::<serde_json::Value>(text) {
        Ok(v) => match v.get(key) {
            Some(x) => serde_json::to_string(x).ok(),
            None => None,
        },
        Err(_) => None,
    }
}

/// The status and body a webhook request gets.
#[derive(Debug, Clone, PartialEq, Eq)]
pub struct WebhookResponse {
    pub status: u16,
    pub body: String,
}

pub open spec fn responds(r: WebhookResponse, status: u16, body: Seq<char>) -> bool {
    r.status == status && r.body@ == body
}

/// 404: no channel adapter has the channel's name.
pub fn no_adapter_response(channel: &str) -> (r: WebhookResponse)
    ensures
        responds(r, 404, "no channel adapter for '"@ + channel@ + "'"@),
{
    let mut body = "no channel adapter for '".to_owned();
    body.append(channel);
    body.append("'");
    WebhookResponse { status: 404, body }
}

/// 400: the adapter's `parse_incoming` could not be run.
pub fn parse_failed_response(detail: &str) -> (r: WebhookResponse)
    ensures
        responds(r, 400, "parse_incoming failed: "@ + detail@),
{
    let mut body = "parse_incoming failed: ".to_owned();
    body.append(detail);
    WebhookResponse { status: 400, body }
}

/// 500: the provider could not be called.
pub fn provider_failed_response(detail: &str) -> (r: WebhookResponse)
    ensures
        responds(r, 500, "provider error: "@ + detail@),
{
    let mut body = "provider error: ".to_owned();
    body.append(detail);
    WebhookResponse { status: 500, body }
}

/// 500: the turn was refused before the provider was called (the budget).
pub fn turn_refused_response(message: &str) -> (r: WebhookResponse)
    ensures
        responds(r, 500, message@),
{
    WebhookResponse { status: 500, body: message.to_owned() }
}

/// The chat parameters a webhook's normalized payload asks for.
pub open spec fn params_spec(channel: Seq<char>, p: ChatSendParams, incoming: Seq<char>) -> bool {
    &&& p.channel@ == channel
    &&& Some(p.content@) == json_str_field_of(incoming, "content"@)
    &&& p.account@ == match json_str_field_of(incoming, "account"@) {
        Some(a) => a,
        None => "webhook"@,
    }
    &&& p.peer@ == match json_str_field_of(incoming, "peer"@) {
        Some(a) => a,
        None => "main"@,
    }
    &&& crate::router::opt_text(p.guild) == json_str_field_of(incoming, "guild"@)
    &&& crate::router::opt_text(p.team) == json_str_field_of(incoming, "team"@)
}

/// Reads the output of `parse_incoming`: 400 when it is not JSON, or when its
/// `content` is missing or empty; otherwise the chat parameters, with account
/// `webhook` and peer `main` when absent.
pub fn webhook_params(channel: &str, incoming: &str) -> (r: Result<ChatSendParams, WebhookResponse>)
    ensures
        match json_parse_error_of(incoming@) {
            Some(e) => r matches Err(resp) && responds(
                resp,
                400,
                "parse_incoming failed: "@ + "channel adapter returned invalid JSON: "@ + e,
            ),
            None => match json_str_field_of(incoming@, "content"@) {
                Some(c) if c.len() > 0 => r matches Ok(p) && params_spec(channel@, p, incoming@),
                _ => r matches Err(resp) && responds(resp, 400, "empty message content"@),
            },
        },
{
    if let Some(e) = json_parse_error(incoming) {
        let mut d = "channel adapter returned invalid JSON: ".to_owned();
        d.append(e.as_str());
        let resp = parse_failed_response(d.as_str());
        assert(resp.body@ =~= "parse_incoming failed: "@ + "channel adapter returned invalid JSON: "@
            + e@);
        return Err(resp);
    }
    let content = match json_str_field(incoming, "content") {
        Some(c) => c,
        None => String::new(),
    };
    if content.as_str().unicode_len() == 0 {
        return Err(WebhookResponse { status: 400, body: "empty message content".to_owned() });
    }
    let account = match json_str_field(incoming, "account") {
        Some(a) => a,
        None => "webhook".to_owned(),
    };
    let peer = match json_str_field(incoming, "peer") {
        Some(a) => a,
        None => "main".to_owned(),
    };
    Ok(
        ChatSendParams {
            channel: channel.to_owned(),
            account,
            peer,
            content,
            guild: json_str_field(incoming, "guild"),
            team: json_str_field(incoming, "team"),
        },
    )
}

/// Collects a reply's text; an error event ends it with 500.
pub struct ReplyCollector {
    pub text: String,
    pub failure: Option<String>,
    pub done: bool,
}

impl ReplyCollector {
    pub fn new() -> (r: Self)
        ensures
            r.text@.len() == 0,
            r.failure is None,
            !r.done,
    {
        ReplyCollector { text: String::new(), failure: None, done: false }
    }

    /// One event of the reply: text is appended; `Done` ends the reply; an error
    /// ends it with `agent error: <message>`; other events change nothing.
    pub fn on_event(&mut self, ev: &StreamEvent)
        requires
            !old(self).done,
        ensures
            match *ev {
                StreamEvent::Text(t) => final(self).text@ == old(self).text@ + t@ && !final(self).done
                    && final(self).failure == old(self).failure,
                StreamEvent::Done => final(self).done && final(self).text == old(self).text
                    && final(self).failure == old(self).failure,
                StreamEvent::Error(e) => final(self).done && final(self).text == old(self).text
                    && match final(self).failure {
                    Some(f) => f@ == "agent error: "@ + e@,
                    None => false,
                },
                _ => *final(self) == *old(self),
            },
    {
        match ev {
            StreamEvent::Text(t) => self.text.append(t.as_str()),
            StreamEvent::Done => self.done = true,
            StreamEvent::Error(e) => {
                let mut f = "agent error: ".to_owned();
                f.append(e.as_str());
                self.failure = Some(f);
                self.done = true;
            },
            _ => {},
        }
    }

    /// The collected text, or the 500 response of a failed reply.
    pub fn result(&self) -> (r: Result<String, WebhookResponse>)
        ensures
            match self.failure {
                Some(f) => r matches Err(resp) && resp.status == 500 && resp.body@ == f@,
                None => r matches Ok(t) && t@ == self.text@,
            },
    {
        match &self.failure {
            Some(f) => Err(WebhookResponse { status: 500, body: f.clone() }),
            None => Ok(self.text.clone()),
        }
    }
}

/// What follows the format step.
pub enum WebhookStep {
    /// Answer the request with this.
    Respond(WebhookResponse),
    /// POST `body` (JSON text) to `url`, then answer with the outcome.
    Proxy { url: String, body: String },
}

/// The body posted to a proxy URL: the formatted payload's `body`, or `{"text":…}`.
pub open spec fn proxy_body(formatted: Seq<char>, text: Seq<char>) -> Seq<char> {
    match json_field_text_of(formatted, "body"@) {
        Some(b) => b,
        None => "{\"text\":"@ + json_quoted(text) + "}"@,
    }
}

/// After `format_outgoing`: when it failed, 200 with the reply text; when its output
/// names no `url`, 200 with that output; when it names a `url` whose host is allowed
/// for the adapter, a proxied POST; otherwise 403.
pub fn after_format(text: &str, formatted: Option<&str>, allowed: &Vec<String>, adapter: &str) -> (r:
    WebhookStep)
    ensures
        match formatted {
            None => r matches WebhookStep::Respond(resp) && responds(resp, 200, text@),
            Some(f) => match json_str_field_of(f@, "url"@) {
                None => r matches WebhookStep::Respond(resp) && responds(resp, 200, f@),
                Some(u) => if url_host_of(u) is Some && texts(allowed@).contains(
                    url_host_of(u)->0,
                ) {
                    r matches WebhookStep::Proxy { url, body } && url@ == u && body@ == proxy_body(
                        f@,
                        text@,
                    )
                } else {
                    r matches WebhookStep::Respond(resp) && responds(
                        resp,
                        403,
                        denied_text(url_host_of(u), adapter@),
                    )
                },
            },
        },
{
    match formatted {
        None => WebhookStep::Respond(WebhookResponse { status: 200, body: text.to_owned() }),
        Some(f) => match json_str_field(f, "url") {
            None => WebhookStep::Respond(WebhookResponse { status: 200, body: f.to_owned() }),
            Some(u) => match check_proxy_url(u.as_str(), allowed, adapter) {
                Ok(()) => {
                    let body = match json_field_text(f, "body") {
                        Some(b) => b,
                        None => {
                            let mut b = "{\"text\":".to_owned();
                            let q = json_quote(text);
                            b.append(q.as_str());
                            b.append("}");
                            b
                        },
                    };
                    WebhookStep::Proxy { url: u, body }
                },
                Err(d) => {
                    let body = d.to_string();
                    WebhookStep::Respond(WebhookResponse { status: 403, body })
                },
            },
        },
    }
}

/// After the proxied POST: 200 with the upstream body, or 502.
pub fn after_proxy(result: Result<String, String>) -> (r: WebhookResponse)
    ensures
        match result {
            Ok(b) => responds(r, 200, b@),
            Err(e) => responds(r, 502, "proxy call failed: "@ + e@),
        },
{
    match result {
        Ok(b) => WebhookResponse { status: 200, body: b },
        Err(e) => {
            let mut body = "proxy call failed: ".to_owned();
            body.append(e.as_str());
            WebhookResponse { status: 502, body }
        },
    }
}

} // verus!
