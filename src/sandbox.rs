//! The plugin host's records and decisions: which plugins are registered, of what
//! kind, with what grants; how a module's output becomes a tool result; and whether
//! an outbound proxy call is allowed. Instantiating and calling the sandboxed modules
//! is the caller's part.
use vstd::prelude::*;
use vstd::string::*;
use crate::agent::ToolCallResult;
use crate::capabilities::{allowed_hosts as hosts_of, http_hosts, texts, views, Capability};
use crate::text::str_eq;

verus! {

/// What a plugin is for.
#[derive(Debug, Clone, Copy, PartialEq, Eq, Structural)]
pub enum PluginType {
    Tool,
    ChannelAdapter,
}

/// A plugin as listed to clients.
#[derive(Debug, Clone)]
pub struct PluginInfo {
    pub name: String,
}

/// A registered plugin: its name, kind, grants and (for tools) JSON schema text.
pub struct PluginEntry {
    pub name: String,
    pub plugin_type: PluginType,
    pub capabilities: Vec<Capability>,
    pub tool_schema: Option<String>,
}

/// The `content` and `is_error` fields of a module's output, when it is JSON.
pub uninterp spec fn tool_output_of(raw: Seq<char>) -> Option<(Option<Seq<char>>, Option<bool>)>;

/// Relies on `serde_json::from_str` into a `Value` and `Value::get`: `None` when the
/// text is not JSON; otherwise the `content` field when it is a string and the
/// `is_error` field when it is a boolean.
#[verifier::external_body]
fn tool_output_fields(raw: &str) -> (r: Option<(Option<String>, Option<bool>)>)
    ensures
        tool_output_of(raw@) == match r {
            Some((c, e)) => Some(
                (
                    match c {
                        Some(s) => Some(s@),
                        None => None::<Seq<char>>,
                    },
                    e,
                ),
            ),
            None => None,
        },
{
    match serde_json::from_str::<serde_json::Value>(raw) {
        Ok(v) => {
            let content = match v.get("content") {
                Some(serde_json::Value::String(s)) => Some(s.clone()),
                _ => None,
            };
            let is_error = match v.get("is_error") {
                Some(serde_json::Value::Bool(b)) => Some(*b),
                _ => None,
            };
            Some((content, is_error))
        },
        Err(_) => None,
    }
}

/// How a module's output becomes a tool result: from JSON, its `content` (the whole
/// output when that is missing or empty) and its `is_error` (false when missing);
/// from anything else, the whole output, not an error.
pub open spec fn tool_result_spec(raw: Seq<char>) -> (Seq<char>, bool) {
    match tool_output_of(raw) {
        Some((c, e)) => {
            let content = match c {
                Some(s) => s,
                None => Seq::empty(),
            };
            let is_error = match e {
                Some(b) => b,
                None => false,
            };
            (if content.len() == 0 {
                raw
            } else {
                content
            }, is_error)
        },
        None => (raw, false),
    }
}

/// The tool result for a module's output text.
pub fn interpret_tool_output(raw: &str) -> (r: ToolCallResult)
    ensures
        (r.content@, r.is_error) == tool_result_spec(raw@),
{
    match tool_output_fields(raw) {
        Some((c, e)) => {
            let is_error = match e {
                Some(b) => b,
                None => false,
            };
            let content = match c {
                Some(s) => s,
                None => String::new(),
            };
            if content.as_str().unicode_len() == 0 {
                ToolCallResult { content: raw.to_owned(), is_error }
            } else {
                ToolCallResult { content, is_error }
            }
        },
        None => ToolCallResult { content: raw.to_owned(), is_error: false },
    }
}

/// The tool result when a module could not be run.
pub fn failed_tool_call(detail: &str) -> (r: ToolCallResult)
    ensures
        r.content@ == "tool execution failed: "@ + detail@,
        r.is_error,
{
    let mut content = "tool execution failed: ".to_owned();
    content.append(detail);
    ToolCallResult { content, is_error: true }
}

/// The `type` and `plugin_type` fields of a `describe` output, when it is JSON.
pub uninterp spec fn describe_of(out: Seq<char>) -> Option<(Option<Seq<char>>, Option<Seq<char>>)>;

/// Relies on `serde_json::from_str` into a `Value` and `Value::get`: `None` when the
/// text is not JSON; otherwise the `type` and `plugin_type` fields that are strings.
#[verifier::external_body]
fn describe_fields(out: &str) -> (r: Option<(Option<String>, Option<String>)>)
    ensures
        describe_of(out@) == match r {
            Some((a, b)) => Some(
                (
                    match a {
                        Some(s) => Some(s@),
                        None => None::<Seq<char>>,
                    },
                    match b {
                        Some(s) => Some(s@),
                        None => None::<Seq<char>>,
                    },
                ),
            ),
            None => None,
        },
{
    match serde_json::from_str::<serde_json::Value>(out) {
        Ok(v) => {
            let t = match v.get("type") {
                Some(serde_json::Value::String(s)) => Some(s.clone()),
                _ => None,
            };
            let p = match v.get("plugin_type") {
                Some(serde_json::Value::String(s)) => Some(s.clone()),
                _ => None,
            };
            Some((t, p))
        },
        Err(_) => None,
    }
}

/// A plugin's kind from what probing it gave: a JSON `describe` output decides
/// (channel adapter when its `type`, or else its `plugin_type`, is
/// `channel_adapter`; otherwise a tool whose schema is that output); without one,
/// a working `parse_incoming` or `format_outgoing` makes a channel adapter, and
/// anything else is a tool.
pub open spec fn kind_spec(
    describe: Option<Seq<char>>,
    parse_ok: bool,
    format_ok: bool,
) -> (PluginType, Option<Seq<char>>) {
    let described = match describe {
        Some(out) => describe_of(out),
        None => None,
    };
    match described {
        Some((t, p)) => {
            let declared = if t is Some {
                t
            } else {
                p
            };
            if declared == Some("channel_adapter"@) {
                (PluginType::ChannelAdapter, None)
            } else {
                (PluginType::Tool, Some(describe->0))
            }
        },
        None => if parse_ok || format_ok {
            (PluginType::ChannelAdapter, None)
        } else {
            (PluginType::Tool, None)
        },
    }
}

/// Decides a plugin's kind and schema from its probe results.
pub fn detect_plugin_type(describe: Option<&str>, parse_ok: bool, format_ok: bool) -> (r: (
    PluginType,
    Option<String>,
))
    ensures
        (r.0, match r.1 {
            Some(s) => Some(s@),
            None => None::<Seq<char>>,
        }) == kind_spec(
            match describe {
                Some(d) => Some(d@),
                None => None::<Seq<char>>,
            },
            parse_ok,
            format_ok,
        ),
{
    let described = match describe {
        Some(out) => describe_fields(out),
        None => None,
    };
    match described {
        Some((t, p)) => {
            let declared = match t {
                Some(x) => Some(x),
                None => p,
            };
            let adapter = match &declared {
                Some(d) => str_eq(d.as_str(), "channel_adapter"),
                None => false,
            };
            if adapter {
                (PluginType::ChannelAdapter, None)
            } else {
                match describe {
                    Some(out) => (PluginType::Tool, Some(out.to_owned())),
                    None => (PluginType::Tool, None),
                }
            }
        },
        None => if parse_ok || format_ok {
            (PluginType::ChannelAdapter, None)
        } else {
            (PluginType::Tool, None)
        },
    }
}

/// The host part of a URL.
pub uninterp spec fn url_host_of(url: Seq<char>) -> Option<Seq<char>>;

/// Relies on `url::Url::parse` and `Url::host_str`: the host of a parseable URL.
#[verifier::external_body]
fn url_host(url: &str) -> (r: Option<String>)
    ensures
        match r {
            Some(h) => url_host_of(url@) == Some(h@),
            None => url_host_of(url@) is None,
        },
{
    match url::Url::parse(url) {
        Ok(u) => match u.host_str() {
            Some(h) => Some(h.to_owned()),
            None => None,
        },
        Err(_) => None,
    }
}

/// Why an outbound proxy call was refused: the URL's host (if it has one) is not
/// allowed for the adapter.
#[derive(Debug, Clone, PartialEq, Eq)]
pub struct ProxyDenied {
    pub host: Option<String>,
    pub adapter: String,
}

/// `proxy denied: <host or unknown> not in allowed_hosts for adapter '<adapter>'`.
pub open spec fn proxy_denied_message(d: ProxyDenied) -> Seq<char> {
    denied_text(
        match d.host {
            Some(h) => Some(h@),
            None => None,
        },
        d.adapter@,
    )
}

/// `proxy denied: <host or unknown> not in allowed_hosts for adapter '<adapter>'`.
pub open spec fn denied_text(host: Option<Seq<char>>, adapter: Seq<char>) -> Seq<char> {
    "proxy denied: "@ + match host {
        Some(h) => h,
        None => "unknown"@,
    } + " not in allowed_hosts for adapter '"@ + adapter + "'"@
}

impl ProxyDenied {
    /// The message of a refused proxy call.
    pub fn to_string(&self) -> (r: String)
        ensures
            r@ == proxy_denied_message(*self),
    {
        let mut r = "proxy denied: ".to_owned();
        match &self.host {
            Some(h) => r.append(h.as_str()),
            None => r.append("unknown"),
        }
        r.append(" not in allowed_hosts for adapter '");
        r.append(self.adapter.as_str());
        r.append("'");
        r
    }
}

/// A proxy call is allowed exactly when the URL has a host that is one of the
/// adapter's allowed hosts.
pub fn check_proxy_url(url: &str, allowed: &Vec<String>, adapter: &str) -> (r: Result<(), ProxyDenied>)
    ensures
        r is Ok <==> (url_host_of(url@) is Some && texts(allowed@).contains(url_host_of(url@)->0)),
        match r {
            Err(d) => d.adapter@ == adapter@ && match d.host {
                Some(h) => url_host_of(url@) == Some(h@),
                None => url_host_of(url@) is None,
            },
            Ok(_) => true,
        },
{
    match url_host(url) {
        Some(h) => {
            let mut i: usize = 0;
            while i < allowed.len()
                invariant
                    i <= allowed@.len(),
                    url_host_of(url@) == Some(h@),
                    forall|j: int| 0 <= j < i ==> allowed@[j]@ != h@,
                decreases allowed@.len() - i,
            {
                if str_eq(allowed[i].as_str(), h.as_str()) {
                    assert(texts(allowed@)[i as int] == h@);
                    return Ok(());
                }
                i = i + 1;
            }
            proof {
                if texts(allowed@).contains(h@) {
                    let j = choose|j: int| 0 <= j < texts(allowed@).len() && texts(allowed@)[j] == h@;
                    assert(allowed@[j]@ == h@);
                }
            }
            Err(ProxyDenied { host: Some(h), adapter: adapter.to_owned() })
        },
        None => Err(ProxyDenied { host: None, adapter: adapter.to_owned() }),
    }
}

/// How a webhook request ended.
pub enum WebhookOutcome {
    /// The reply (formatted, or the proxied upstream body) was produced.
    Delivered,
    /// No channel adapter has the channel's name.
    NoAdapter,
    /// The adapter could not parse the payload, or it held no content.
    BadPayload,
    /// The proxy URL's host is not allowed.
    ProxyDenied,
    /// The proxied call failed.
    ProxyFailed,
    /// The provider could not be called.
    ProviderFailed,
}

/// The HTTP status for a webhook outcome.
pub fn webhook_status(o: &WebhookOutcome) -> (r: u16)
    ensures
        r == match *o {
            WebhookOutcome::Delivered => 200u16,
            WebhookOutcome::NoAdapter => 404u16,
            WebhookOutcome::BadPayload => 400u16,
            WebhookOutcome::ProxyDenied => 403u16,
            WebhookOutcome::ProxyFailed => 502u16,
            WebhookOutcome::ProviderFailed => 500u16,
        },
{
    match o {
        WebhookOutcome::Delivered => 200,
        WebhookOutcome::NoAdapter => 404,
        WebhookOutcome::BadPayload => 400,
        WebhookOutcome::ProxyDenied => 403,
        WebhookOutcome::ProxyFailed => 502,
        WebhookOutcome::ProviderFailed => 500,
    }
}

/// The registered plugins; a name is registered at most once.
pub struct PluginHost {
    entries: Vec<PluginEntry>,
}

pub open spec fn entry_names(es: Seq<PluginEntry>) -> Seq<Seq<char>> {
    es.map_values(|e: PluginEntry| e.name@)
}

impl PluginHost {
    pub closed spec fn entries(&self) -> Seq<PluginEntry> {
        self.entries@
    }

    pub open spec fn names(&self) -> Seq<Seq<char>> {
        entry_names(self.entries())
    }

    pub open spec fn wf(&self) -> bool {
        self.names().no_duplicates()
    }

    pub fn new() -> (r: Self)
        ensures
            r.wf(),
            r.entries().len() == 0,
    {
        let r = PluginHost { entries: Vec::new() };
        assert(r.names() =~= Seq::<Seq<char>>::empty());
        r
    }

    fn find(&self, name: &str) -> (r: Option<usize>)
        ensures
            match r {
                Some(i) => i < self.entries().len() && self.entries()[i as int].name@ == name@,
                None => !self.names().contains(name@),
            },
    {
        let mut i: usize = 0;
        while i < self.entries.len()
            invariant
                i <= self.entries@.len(),
                forall|j: int| 0 <= j < i ==> self.entries@[j].name@ != name@,
            decreases self.entries@.len() - i,
        {
            if str_eq(self.entries[i].name.as_str(), name) {
                return Some(i);
            }
            i = i + 1;
        }
        proof {
            if self.names().contains(name@) {
                let j = choose|j: int| 0 <= j < self.names().len() && self.names()[j] == name@;
                assert(self.entries@[j].name@ == name@);
            }
        }
        None
    }

    /// Records a plugin; one registered under the same name is replaced.
    pub fn register(
        &mut self,
        name: &str,
        plugin_type: PluginType,
        capabilities: Vec<Capability>,
        tool_schema: Option<String>,
    )
        requires
            old(self).wf(),
        ensures
            final(self).wf(),
            final(self).names().contains(name@),
            forall|n: Seq<char>| n != name@ ==> (final(self).names().contains(n) <==> old(self).names().contains(n)),
            exists|i: int|
                0 <= i < final(self).entries().len() && final(self).entries()[i].name@ == name@
                    && final(self).entries()[i].plugin_type == plugin_type
                    && final(self).entries()[i].capabilities@ == capabilities@
                    && final(self).entries()[i].tool_schema == tool_schema,
            final(self).entries().len() >= old(self).entries().len(),
            forall|i: int|
                0 <= i < old(self).entries().len() && old(self).entries()[i].name@ != name@
                    ==> #[trigger] final(self).entries()[i] == old(self).entries()[i],
    {
        let entry = PluginEntry { name: name.to_owned(), plugin_type, capabilities, tool_schema };
        let ghost e = entry;
        match self.find(name) {
            Some(i) => {
                let ghost before = self.entries@;
                self.entries.set(i, entry);
                assert(self.names() =~= entry_names(before).update(i as int, name@));
                assert(entry_names(before)[i as int] == name@);
                assert(self.names() =~= entry_names(before));
                assert(self.entries@[i as int] == e);
            },
            None => {
                let ghost before = self.entries@;
                self.entries.push(entry);
                assert(self.names() =~= entry_names(before).push(name@));
                assert(self.entries@[before.len() as int] == e);
                assert forall|n: Seq<char>| n != name@ implies (self.names().contains(n) <==> entry_names(before).contains(n)) by {
                    if self.names().contains(n) {
                        let j = choose|j: int| 0 <= j < self.names().len() && self.names()[j] == n;
                        assert(j < before.len());
                        assert(entry_names(before)[j] == n);
                    }
                    if entry_names(before).contains(n) {
                        let j = choose|j: int| 0 <= j < entry_names(before).len() && entry_names(before)[j] == n;
                        assert(self.names()[j] == n);
                    }
                }
                assert(self.names()[before.len() as int] == name@);
            },
        }
    }

    /// The number of plugins.
    pub fn count(&self) -> (r: usize)
        ensures
            r == self.entries().len(),
    {
        self.entries.len()
    }

    /// The plugins' names, in registration order.
    pub fn list(&self) -> (r: Vec<PluginInfo>)
        ensures
            r@.map_values(|p: PluginInfo| p.name@) == self.names(),
    {
        let mut out: Vec<PluginInfo> = Vec::new();
        let mut i: usize = 0;
        while i < self.entries.len()
            invariant
                i <= self.entries@.len(),
                out@.map_values(|p: PluginInfo| p.name@) == self.names().subrange(0, i as int),
            decreases self.entries@.len() - i,
        {
            let ghost before = out@;
            out.push(PluginInfo { name: self.entries[i].name.clone() });
            assert(out@.map_values(|p: PluginInfo| p.name@) =~= before.map_values(
                |p: PluginInfo| p.name@,
            ).push(self.entries@[i as int].name@));
            assert(self.names().subrange(0, i + 1) =~= self.names().subrange(0, i as int).push(
                self.names()[i as int],
            ));
            i = i + 1;
        }
        assert(self.names().subrange(0, self.entries@.len() as int) =~= self.names());
        out
    }

    /// Whether a plugin of this name is registered.
    pub fn has_plugin(&self, name: &str) -> (r: bool)
        ensures
            r == self.names().contains(name@),
    {
        match self.find(name) {
            Some(i) => {
                assert(self.names()[i as int] == name@);
                true
            },
            None => false,
        }
    }

    /// The kind of a plugin.
    pub fn plugin_type(&self, name: &str) -> (r: Option<PluginType>)
        ensures
            match r {
                Some(t) => exists|i: int|
                    0 <= i < self.entries().len() && self.entries()[i].name@ == name@
                        && self.entries()[i].plugin_type == t,
                None => !self.names().contains(name@),
            },
    {
        match self.find(name) {
            Some(i) => Some(self.entries[i].plugin_type),
            None => None,
        }
    }

    /// The schema of a tool plugin, if it described one.
    pub fn tool_schema(&self, name: &str) -> (r: Option<String>)
        ensures
            match r {
                Some(s) => exists|i: int|
                    0 <= i < self.entries().len() && self.entries()[i].name@ == name@
                        && self.entries()[i].tool_schema == Some(s),
                None => !self.names().contains(name@) || exists|i: int|
                    0 <= i < self.entries().len() && self.entries()[i].name@ == name@
                        && self.entries()[i].tool_schema is None,
            },
    {
        match self.find(name) {
            Some(i) => match &self.entries[i].tool_schema {
                Some(s) => Some(s.clone()),
                None => None,
            },
            None => None,
        }
    }

    /// The schemas of the tool plugins, in registration order.
    pub fn tool_schemas(&self) -> (r: Vec<String>)
        ensures
            r@ == tool_schema_list(self.entries()),
    {
        let mut out: Vec<String> = Vec::new();
        let mut i: usize = 0;
        while i < self.entries.len()
            invariant
                i <= self.entries@.len(),
                out@ == tool_schema_list(self.entries@.subrange(0, i as int)),
            decreases self.entries@.len() - i,
        {
            assert(self.entries@.subrange(0, i + 1).drop_last() =~= self.entries@.subrange(0, i as int));
            let e = &self.entries[i];
            if e.plugin_type == PluginType::Tool {
                match &e.tool_schema {
                    Some(s) => out.push(s.clone()),
                    None => {},
                }
            }
            i = i + 1;
        }
        assert(self.entries@.subrange(0, self.entries@.len() as int) =~= self.entries@);
        out
    }

    /// The channel adapter whose name is the channel's.
    pub fn find_channel_adapter(&self, channel: &str) -> (r: Option<String>)
        ensures
            match r {
                Some(n) => n@ == channel@ && exists|i: int|
                    0 <= i < self.entries().len() && self.entries()[i].name@ == channel@
                        && self.entries()[i].plugin_type == PluginType::ChannelAdapter,
                None => forall|i: int|
                    0 <= i < self.entries().len() && self.entries()[i].name@ == channel@
                        ==> self.entries()[i].plugin_type != PluginType::ChannelAdapter,
            },
    {
        let mut i: usize = 0;
        while i < self.entries.len()
            invariant
                i <= self.entries@.len(),
                forall|j: int|
                    0 <= j < i && self.entries@[j].name@ == channel@ ==> self.entries@[j].plugin_type
                        != PluginType::ChannelAdapter,
            decreases self.entries@.len() - i,
        {
            let e = &self.entries[i];
            if e.plugin_type == PluginType::ChannelAdapter && str_eq(e.name.as_str(), channel) {
                return Some(e.name.clone());
            }
            i = i + 1;
        }
        None
    }

    /// The outbound-HTTP allow list of a plugin (empty for an unknown one).
    pub fn allowed_hosts(&self, name: &str) -> (r: Vec<String>)
        requires
            self.wf(),
        ensures
            match self.find_spec(name@) {
                Some(i) => texts(r@) == http_hosts(views(self.entries()[i].capabilities@)),
                None => r@.len() == 0,
            },
    {
        match self.find(name) {
            Some(i) => {
                proof {
                    self.lemma_find_spec(name@, i as int);
                }
                hosts_of(self.entries[i].capabilities.as_slice())
            },
            None => Vec::new(),
        }
    }

    /// The position of the plugin with this name.
    pub open spec fn find_spec(&self, name: Seq<char>) -> Option<int> {
        if self.names().contains(name) {
            Some(choose|i: int| 0 <= i < self.names().len() && self.names()[i] == name)
        } else {
            None
        }
    }

    proof fn lemma_find_spec(&self, name: Seq<char>, i: int)
        requires
            self.wf(),
            0 <= i < self.entries().len(),
            self.entries()[i].name@ == name,
        ensures
            self.find_spec(name) == Some(i),
    {
        assert(self.names()[i] == name);
        let c = choose|c: int| 0 <= c < self.names().len() && self.names()[c] == name;
        if c != i {
            assert(self.names()[c] == self.names()[i]);
        }
    }
}

/// The schemas of tool plugins that described one, in order.
pub open spec fn tool_schema_list(es: Seq<PluginEntry>) -> Seq<String>
    decreases es.len(),
{
    if es.len() == 0 {
        Seq::empty()
    } else {
        let prev = tool_schema_list(es.drop_last());
        let e = es.last();
        if e.plugin_type == PluginType::Tool && e.tool_schema is Some {
            prev.push(e.tool_schema->0)
        } else {
            prev
        }
    }
}

} // verus!
