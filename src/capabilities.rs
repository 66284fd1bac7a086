//! Per-plugin capability grants, written `"type:value"` in configuration.
use vstd::prelude::*;
use vstd::string::*;
use crate::text::{concat2, find_char, is_first_index, lacks, lemma_first_index_exists, str_eq};

verus! {

/// A grant that lets a plugin cause one kind of side effect.
#[derive(Debug, Clone, PartialEq, Eq)]
pub enum Capability {
    /// Outbound HTTP to exactly this host name.
    Http(String),
    /// Access to a named host store.
    Store(String),
    /// Access to a named host function.
    HostFunction(String),
}

/// What a capability means, over character sequences.
pub enum CapabilityView {
    Http(Seq<char>),
    Store(Seq<char>),
    HostFunction(Seq<char>),
}

impl View for Capability {
    type V = CapabilityView;

    open spec fn view(&self) -> CapabilityView {
        match self {
            Capability::Http(h) => CapabilityView::Http(h@),
            Capability::Store(n) => CapabilityView::Store(n@),
            Capability::HostFunction(n) => CapabilityView::HostFunction(n@),
        }
    }
}

/// Why a capability string was refused.
#[derive(Debug, Clone, PartialEq, Eq)]
pub enum CapabilityError {
    /// No `:` separates type and value; holds the input.
    MissingSeparator(String),
    /// Nothing follows the `:`; holds the input.
    EmptyValue(String),
    /// The type is not one of the known ones; holds the type and the input.
    UnknownType(String, String),
}

/// The three ways parsing can fail.
pub enum ParseFailure {
    MissingSeparator,
    EmptyValue,
    UnknownType,
}

impl CapabilityError {
    pub open spec fn failure(&self) -> ParseFailure {
        match self {
            CapabilityError::MissingSeparator(_) => ParseFailure::MissingSeparator,
            CapabilityError::EmptyValue(_) => ParseFailure::EmptyValue,
            CapabilityError::UnknownType(_, _) => ParseFailure::UnknownType,
        }
    }

    /// A sentence that says what is wrong with the input.
    pub fn to_string(&self) -> (r: String)
        ensures
            r@ == capability_error_message(*self),
    {
        match self {
            CapabilityError::MissingSeparator(s) => {
                let mut r = concat2("invalid capability format '", s.as_str());
                r.append("': expected 'type:value' (e.g., 'http:api.example.com')");
                r
            },
            CapabilityError::EmptyValue(s) => {
                let mut r = concat2("capability value cannot be empty in '", s.as_str());
                r.append("'");
                r
            },
            CapabilityError::UnknownType(t, s) => {
                let mut r = concat2("unknown capability type '", t.as_str());
                r.append("' in '");
                r.append(s.as_str());
                r.append("': expected 'http', 'store', or 'host_function'");
                r
            },
        }
    }
}

/// The message of each capability error.
pub open spec fn capability_error_message(e: CapabilityError) -> Seq<char> {
    match e {
        CapabilityError::MissingSeparator(s) => "invalid capability format '"@ + s@
            + "': expected 'type:value' (e.g., 'http:api.example.com')"@,
        CapabilityError::EmptyValue(s) => "capability value cannot be empty in '"@ + s@ + "'"@,
        CapabilityError::UnknownType(t, s) => "unknown capability type '"@ + t@ + "' in '"@ + s@
            + "': expected 'http', 'store', or 'host_function'"@,
    }
}

/// The part of `s` before its first `:` (requires that there is one).
pub open spec fn tag_part(s: Seq<char>) -> Seq<char> {
    s.subrange(0, choose|i: int| is_first_index(s, ':', i))
}

/// The part of `s` after its first `:`.
pub open spec fn value_part(s: Seq<char>) -> Seq<char> {
    s.subrange((choose|i: int| is_first_index(s, ':', i)) + 1, s.len() as int)
}

/// What parsing `s` yields.
pub open spec fn parse_spec(s: Seq<char>) -> Result<CapabilityView, ParseFailure> {
    if lacks(s, ':') {
        Err(ParseFailure::MissingSeparator)
    } else if value_part(s).len() == 0 {
        Err(ParseFailure::EmptyValue)
    } else if tag_part(s) == "http"@ {
        Ok(CapabilityView::Http(value_part(s)))
    } else if tag_part(s) == "store"@ {
        Ok(CapabilityView::Store(value_part(s)))
    } else if tag_part(s) == "host_function"@ {
        Ok(CapabilityView::HostFunction(value_part(s)))
    } else {
        Err(ParseFailure::UnknownType)
    }
}

/// The wire text of a capability.
pub open spec fn display_spec(c: CapabilityView) -> Seq<char> {
    match c {
        CapabilityView::Http(h) => "http:"@ + h,
        CapabilityView::Store(n) => "store:"@ + n,
        CapabilityView::HostFunction(n) => "host_function:"@ + n,
    }
}

/// The hosts of the `Http` grants, in order.
pub open spec fn http_hosts(caps: Seq<CapabilityView>) -> Seq<Seq<char>>
    decreases caps.len(),
{
    if caps.len() == 0 {
        Seq::empty()
    } else {
        let prev = http_hosts(caps.drop_last());
        match caps.last() {
            CapabilityView::Http(h) => prev.push(h),
            _ => prev,
        }
    }
}

/// Views of a list of capabilities.
pub open spec fn views(caps: Seq<Capability>) -> Seq<CapabilityView> {
    caps.map_values(|c: Capability| c@)
}

/// Views of a list of strings.
pub open spec fn texts(v: Seq<String>) -> Seq<Seq<char>> {
    v.map_values(|s: String| s@)
}

proof fn lemma_first_index_unique(s: Seq<char>, c: char, i: int, j: int)
    requires
        is_first_index(s, c, i),
        is_first_index(s, c, j),
    ensures
        i == j,
{
}

/// Displaying what a string parses to gives back that string.
pub proof fn lemma_parse_then_display(s: Seq<char>)
    requires
        parse_spec(s) is Ok,
    ensures
        display_spec(parse_spec(s)->Ok_0) == s,
{
    lemma_first_index_exists(s, ':');
    let i = choose|i: int| is_first_index(s, ':', i);
    assert(s =~= s.subrange(0, i) + seq![':'] + s.subrange(i + 1, s.len() as int));
    reveal_strlit("http:");
    reveal_strlit("http");
    reveal_strlit("store:");
    reveal_strlit("store");
    reveal_strlit("host_function:");
    reveal_strlit("host_function");
    if tag_part(s) == "http"@ {
        assert("http:"@ =~= "http"@ + seq![':']);
    } else if tag_part(s) == "store"@ {
        assert("store:"@ =~= "store"@ + seq![':']);
    } else {
        assert("host_function:"@ =~= "host_function"@ + seq![':']);
    }
}

impl Capability {
    /// The wire text `"type:value"`.
    pub fn to_string(&self) -> (r: String)
        ensures
            r@ == display_spec(self@),
    {
        match self {
            Capability::Http(h) => concat2("http:", h.as_str()),
            Capability::Store(n) => concat2("store:", n.as_str()),
            Capability::HostFunction(n) => concat2("host_function:", n.as_str()),
        }
    }
}

/// Parses `"type:value"`, splitting at the first `:`.
pub fn parse(s: &str) -> (r: Result<Capability, CapabilityError>)
    ensures
        match r {
            Ok(c) => parse_spec(s@) == Ok::<CapabilityView, ParseFailure>(c@),
            Err(e) => parse_spec(s@) == Err::<CapabilityView, ParseFailure>(e.failure()),
        },
{
    let pos = find_char(s, ':');
    match pos {
        None => Err(CapabilityError::MissingSeparator(s.to_owned())),
        Some(i) => {
            proof {
                let k = choose|k: int| is_first_index(s@, ':', k);
                lemma_first_index_unique(s@, ':', i as int, k);
            }
            let n = s.unicode_len();
            let tag = s.substring_char(0, i);
            let value = s.substring_char(i + 1, n);
            if value.unicode_len() == 0 {
                Err(CapabilityError::EmptyValue(s.to_owned()))
            } else if str_eq(tag, "http") {
                Ok(Capability::Http(value.to_owned()))
            } else if str_eq(tag, "store") {
                Ok(Capability::Store(value.to_owned()))
            } else if str_eq(tag, "host_function") {
                Ok(Capability::HostFunction(value.to_owned()))
            } else {
                Err(CapabilityError::UnknownType(tag.to_owned(), s.to_owned()))
            }
        },
    }
}

/// Parses each entry; fails with the error of the first entry that does not parse.
pub fn parse_all(caps: &[String]) -> (r: Result<Vec<Capability>, CapabilityError>)
    ensures
        match r {
            Ok(v) => v@.len() == caps@.len() && forall|i: int|
                0 <= i < caps@.len() ==> parse_spec(#[trigger] caps@[i]@) == Ok::<
                    CapabilityView,
                    ParseFailure,
                >(v@[i]@),
            Err(e) => exists|k: int|
                0 <= k < caps@.len() && parse_spec(caps@[k]@) == Err::<
                    CapabilityView,
                    ParseFailure,
                >(e.failure()) && forall|i: int|
                    0 <= i < k ==> (#[trigger] parse_spec(caps@[i]@)) is Ok,
        },
{
    let mut out: Vec<Capability> = Vec::new();
    let mut i: usize = 0;
    while i < caps.len()
        invariant
            i <= caps@.len(),
            out@.len() == i,
            forall|j: int|
                0 <= j < i ==> parse_spec(#[trigger] caps@[j]@) == Ok::<
                    CapabilityView,
                    ParseFailure,
                >(out@[j]@),
        decreases caps@.len() - i,
    {
        match parse(caps[i].as_str()) {
            Ok(c) => out.push(c),
            Err(e) => {
                assert(forall|j: int| 0 <= j < i ==> (#[trigger] parse_spec(caps@[j]@)) is Ok);
                return Err(e);
            },
        }
        i = i + 1;
    }
    Ok(out)
}

/// The outbound-HTTP allow list: the host of every `Http` grant, in order.
pub fn allowed_hosts(caps: &[Capability]) -> (r: Vec<String>)
    ensures
        texts(r@) == http_hosts(views(caps@)),
{
    let mut out: Vec<String> = Vec::new();
    let mut i: usize = 0;
    while i < caps.len()
        invariant
            i <= caps@.len(),
            texts(out@) == http_hosts(views(caps@.subrange(0, i as int))),
        decreases caps@.len() - i,
    {
        proof {
            assert(views(caps@.subrange(0, i + 1)).drop_last() =~= views(
                caps@.subrange(0, i as int),
            ));
        }
        match &caps[i] {
            Capability::Http(h) => {
                let ghost before = out@;
                out.push(h.clone());
                assert(texts(out@) =~= texts(before).push(h@));
            },
            _ => {},
        }
        i = i + 1;
    }
    assert(caps@.subrange(0, caps@.len() as int) =~= caps@);
    out
}

} // verus!
