//! Hierarchical session routing: binding resolution and session identity.
use vstd::prelude::*;
use vstd::string::*;
use crate::text::str_eq;

verus! {

/// A partial pattern over the routing fields, with the agent it selects.
#[derive(Clone, Debug)]
pub struct Binding {
    pub agent_id: String,
    pub channel: Option<String>,
    pub account_id: Option<String>,
    pub peer_id: Option<String>,
    pub guild_id: Option<String>,
    pub team_id: Option<String>,
}

/// A binding over character sequences.
pub struct BindingView {
    pub agent_id: Seq<char>,
    pub channel: Option<Seq<char>>,
    pub account_id: Option<Seq<char>>,
    pub peer_id: Option<Seq<char>>,
    pub guild_id: Option<Seq<char>>,
    pub team_id: Option<Seq<char>>,
}

/// The five routing inputs.
pub struct RouteQuery {
    pub channel: Seq<char>,
    pub account: Seq<char>,
    pub peer: Option<Seq<char>>,
    pub guild: Option<Seq<char>>,
    pub team: Option<Seq<char>>,
}

pub open spec fn opt_text(o: Option<String>) -> Option<Seq<char>> {
    match o {
        Some(s) => Some(s@),
        None => None,
    }
}

pub open spec fn opt_str(o: Option<&str>) -> Option<Seq<char>> {
    match o {
        Some(s) => Some(s@),
        None => None,
    }
}

impl View for Binding {
    type V = BindingView;

    open spec fn view(&self) -> BindingView {
        BindingView {
            agent_id: self.agent_id@,
            channel: opt_text(self.channel),
            account_id: opt_text(self.account_id),
            peer_id: opt_text(self.peer_id),
            guild_id: opt_text(self.guild_id),
            team_id: opt_text(self.team_id),
        }
    }
}

/// Both are present and equal.
pub open spec fn both_eq(a: Option<Seq<char>>, b: Option<Seq<char>>) -> bool {
    a is Some && b is Some && a->0 == b->0
}

/// Whether binding `b` matches the query under rule `rule`
/// (0 peer, 1 guild, 2 team, 3 account, 4 channel).
pub open spec fn rule_matches(rule: int, b: BindingView, q: RouteQuery) -> bool {
    if rule == 0 {
        both_eq(b.peer_id, q.peer)
    } else if rule == 1 {
        both_eq(b.guild_id, q.guild)
    } else if rule == 2 {
        both_eq(b.team_id, q.team)
    } else if rule == 3 {
        b.account_id == Some(q.account) && b.peer_id is None && b.guild_id is None
    } else if rule == 4 {
        b.channel == Some(q.channel) && b.account_id is None && b.peer_id is None
    } else {
        false
    }
}

/// `i` is the first binding that matches under `rule`.
pub open spec fn is_first_match(bs: Seq<BindingView>, rule: int, q: RouteQuery, i: int) -> bool {
    &&& 0 <= i < bs.len()
    &&& rule_matches(rule, bs[i], q)
    &&& forall|j: int| 0 <= j < i ==> !rule_matches(rule, #[trigger] bs[j], q)
}

/// Some binding matches under `rule`.
pub open spec fn has_match(bs: Seq<BindingView>, rule: int, q: RouteQuery) -> bool {
    exists|i: int| 0 <= i < bs.len() && rule_matches(rule, #[trigger] bs[i], q)
}

/// The first rule, in priority order, under which some binding matches; 5 when none does.
pub open spec fn matched_rule(bs: Seq<BindingView>, q: RouteQuery) -> int {
    if has_match(bs, 0, q) {
        0
    } else if has_match(bs, 1, q) {
        1
    } else if has_match(bs, 2, q) {
        2
    } else if has_match(bs, 3, q) {
        3
    } else if has_match(bs, 4, q) {
        4
    } else {
        5
    }
}

/// The tag reported for a rule.
pub open spec fn rule_tag(rule: int) -> Seq<char> {
    if rule == 0 {
        "binding.peer"@
    } else if rule == 1 {
        "binding.guild"@
    } else if rule == 2 {
        "binding.team"@
    } else if rule == 3 {
        "binding.account"@
    } else if rule == 4 {
        "binding.channel"@
    } else {
        "default"@
    }
}

/// The agent that resolution selects.
pub open spec fn resolved_agent(bs: Seq<BindingView>, q: RouteQuery) -> Seq<char> {
    let rule = matched_rule(bs, q);
    if rule == 5 {
        "default"@
    } else {
        bs[choose|i: int| is_first_match(bs, rule, q, i)].agent_id
    }
}

/// `"{agent}:{channel}:{account}:{peer}"`, with `peer` defaulting to `main`.
pub open spec fn session_key_of(agent: Seq<char>, q: RouteQuery) -> Seq<char> {
    let peer = match q.peer {
        Some(p) => p,
        None => "main"@,
    };
    agent + ":"@ + q.channel + ":"@ + q.account + ":"@ + peer
}

pub open spec fn binding_views(bs: Seq<Binding>) -> Seq<BindingView> {
    bs.map_values(|b: Binding| b@)
}

/// The outcome of routing one message.
pub struct RouteResult {
    pub agent_id: String,
    pub session_key: String,
    pub matched_by: &'static str,
}

struct SessionState {
    key: String,
    message_count: u64,
}

/// Routes messages to agents by binding priority and tracks the sessions seen.
pub struct SessionRouter {
    bindings: Vec<Binding>,
    sessions: Vec<SessionState>,
}

impl SessionRouter {
    /// The bindings, in insertion order.
    pub closed spec fn bindings_view(&self) -> Seq<BindingView> {
        binding_views(self.bindings@)
    }

    /// The session keys observed, in order of first appearance.
    pub closed spec fn session_keys(&self) -> Seq<Seq<char>> {
        self.sessions@.map_values(|s: SessionState| s.key@)
    }

    /// Observed session keys are distinct.
    pub open spec fn wf(&self) -> bool {
        self.session_keys().no_duplicates()
    }

    pub fn new() -> (r: Self)
        ensures
            r.wf(),
            r.bindings_view() == Seq::<BindingView>::empty(),
            r.session_keys() == Seq::<Seq<char>>::empty(),
    {
        let r = SessionRouter { bindings: Vec::new(), sessions: Vec::new() };
        assert(r.session_keys() =~= Seq::<Seq<char>>::empty());
        assert(r.bindings_view() =~= Seq::<BindingView>::empty());
        r
    }

    /// Appends a binding; earlier bindings win within the same rule.
    pub fn add_binding(&mut self, binding: Binding)
        ensures
            final(self).bindings_view() == old(self).bindings_view().push(binding@),
            final(self).session_keys() == old(self).session_keys(),
            final(self).wf() == old(self).wf(),
    {
        let ghost before = self.bindings@;
        self.bindings.push(binding);
        assert(binding_views(self.bindings@) =~= binding_views(before).push(binding@));
    }

    /// The number of distinct session keys observed.
    pub fn session_count(&self) -> (r: usize)
        ensures
            r == self.session_keys().len(),
    {
        self.sessions.len()
    }

    fn first_match(
        &self,
        rule: u8,
        channel: &str,
        account: &str,
        peer: Option<&str>,
        guild: Option<&str>,
        team: Option<&str>,
    ) -> (r: Option<usize>)
        requires
            rule < 5,
        ensures
            ({
                let q = RouteQuery {
                    channel: channel@,
                    account: account@,
                    peer: opt_str(peer),
                    guild: opt_str(guild),
                    team: opt_str(team),
                };
                match r {
                    Some(i) => is_first_match(self.bindings_view(), rule as int, q, i as int),
                    None => !has_match(self.bindings_view(), rule as int, q),
                }
            }),
    {
        let ghost q = RouteQuery {
            channel: channel@,
            account: account@,
            peer: opt_str(peer),
            guild: opt_str(guild),
            team: opt_str(team),
        };
        let ghost bs = self.bindings_view();
        let mut i: usize = 0;
        while i < self.bindings.len()
            invariant
                q == (RouteQuery {
                    channel: channel@,
                    account: account@,
                    peer: opt_str(peer),
                    guild: opt_str(guild),
                    team: opt_str(team),
                }),
                rule < 5,
                bs == binding_views(self.bindings@),
                i <= self.bindings@.len(),
                forall|j: int| 0 <= j < i ==> !rule_matches(rule as int, #[trigger] bs[j], q),
            decreases self.bindings@.len() - i,
        {
            let b = &self.bindings[i];
            let hit = if rule == 0 {
                let h = opt_eq(&b.peer_id, peer);
                assert(h == rule_matches(0, b@, q));
                h
            } else if rule == 1 {
                let h = opt_eq(&b.guild_id, guild);
                assert(h == rule_matches(1, b@, q));
                h
            } else if rule == 2 {
                let h = opt_eq(&b.team_id, team);
                assert(h == rule_matches(2, b@, q));
                h
            } else if rule == 3 {
                let h = opt_is(&b.account_id, account) && b.peer_id.is_none() && b.guild_id.is_none();
                assert(h == rule_matches(3, b@, q));
                h
            } else {
                let h = opt_is(&b.channel, channel) && b.account_id.is_none() && b.peer_id.is_none();
                assert(h == rule_matches(4, b@, q));
                h
            };
            assert(bs[i as int] == b@);
            assert(hit == rule_matches(rule as int, b@, q));
            if hit {
                return Some(i);
            }
            i = i + 1;
        }
        None
    }

    /// Resolves the agent for a message by rule priority
    /// (peer, guild, team, account, channel, then the default agent),
    /// and counts the message against its session.
    pub fn resolve(
        &mut self,
        channel: &str,
        account: &str,
        peer: Option<&str>,
        guild: Option<&str>,
        team: Option<&str>,
    ) -> (r: RouteResult)
        requires
            old(self).wf(),
        ensures
            ({
                let q = RouteQuery {
                    channel: channel@,
                    account: account@,
                    peer: opt_str(peer),
                    guild: opt_str(guild),
                    team: opt_str(team),
                };
                let bs = old(self).bindings_view();
                &&& r.agent_id@ == resolved_agent(bs, q)
                &&& r.matched_by@ == rule_tag(matched_rule(bs, q))
                &&& r.session_key@ == session_key_of(r.agent_id@, q)
                &&& final(self).bindings_view() == bs
                &&& final(self).wf()
                &&& if old(self).session_keys().contains(r.session_key@) {
                    final(self).session_keys() == old(self).session_keys()
                } else {
                    final(self).session_keys() == old(self).session_keys().push(r.session_key@)
                }
            }),
    {
        let ghost q = RouteQuery {
            channel: channel@,
            account: account@,
            peer: opt_str(peer),
            guild: opt_str(guild),
            team: opt_str(team),
        };
        let ghost bs = self.bindings_view();
        let mut found: Option<usize> = None;
        let mut rule: u8 = 0;
        while rule < 5 && found.is_none()
            invariant
                q == (RouteQuery {
                    channel: channel@,
                    account: account@,
                    peer: opt_str(peer),
                    guild: opt_str(guild),
                    team: opt_str(team),
                }),
                bs == self.bindings_view(),
                rule <= 5,
                forall|k: int| 0 <= k < rule ==> !has_match(bs, k, q),
                found is Some ==> rule < 5 && is_first_match(bs, rule as int, q, found->0 as int),
            decreases 5 - rule + (if found is None { 1int } else { 0int }),
        {
            match self.first_match(rule, channel, account, peer, guild, team) {
                Some(i) => {
                    found = Some(i);
                },
                None => {
                    rule = rule + 1;
                },
            }
        }
        let k = rule;
        let (agent, matched_by): (&str, &'static str) = match found {
            Some(i) => {
                proof {
                    assert(has_match(bs, k as int, q));
                    assert(matched_rule(bs, q) == k as int);
                    let c = choose|c: int| is_first_match(bs, k as int, q, c);
                    assert(c == i as int) by {
                        if c < i {
                            assert(!rule_matches(k as int, bs[c], q));
                        }
                        if i < c {
                            assert(!rule_matches(k as int, bs[i as int], q));
                        }
                    }
                }
                let tag: &'static str = if k == 0 {
                    "binding.peer"
                } else if k == 1 {
                    "binding.guild"
                } else if k == 2 {
                    "binding.team"
                } else if k == 3 {
                    "binding.account"
                } else {
                    "binding.channel"
                };
                (self.bindings[i].agent_id.as_str(), tag)
            },
            None => {
                assert(matched_rule(bs, q) == 5);
                ("default", "default")
            },
        };
        let peer_text: &str = match peer {
            Some(p) => p,
            None => "main",
        };
        let mut key = agent.to_owned();
        key.append(":");
        key.append(channel);
        key.append(":");
        key.append(account);
        key.append(":");
        key.append(peer_text);
        let agent_id = agent.to_owned();
        self.count_message(&key);
        RouteResult { agent_id, session_key: key, matched_by }
    }

    fn count_message(&mut self, key: &String)
        requires
            old(self).wf(),
        ensures
            final(self).bindings_view() == old(self).bindings_view(),
            final(self).wf(),
            if old(self).session_keys().contains(key@) {
                final(self).session_keys() == old(self).session_keys()
            } else {
                final(self).session_keys() == old(self).session_keys().push(key@)
            },
    {
        let ghost keys = self.session_keys();
        let mut i: usize = 0;
        while i < self.sessions.len()
            invariant
                self.sessions@ == old(self).sessions@,
                self.bindings@ == old(self).bindings@,
                keys == self.session_keys(),
                keys.no_duplicates(),
                keys.len() == self.sessions@.len(),
                i <= self.sessions@.len(),
                forall|j: int| 0 <= j < i ==> keys[j] != key@,
            decreases self.sessions@.len() - i,
        {
            if str_eq(self.sessions[i].key.as_str(), key.as_str()) {
                assert(keys[i as int] == key@);
                let n = self.sessions[i].message_count.saturating_add(1);
                let k = self.sessions[i].key.clone();
                self.sessions.set(i, SessionState { key: k, message_count: n });
                assert(self.session_keys() =~= keys);
                return;
            }
            i = i + 1;
        }
        assert(!keys.contains(key@));
        self.sessions.push(SessionState { key: key.clone(), message_count: 1 });
        assert(self.session_keys() =~= keys.push(key@));
    }
}

impl Default for SessionRouter {
    fn default() -> (r: Self)
        ensures
            r.wf(),
            r.bindings_view() == Seq::<BindingView>::empty(),
            r.session_keys() == Seq::<Seq<char>>::empty(),
    {
        SessionRouter::new()
    }
}

fn opt_eq(a: &Option<String>, b: Option<&str>) -> (r: bool)
    ensures
        r == both_eq(opt_text(*a), opt_str(b)),
{
    match (a, b) {
        (Some(x), Some(y)) => str_eq(x.as_str(), y),
        _ => false,
    }
}

fn opt_is(a: &Option<String>, b: &str) -> (r: bool)
    ensures
        r == (opt_text(*a) == Some(b@)),
{
    match a {
        Some(x) => str_eq(x.as_str(), b),
        None => false,
    }
}

/// Resolution is a function of the binding list and the five inputs alone.
pub proof fn lemma_resolve_deterministic(
    bs1: Seq<BindingView>,
    bs2: Seq<BindingView>,
    q1: RouteQuery,
    q2: RouteQuery,
)
    requires
        bs1 == bs2,
        q1 == q2,
    ensures
        resolved_agent(bs1, q1) == resolved_agent(bs2, q2),
        matched_rule(bs1, q1) == matched_rule(bs2, q2),
        session_key_of(resolved_agent(bs1, q1), q1) == session_key_of(resolved_agent(bs2, q2), q2),
{
}

/// Appending a binding that matches no rule of higher priority than the one
/// that decided leaves the route unchanged.
pub proof fn lemma_lower_priority_binding_keeps_route(
    bs: Seq<BindingView>,
    b: BindingView,
    q: RouteQuery,
)
    requires
        forall|k: int| 0 <= k < matched_rule(bs, q) ==> !rule_matches(k, b, q),
    ensures
        matched_rule(bs.push(b), q) == matched_rule(bs, q),
        resolved_agent(bs.push(b), q) == resolved_agent(bs, q),
{
    let nb = bs.push(b);
    let r = matched_rule(bs, q);
    assert forall|k: int| 0 <= k < r implies !has_match(nb, k, q) by {
        assert(!has_match(bs, k, q));
        if has_match(nb, k, q) {
            let i = choose|i: int| 0 <= i < nb.len() && rule_matches(k, #[trigger] nb[i], q);
            if i < bs.len() {
                assert(nb[i] == bs[i]);
            }
        }
    }
    if r < 5 {
        let i = choose|i: int| 0 <= i < bs.len() && rule_matches(r, #[trigger] bs[i], q);
        assert(nb[i] == bs[i]);
        assert(has_match(nb, r, q));
        let c = choose|c: int| is_first_match(bs, r, q, c);
        let d = choose|d: int| is_first_match(nb, r, q, d);
        lemma_first_exists(bs, r, q);
        assert(is_first_match(nb, r, q, c)) by {
            assert forall|j: int| 0 <= j < c implies !rule_matches(r, #[trigger] nb[j], q) by {
                assert(nb[j] == bs[j]);
            }
            assert(nb[c] == bs[c]);
        }
        assert(c == d) by {
            if d < c {
                assert(!rule_matches(r, nb[d], q));
            }
            if c < d {
                assert(!rule_matches(r, nb[c], q));
            }
        }
    } else {
        assert(!has_match(nb, 4, q)) by {
            if has_match(nb, 4, q) {
                let i = choose|i: int| 0 <= i < nb.len() && rule_matches(4, #[trigger] nb[i], q);
                if i < bs.len() {
                    assert(nb[i] == bs[i]);
                }
            }
        }
    }
}

proof fn lemma_first_exists(bs: Seq<BindingView>, rule: int, q: RouteQuery)
    requires
        has_match(bs, rule, q),
    ensures
        exists|c: int| is_first_match(bs, rule, q, c),
    decreases bs.len(),
{
    if rule_matches(rule, bs[0], q) {
        assert(is_first_match(bs, rule, q, 0));
    } else {
        let i = choose|i: int| 0 <= i < bs.len() && rule_matches(rule, #[trigger] bs[i], q);
        let t = bs.drop_first();
        assert(t[i - 1] == bs[i]);
        lemma_first_exists(t, rule, q);
        let c = choose|c: int| is_first_match(t, rule, q, c);
        assert forall|j: int| 0 <= j < c + 1 implies !rule_matches(rule, #[trigger] bs[j], q) by {
            if j > 0 {
                assert(bs[j] == t[j - 1]);
            }
        }
        assert(is_first_match(bs, rule, q, c + 1));
    }
}

} // verus!
