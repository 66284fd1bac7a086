//! Conversation memory: the episodic window, the semantic fact store, and
//! the context assembled from them for each call.
pub mod episodic;
pub mod extract;
pub mod semantic;
pub mod soul;

use vstd::prelude::*;
use vstd::string::*;
use crate::memory::episodic::{last_n, EpisodicMemory};
use crate::memory::extract::{facts_of_pieces, Fact, entity_from, extract_entities_at, is_ws, text_facts, trim, trim_end, trim_start, pieces};
use crate::memory::semantic::{lowercase, lower_of, ranked, store_spec, str_views, MemoryEntity, SemanticMemory};
use crate::memory::soul::SoulLoader;
use crate::text::push_char;
use crate::types::{Message, MessageContent};

verus! {

/// Whether a character is alphanumeric.
pub uninterp spec fn alnum_of(c: char) -> bool;

/// Relies on `char::is_alphanumeric`: a property of the character alone.
#[verifier::external_body]
fn is_alnum(c: char) -> (r: bool)
    ensures
        r == alnum_of(c),
{
    c.is_alphanumeric()
}

/// A finished word becomes a keyword when it kept more than two characters.
pub open spec fn flush(done: Seq<Seq<char>>, cur: Seq<char>) -> Seq<Seq<char>> {
    if cur.len() > 2 {
        done.push(lower_of(cur))
    } else {
        done
    }
}

/// The keywords found in `t` so far, and the alphanumeric characters of the word in progress.
pub open spec fn kw_state(t: Seq<char>) -> (Seq<Seq<char>>, Seq<char>)
    decreases t.len(),
{
    if t.len() == 0 {
        (Seq::empty(), Seq::empty())
    } else {
        let (d, c) = kw_state(t.drop_last());
        let x = t.last();
        if is_ws(x) {
            (flush(d, c), Seq::empty())
        } else if alnum_of(x) {
            (d, c.push(x))
        } else {
            (d, c)
        }
    }
}

/// The query keywords: each white-space separated word, reduced to its alphanumeric
/// characters, kept when longer than two characters, in lower case.
pub open spec fn keywords(t: Seq<char>) -> Seq<Seq<char>> {
    flush(kw_state(t).0, kw_state(t).1)
}

/// A query of at most two characters yields no keywords, so no facts.
pub proof fn lemma_short_query_no_keywords(t: Seq<char>)
    requires
        t.len() <= 2,
    ensures
        keywords(t).len() == 0,
{
    lemma_kw_state_bounds(t);
}

/// The alphanumeric characters of a word, in order.
pub open spec fn alnum_only(w: Seq<char>) -> Seq<char>
    decreases w.len(),
{
    if w.len() == 0 {
        Seq::empty()
    } else {
        let p = alnum_only(w.drop_last());
        if alnum_of(w.last()) {
            p.push(w.last())
        } else {
            p
        }
    }
}

/// The white-space separated words of a text (empty ones included).
pub open spec fn ws_words(t: Seq<char>) -> Seq<Seq<char>>
    decreases t.len(),
{
    if t.len() == 0 {
        seq![Seq::empty()]
    } else {
        let prev = ws_words(t.drop_last());
        if is_ws(t.last()) {
            prev.push(Seq::empty())
        } else {
            prev.update(prev.len() - 1, prev.last().push(t.last()))
        }
    }
}

/// The keywords of a list of words: each word's alphanumeric characters, when more
/// than two, in lower case.
pub open spec fn words_keywords(ws: Seq<Seq<char>>) -> Seq<Seq<char>>
    decreases ws.len(),
{
    if ws.len() == 0 {
        Seq::empty()
    } else {
        let prev = words_keywords(ws.drop_last());
        let a = alnum_only(ws.last());
        if a.len() > 2 {
            prev.push(lower_of(a))
        } else {
            prev
        }
    }
}

proof fn lemma_ws_words_nonempty(t: Seq<char>)
    ensures
        ws_words(t).len() >= 1,
    decreases t.len(),
{
    if t.len() > 0 {
        lemma_ws_words_nonempty(t.drop_last());
    }
}

proof fn lemma_kw_state_words(t: Seq<char>)
    ensures
        kw_state(t).0 == words_keywords(ws_words(t).drop_last()),
        kw_state(t).1 == alnum_only(ws_words(t).last()),
    decreases t.len(),
{
    lemma_ws_words_nonempty(t);
    if t.len() == 0 {
        assert(ws_words(t).drop_last() =~= Seq::<Seq<char>>::empty());
    } else {
        let u = t.drop_last();
        let x = t.last();
        lemma_kw_state_words(u);
        lemma_ws_words_nonempty(u);
        let w = ws_words(u);
        if is_ws(x) {
            assert(ws_words(t).drop_last() =~= w);
            assert(w.drop_last().push(w.last()) =~= w);
        } else {
            assert(ws_words(t).drop_last() =~= w.drop_last());
            assert(w.last().push(x).drop_last() =~= w.last());
        }
    }
}

/// The keywords of a query are the keywords of its white-space separated words.
pub proof fn lemma_keywords_are_word_keywords(t: Seq<char>)
    ensures
        keywords(t) == words_keywords(ws_words(t)),
{
    lemma_kw_state_words(t);
    lemma_ws_words_nonempty(t);
    let w = ws_words(t);
    assert(w.drop_last().push(w.last()) =~= w);
}

proof fn lemma_short_words_no_keywords(ws: Seq<Seq<char>>)
    requires
        forall|i: int| 0 <= i < ws.len() ==> (#[trigger] alnum_only(ws[i])).len() <= 2,
    ensures
        words_keywords(ws).len() == 0,
    decreases ws.len(),
{
    if ws.len() > 0 {
        let d = ws.drop_last();
        assert forall|i: int| 0 <= i < d.len() implies (#[trigger] alnum_only(d[i])).len() <= 2 by {
            assert(d[i] == ws[i]);
            assert(alnum_only(ws[i]).len() <= 2);
        }
        lemma_short_words_no_keywords(d);
        assert(alnum_only(ws[ws.len() - 1]).len() <= 2);
    }
}

/// A query none of whose words has more than two alphanumeric characters yields no
/// keywords, so no facts.
pub proof fn lemma_short_words_no_facts(t: Seq<char>)
    requires
        forall|i: int| 0 <= i < ws_words(t).len() ==> (#[trigger] alnum_only(ws_words(t)[i])).len()
            <= 2,
    ensures
        keywords(t).len() == 0,
{
    lemma_keywords_are_word_keywords(t);
    lemma_short_words_no_keywords(ws_words(t));
}

proof fn lemma_kw_state_bounds(t: Seq<char>)
    ensures
        kw_state(t).1.len() <= t.len(),
        t.len() <= 2 ==> kw_state(t).0.len() == 0,
    decreases t.len(),
{
    if t.len() > 0 {
        lemma_kw_state_bounds(t.drop_last());
    }
}

/// The keywords of a query.
pub fn query_keywords(query: &str) -> (r: Vec<String>)
    ensures
        r@.map_values(|s: String| s@) == keywords(query@),
{
    let n = query.unicode_len();
    let mut out: Vec<String> = Vec::new();
    let mut cur = String::new();
    let mut i: usize = 0;
    while i < n
        invariant
            n == query@.len(),
            i <= n,
            (out@.map_values(|s: String| s@), cur@) == kw_state(query@.subrange(0, i as int)),
        decreases n - i,
    {
        let c = query.get_char(i);
        let ghost t = query@.subrange(0, i + 1);
        assert(t.drop_last() =~= query@.subrange(0, i as int));
        if is_ws_char(c) {
            let ghost before = out@.map_values(|s: String| s@);
            if cur.unicode_len() > 2 {
                let l = lowercase(cur.as_str());
                out.push(l);
                assert(out@.map_values(|s: String| s@) =~= before.push(lower_of(cur@)));
            }
            cur = String::new();
        } else if is_alnum(c) {
            push_char(&mut cur, c);
        }
        i = i + 1;
    }
    assert(query@.subrange(0, n as int) =~= query@);
    let ghost before = out@.map_values(|s: String| s@);
    if cur.unicode_len() > 2 {
        let l = lowercase(cur.as_str());
        out.push(l);
        assert(out@.map_values(|s: String| s@) =~= before.push(lower_of(cur@)));
    }
    out
}

fn is_ws_char(c: char) -> (r: bool)
    ensures
        r == is_ws(c),
{
    ('\u{9}' <= c && c <= '\u{d}') || c == ' ' || c == '\u{85}' || c == '\u{a0}' || c
        == '\u{1680}' || ('\u{2000}' <= c && c <= '\u{200a}') || c == '\u{2028}' || c
        == '\u{2029}' || c == '\u{202f}' || c == '\u{205f}' || c == '\u{3000}'
}

/// `{subject}'s {predicate}: {object}`.
pub open spec fn fact_line(e: MemoryEntity) -> Seq<char> {
    e.subject@ + "'s "@ + e.predicate@ + ": "@ + e.object@
}

/// The fact lines, one per entity, separated by new lines.
pub open spec fn fact_lines(es: Seq<MemoryEntity>) -> Seq<char>
    decreases es.len(),
{
    if es.len() == 0 {
        Seq::empty()
    } else if es.len() == 1 {
        fact_line(es[0])
    } else {
        fact_lines(es.drop_last()) + "\n"@ + fact_line(es.last())
    }
}

/// At most the first ten.
pub open spec fn first_ten(es: Seq<MemoryEntity>) -> Seq<MemoryEntity> {
    if es.len() <= 10 {
        es
    } else {
        es.subrange(0, 10)
    }
}

/// A system message with this text, stamped `now`.
pub open spec fn is_system_text(m: Message, text: Seq<char>, now: i64) -> bool {
    &&& m.role@ == "system"@
    &&& m.content matches MessageContent::Text { text: t } && t@ == text
    &&& m.timestamp == now
    &&& m.token_count is None
}

/// The text of a text message; empty for the other kinds.
pub open spec fn text_of(m: Message) -> Seq<char> {
    match m.content {
        MessageContent::Text { text } => text@,
        _ => Seq::empty(),
    }
}

/// `es` are the entities extracted from `text` for `key` at `now`.
pub open spec fn extracted(es: Seq<MemoryEntity>, text: Seq<char>, key: Seq<char>, now: i64) -> bool {
    es.len() == text_facts(text).len() && forall|i: int|
        0 <= i < es.len() ==> entity_from(#[trigger] es[i], text_facts(text)[i], key, now)
}

/// Storing each of `items` in turn at `now`.
pub open spec fn store_all(es: Seq<MemoryEntity>, items: Seq<MemoryEntity>, now: i64) -> Seq<
    MemoryEntity,
>
    decreases items.len(),
{
    if items.len() == 0 {
        es
    } else {
        store_spec(store_all(es, items.drop_last(), now), items.last(), now)
    }
}

/// The three memory layers of the gateway.
pub struct MemoryEngine {
    pub episodic: EpisodicMemory,
    pub semantic: SemanticMemory,
    pub soul: SoulLoader,
}

impl MemoryEngine {
    pub open spec fn wf(&self) -> bool {
        self.episodic.wf() && self.semantic.wf()
    }

    /// An engine keeping `episodic_window` turns, storing facts when `semantic_enabled`.
    pub fn new(episodic_window: usize, semantic_enabled: bool) -> (r: Self)
        requires
            episodic_window <= usize::MAX / 2,
        ensures
            r.wf(),
            r.episodic.turns() == episodic_window,
            forall|k: Seq<char>| r.episodic.window(k) == Seq::<Message>::empty(),
            r.semantic.enabled() == semantic_enabled,
            r.semantic.entity_list() == Seq::<MemoryEntity>::empty(),
            forall|a: Seq<char>| r.soul.content_of(a) is None,
    {
        MemoryEngine {
            episodic: EpisodicMemory::new(episodic_window),
            semantic: SemanticMemory::new(semantic_enabled),
            soul: SoulLoader::new(),
        }
    }

    fn facts_text(es: &Vec<MemoryEntity>) -> (r: String)
        ensures
            r@ == "Known facts:\n"@ + fact_lines(first_ten(es@)),
    {
        let mut r = "Known facts:\n".to_owned();
        let ghost head = r@;
        let n: usize = if es.len() < 10 {
            es.len()
        } else {
            10
        };
        let mut i: usize = 0;
        while i < n
            invariant
                n <= es@.len(),
                n == first_ten(es@).len(),
                i <= n,
                r@ == head + fact_lines(es@.subrange(0, i as int)),
            decreases n - i,
        {
            let ghost sub = es@.subrange(0, i + 1);
            assert(sub.drop_last() =~= es@.subrange(0, i as int));
            let e = &es[i];
            if i > 0 {
                r.append("\n");
            }
            r.append(e.subject.as_str());
            r.append("'s ");
            r.append(e.predicate.as_str());
            r.append(": ");
            r.append(e.object.as_str());
            proof {
                if i == 0 {
                    assert(fact_lines(es@.subrange(0, 0)) =~= Seq::<char>::empty());
                    assert(head + Seq::<char>::empty() =~= head);
                }
            }
            i = i + 1;
        }
        assert(es@.subrange(0, n as int) =~= first_ten(es@));
        r
    }

    /// The context for a call, stamped `now`: the agent's soul document as a system
    /// message if one is set; then, when facts are kept and the query has keywords that
    /// match facts, a system message listing the ten most relevant; then the session's
    /// episodic window.
    pub fn assemble_context_at(&self, session_key: &str, agent_id: &str, query: &str, now: i64) -> (r:
        Vec<Message>)
        requires
            self.wf(),
        ensures
            ({
                let soul = self.soul.content_of(agent_id@);
                let ns: int = if soul is Some {
                    1
                } else {
                    0
                };
                let kws = keywords(query@);
                let rel = ranked(self.semantic.entity_list(), kws, kws.len());
                let nf: int = if self.semantic.enabled() && kws.len() > 0 && rel.len() > 0 {
                    1
                } else {
                    0
                };
                let w = self.episodic.window(session_key@);
                &&& r@.len() == ns + nf + w.len()
                &&& soul is Some ==> is_system_text(r@[0], soul->0, now)
                &&& nf == 1 ==> is_system_text(
                    r@[ns],
                    "Known facts:\n"@ + fact_lines(first_ten(rel)),
                    now,
                )
                &&& forall|i: int| 0 <= i < w.len() ==> r@[ns + nf + i] == w[i]
            }),
    {
        let mut context: Vec<Message> = Vec::new();
        match self.soul.get_content(agent_id) {
            Some(c) => {
                context.push(
                    Message {
                        role: "system".to_owned(),
                        content: MessageContent::Text { text: c },
                        timestamp: now,
                        token_count: None,
                    },
                );
            },
            None => {},
        }
        let ghost ns = context@.len();
        if self.semantic.is_enabled() {
            let kws = query_keywords(query);
            if kws.len() > 0 {
                let mut refs: Vec<&str> = Vec::new();
                let mut k: usize = 0;
                while k < kws.len()
                    invariant
                        k <= kws@.len(),
                        str_views(refs@) == kws@.map_values(|s: String| s@).subrange(0, k as int),
                    decreases kws@.len() - k,
                {
                    let ghost before = str_views(refs@);
                    refs.push(kws[k].as_str());
                    assert(str_views(refs@) =~= before.push(kws@[k as int]@));
                    assert(kws@.map_values(|s: String| s@).subrange(0, k + 1) =~= kws@.map_values(
                        |s: String| s@,
                    ).subrange(0, k as int).push(kws@[k as int]@));
                    k = k + 1;
                }
                assert(kws@.map_values(|s: String| s@).subrange(0, kws@.len() as int)
                    =~= kws@.map_values(|s: String| s@));
                let relevant = self.semantic.query_relevant(refs.as_slice());
                if relevant.len() > 0 {
                    let text = Self::facts_text(&relevant);
                    context.push(
                        Message {
                            role: "system".to_owned(),
                            content: MessageContent::Text { text },
                            timestamp: now,
                            token_count: None,
                        },
                    );
                }
            }
        }
        let ghost head = context@;
        let recent = self.episodic.all(session_key);
        let mut i: usize = 0;
        while i < recent.len()
            invariant
                i <= recent@.len(),
                context@ == head + recent@.subrange(0, i as int),
            decreases recent@.len() - i,
        {
            context.push(recent[i].duplicate());
            assert(context@ =~= head + recent@.subrange(0, i + 1));
            i = i + 1;
        }
        assert(recent@.subrange(0, recent@.len() as int) =~= recent@);
        context
    }

    /// [`Self::assemble_context_at`] at the current time.
    pub fn assemble_context(&self, session_key: &str, agent_id: &str, query: &str) -> (r: Vec<
        Message,
    >)
        requires
            self.wf(),
        ensures
            ({
                let soul = self.soul.content_of(agent_id@);
                let ns: int = if soul is Some {
                    1
                } else {
                    0
                };
                let kws = keywords(query@);
                let rel = ranked(self.semantic.entity_list(), kws, kws.len());
                let nf: int = if self.semantic.enabled() && kws.len() > 0 && rel.len() > 0 {
                    1
                } else {
                    0
                };
                let w = self.episodic.window(session_key@);
                &&& r@.len() == ns + nf + w.len()
                &&& soul is Some ==> is_system_text(r@[0], soul->0, r@[0].timestamp)
                &&& nf == 1 ==> is_system_text(
                    r@[ns],
                    "Known facts:\n"@ + fact_lines(first_ten(rel)),
                    r@[ns].timestamp,
                )
                &&& forall|i: int| 0 <= i < w.len() ==> r@[ns + nf + i] == w[i]
            }),
    {
        self.assemble_context_at(session_key, agent_id, query, crate::metering::now_secs())
    }

    fn learn(&mut self, session_key: &str, m: &Message, now: i64) -> (items: Ghost<Seq<MemoryEntity>>)
        requires
            old(self).wf(),
        ensures
            final(self).wf(),
            final(self).episodic == old(self).episodic,
            final(self).soul == old(self).soul,
            final(self).semantic.enabled() == old(self).semantic.enabled(),
            extracted(items@, text_of(*m), session_key@, now),
            final(self).semantic.entity_list() == if old(self).semantic.enabled() {
                store_all(old(self).semantic.entity_list(), items@, now)
            } else {
                old(self).semantic.entity_list()
            },
    {
        match &m.content {
            MessageContent::Text { text } => {
                let es = extract_entities_at(text.as_str(), session_key, now);
                let ghost start = self.semantic.entity_list();
                let mut i: usize = 0;
                while i < es.len()
                    invariant
                        self.wf(),
                        self.episodic == old(self).episodic,
                        self.soul == old(self).soul,
                        self.semantic.enabled() == old(self).semantic.enabled(),
                        start == old(self).semantic.entity_list(),
                        i <= es@.len(),
                        self.semantic.entity_list() == if self.semantic.enabled() {
                            store_all(start, es@.subrange(0, i as int), now)
                        } else {
                            start
                        },
                    decreases es@.len() - i,
                {
                    assert(es@.subrange(0, i + 1).drop_last() =~= es@.subrange(0, i as int));
                    self.semantic.store_at(es[i].duplicate(), now);
                    i = i + 1;
                }
                assert(es@.subrange(0, es@.len() as int) =~= es@);
                Ghost(es@)
            },
            _ => {
                proof {
                    lemma_no_text_no_facts();
                }
                assert(store_all(self.semantic.entity_list(), Seq::<MemoryEntity>::empty(), now)
                    == self.semantic.entity_list());
                Ghost(Seq::empty())
            },
        }
    }

    /// After a turn: appends both messages to the session's window, then stores the
    /// facts extracted from the user's text and then from the assistant's, at `now`.
    pub fn process_response_at(
        &mut self,
        session_key: &str,
        user_message: &Message,
        assistant_message: &Message,
        now: i64,
    )
        requires
            old(self).wf(),
        ensures
            final(self).wf(),
            final(self).episodic.window(session_key@) == last_n(
                last_n(
                    old(self).episodic.window(session_key@).push(*user_message),
                    2 * old(self).episodic.turns(),
                ).push(*assistant_message),
                2 * old(self).episodic.turns(),
            ),
            forall|k: Seq<char>|
                k != session_key@ ==> final(self).episodic.window(k) == old(self).episodic.window(
                    k,
                ),
            final(self).episodic.turns() == old(self).episodic.turns(),
            final(self).semantic.enabled() == old(self).semantic.enabled(),
            !old(self).semantic.enabled() ==> final(self).semantic.entity_list() == old(
                self,
            ).semantic.entity_list(),
            old(self).semantic.enabled() ==> exists|eu: Seq<MemoryEntity>, ea: Seq<MemoryEntity>|
                extracted(eu, text_of(*user_message), session_key@, now) && extracted(
                    ea,
                    text_of(*assistant_message),
                    session_key@,
                    now,
                ) && final(self).semantic.entity_list() == #[trigger] store_all(
                    store_all(old(self).semantic.entity_list(), eu, now),
                    ea,
                    now,
                ),
    {
        self.episodic.append(session_key, user_message.duplicate());
        self.episodic.append(session_key, assistant_message.duplicate());
        let eu = self.learn(session_key, user_message, now);
        let ea = self.learn(session_key, assistant_message, now);
        assert(old(self).semantic.enabled() ==> self.semantic.entity_list() == store_all(
            store_all(old(self).semantic.entity_list(), eu@, now),
            ea@,
            now,
        ));
    }

    /// [`Self::process_response_at`] at the current time.
    pub fn process_response(&mut self, session_key: &str, user_message: &Message, assistant_message: &Message)
        requires
            old(self).wf(),
        ensures
            final(self).wf(),
            final(self).episodic.window(session_key@) == last_n(
                last_n(
                    old(self).episodic.window(session_key@).push(*user_message),
                    2 * old(self).episodic.turns(),
                ).push(*assistant_message),
                2 * old(self).episodic.turns(),
            ),
            final(self).semantic.enabled() == old(self).semantic.enabled(),
            !old(self).semantic.enabled() ==> final(self).semantic.entity_list() == old(
                self,
            ).semantic.entity_list(),
            old(self).semantic.enabled() ==> exists|
                now: i64,
                eu: Seq<MemoryEntity>,
                ea: Seq<MemoryEntity>,
            |
                extracted(eu, text_of(*user_message), session_key@, now) && extracted(
                    ea,
                    text_of(*assistant_message),
                    session_key@,
                    now,
                ) && final(self).semantic.entity_list() == #[trigger] store_all(
                    store_all(old(self).semantic.entity_list(), eu, now),
                    ea,
                    now,
                ),
    {
        self.process_response_at(session_key, user_message, assistant_message, crate::metering::now_secs());
    }

    /// Appends one message to the session's window, with no fact extraction.
    pub fn append_to_episodic(&mut self, session_key: &str, message: Message)
        requires
            old(self).wf(),
        ensures
            final(self).wf(),
            final(self).episodic.window(session_key@) == last_n(
                old(self).episodic.window(session_key@).push(message),
                2 * old(self).episodic.turns(),
            ),
            final(self).semantic == old(self).semantic,
    {
        self.episodic.append(session_key, message);
    }
}

proof fn lemma_no_text_no_facts()
    ensures
        text_facts(Seq::<char>::empty()).len() == 0,
{
    let e = Seq::<char>::empty();
    assert(pieces(e) == seq![e]);
    assert(trim_start(e) == e);
    assert(trim_end(e) == e);
    assert(trim(e).len() == 0);
    assert(seq![e].drop_last() =~= Seq::<Seq<char>>::empty());
    assert(seq![e].last() == e);
    assert(facts_of_pieces(Seq::<Seq<char>>::empty()) == Seq::<Fact>::empty());
    assert(facts_of_pieces(seq![e]) =~= Seq::<Fact>::empty() + Seq::<Fact>::empty());
}

} // verus!
