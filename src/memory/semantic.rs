//! The long-term fact store: subject–predicate–object facts, at most one active
//! per (subject, predicate), newer facts superseding older ones.
use vstd::prelude::*;
use vstd::string::*;
use crate::text::{contains, find_from, str_eq};
pub use crate::memory::extract::extract_entities;

verus! {

/// A fact learned from conversation.
#[derive(Debug, Clone)]
pub struct MemoryEntity {
    pub id: String,
    pub entity_type: String,
    pub subject: String,
    pub predicate: String,
    pub object: String,
    pub session_key: String,
    /// Seconds since the epoch.
    pub learned_at: i64,
    pub superseded_at: Option<i64>,
    pub superseded_by: Option<String>,
    /// Confidence in percent.
    pub confidence_pct: u8,
}

impl MemoryEntity {
    /// Not superseded.
    pub open spec fn active(&self) -> bool {
        self.superseded_at is None
    }

    /// Same subject and predicate.
    pub open spec fn same_key(&self, subject: Seq<char>, predicate: Seq<char>) -> bool {
        self.subject@ == subject && self.predicate@ == predicate
    }

    /// An equal copy.
    pub fn duplicate(&self) -> (r: Self)
        ensures
            r == *self,
    {
        MemoryEntity {
            id: self.id.clone(),
            entity_type: self.entity_type.clone(),
            subject: self.subject.clone(),
            predicate: self.predicate.clone(),
            object: self.object.clone(),
            session_key: self.session_key.clone(),
            learned_at: self.learned_at,
            superseded_at: self.superseded_at,
            superseded_by: match &self.superseded_by {
                Some(s) => Some(s.clone()),
                None => None,
            },
            confidence_pct: self.confidence_pct,
        }
    }
}

/// `e` marked as superseded at `now` by the entity with id `by`.
pub open spec fn superseded(e: MemoryEntity, now: i64, by: String) -> MemoryEntity {
    MemoryEntity { superseded_at: Some(now), superseded_by: Some(by), ..e }
}

/// At most one active entity per (subject, predicate).
pub open spec fn one_active_per_key(es: Seq<MemoryEntity>) -> bool {
    forall|i: int, j: int|
        0 <= i < es.len() && 0 <= j < es.len() && i != j && (#[trigger] es[i]).active() && (
        #[trigger] es[j]).active() ==> !es[j].same_key(es[i].subject@, es[i].predicate@)
}

/// `i` is the active entity with this subject and predicate.
pub open spec fn is_active_for(es: Seq<MemoryEntity>, s: Seq<char>, p: Seq<char>, i: int) -> bool {
    0 <= i < es.len() && es[i].active() && es[i].same_key(s, p)
}

/// What storing `e` at time `now` does to the entity list.
pub open spec fn store_spec(es: Seq<MemoryEntity>, e: MemoryEntity, now: i64) -> Seq<MemoryEntity> {
    if exists|i: int| is_active_for(es, e.subject@, e.predicate@, i) {
        let i = choose|i: int| is_active_for(es, e.subject@, e.predicate@, i);
        es.update(i, superseded(es[i], now, e.id)).push(e)
    } else {
        es.push(e)
    }
}

/// The active entities with this subject and predicate, in storage order.
pub open spec fn query_spec(es: Seq<MemoryEntity>, s: Seq<char>, p: Seq<char>) -> Seq<MemoryEntity>
    decreases es.len(),
{
    if es.len() == 0 {
        Seq::empty()
    } else {
        let prev = query_spec(es.drop_last(), s, p);
        if es.last().active() && es.last().same_key(s, p) {
            prev.push(es.last())
        } else {
            prev
        }
    }
}

/// The active entities with this subject, in storage order.
pub open spec fn subject_spec(es: Seq<MemoryEntity>, s: Seq<char>) -> Seq<MemoryEntity>
    decreases es.len(),
{
    if es.len() == 0 {
        Seq::empty()
    } else {
        let prev = subject_spec(es.drop_last(), s);
        if es.last().active() && es.last().subject@ == s {
            prev.push(es.last())
        } else {
            prev
        }
    }
}

/// The active entities, in storage order.
pub open spec fn active_spec(es: Seq<MemoryEntity>) -> Seq<MemoryEntity>
    decreases es.len(),
{
    if es.len() == 0 {
        Seq::empty()
    } else {
        let prev = active_spec(es.drop_last());
        if es.last().active() {
            prev.push(es.last())
        } else {
            prev
        }
    }
}

/// The lower-case form of a text.
pub uninterp spec fn lower_of(s: Seq<char>) -> Seq<char>;

/// Relies on `str::to_lowercase`: the result depends on the characters alone.
#[verifier::external_body]
pub(crate) fn lowercase(s: &str) -> (r: String)
    ensures
        r@ == lower_of(s@),
{
    s.to_lowercase()
}

/// `a` contains `b` or `b` contains `a`.
pub open spec fn either_contains(a: Seq<char>, b: Seq<char>) -> bool {
    contains(a, b) || contains(b, a)
}

/// A keyword matches an entity: case-insensitively, it contains or is contained
/// in its subject, predicate or object.
pub open spec fn keyword_hits(e: MemoryEntity, kw: Seq<char>) -> bool {
    either_contains(lower_of(e.subject@), lower_of(kw)) || either_contains(
        lower_of(e.predicate@),
        lower_of(kw),
    ) || either_contains(lower_of(e.object@), lower_of(kw))
}

/// The number of keywords that match an entity.
pub open spec fn score(e: MemoryEntity, kws: Seq<Seq<char>>) -> nat
    decreases kws.len(),
{
    if kws.len() == 0 {
        0
    } else {
        score(e, kws.drop_last()) + if keyword_hits(e, kws.last()) {
            1nat
        } else {
            0nat
        }
    }
}

/// The active entities whose score is exactly `s`, in storage order.
pub open spec fn with_score(es: Seq<MemoryEntity>, kws: Seq<Seq<char>>, s: nat) -> Seq<
    MemoryEntity,
>
    decreases es.len(),
{
    if es.len() == 0 {
        Seq::empty()
    } else {
        let prev = with_score(es.drop_last(), kws, s);
        if es.last().active() && score(es.last(), kws) == s {
            prev.push(es.last())
        } else {
            prev
        }
    }
}

/// The active entities with a score between 1 and `s`, highest score first,
/// storage order among equal scores.
pub open spec fn ranked(es: Seq<MemoryEntity>, kws: Seq<Seq<char>>, s: nat) -> Seq<MemoryEntity>
    decreases s,
{
    if s == 0 {
        Seq::empty()
    } else {
        with_score(es, kws, s) + ranked(es, kws, (s - 1) as nat)
    }
}

pub open spec fn str_views(v: Seq<&str>) -> Seq<Seq<char>> {
    v.map_values(|s: &str| s@)
}

/// In-memory fact store.
pub struct SemanticMemory {
    entities: Vec<MemoryEntity>,
    enabled: bool,
}

impl SemanticMemory {
    pub closed spec fn entity_list(&self) -> Seq<MemoryEntity> {
        self.entities@
    }

    pub closed spec fn enabled(&self) -> bool {
        self.enabled
    }

    /// At most one active entity per (subject, predicate).
    pub open spec fn wf(&self) -> bool {
        one_active_per_key(self.entity_list())
    }

    pub fn new(enabled: bool) -> (r: Self)
        ensures
            r.wf(),
            r.enabled() == enabled,
            r.entity_list() == Seq::<MemoryEntity>::empty(),
    {
        SemanticMemory { entities: Vec::new(), enabled }
    }

    pub fn is_enabled(&self) -> (r: bool)
        ensures
            r == self.enabled(),
    {
        self.enabled
    }

    fn find_active(&self, subject: &str, predicate: &str) -> (r: Option<usize>)
        requires
            self.wf(),
        ensures
            match r {
                Some(i) => is_active_for(self.entities@, subject@, predicate@, i as int),
                None => !exists|i: int| is_active_for(self.entities@, subject@, predicate@, i),
            },
    {
        let mut i: usize = 0;
        while i < self.entities.len()
            invariant
                i <= self.entities@.len(),
                forall|j: int| 0 <= j < i ==> !is_active_for(self.entities@, subject@, predicate@, j),
            decreases self.entities@.len() - i,
        {
            let e = &self.entities[i];
            if e.superseded_at.is_none() && str_eq(e.subject.as_str(), subject) && str_eq(
                e.predicate.as_str(),
                predicate,
            ) {
                return Some(i);
            }
            i = i + 1;
        }
        None
    }

    /// Stores an entity at time `now`; an active entity with the same subject and
    /// predicate is marked superseded at `now` by the new one. Does nothing when disabled.
    pub fn store_at(&mut self, entity: MemoryEntity, now: i64)
        requires
            old(self).wf(),
        ensures
            final(self).wf(),
            final(self).enabled() == old(self).enabled(),
            final(self).entity_list() == if old(self).enabled() {
                store_spec(old(self).entity_list(), entity, now)
            } else {
                old(self).entity_list()
            },
            old(self).enabled() ==> stored_explicitly(old(self).entity_list(), final(self).entity_list(), entity, now),
    {
        proof {
            if old(self).enabled() {
                lemma_store_explicit(old(self).entity_list(), entity, now);
            }
        }
        if !self.enabled {
            return;
        }
        let ghost es = self.entities@;
        match self.find_active(entity.subject.as_str(), entity.predicate.as_str()) {
            Some(i) => {
                proof {
                    let c = choose|c: int| is_active_for(es, entity.subject@, entity.predicate@, c);
                    if c != i {
                        assert(es[c].same_key(es[i as int].subject@, es[i as int].predicate@));
                    }
                }
                let e = &self.entities[i];
                let marked = MemoryEntity {
                    id: e.id.clone(),
                    entity_type: e.entity_type.clone(),
                    subject: e.subject.clone(),
                    predicate: e.predicate.clone(),
                    object: e.object.clone(),
                    session_key: e.session_key.clone(),
                    learned_at: e.learned_at,
                    superseded_at: Some(now),
                    superseded_by: Some(entity.id.clone()),
                    confidence_pct: e.confidence_pct,
                };
                assert(marked == superseded(es[i as int], now, entity.id));
                self.entities.set(i, marked);
                self.entities.push(entity);
                proof {
                    let ns = self.entities@;
                    assert forall|a: int, b: int|
                        0 <= a < ns.len() && 0 <= b < ns.len() && a != b && (#[trigger] ns[a]).active()
                            && (#[trigger] ns[b]).active() implies !ns[b].same_key(
                        ns[a].subject@,
                        ns[a].predicate@,
                    ) by {
                        let last = ns.len() - 1;
                        if a != last && b != last {
                            assert(ns[a] == es[a] && ns[b] == es[b]);
                        } else if a == last {
                            assert(ns[b] == es[b]);
                            assert(b != i);
                        } else {
                            assert(ns[a] == es[a]);
                            assert(a != i);
                        }
                    }
                }
            },
            None => {
                self.entities.push(entity);
                proof {
                    let ns = self.entities@;
                    assert forall|a: int, b: int|
                        0 <= a < ns.len() && 0 <= b < ns.len() && a != b && (#[trigger] ns[a]).active()
                            && (#[trigger] ns[b]).active() implies !ns[b].same_key(
                        ns[a].subject@,
                        ns[a].predicate@,
                    ) by {
                        let last = ns.len() - 1;
                        if a != last && b != last {
                            assert(ns[a] == es[a] && ns[b] == es[b]);
                        } else if a == last {
                            assert(ns[b] == es[b]);
                            assert(!is_active_for(es, entity.subject@, entity.predicate@, b));
                        } else {
                            assert(ns[a] == es[a]);
                            assert(!is_active_for(es, entity.subject@, entity.predicate@, a));
                        }
                    }
                }
            },
        }
    }

    /// [`Self::store_at`] at the current time.
    pub fn store(&mut self, entity: MemoryEntity)
        requires
            old(self).wf(),
        ensures
            final(self).wf(),
            final(self).enabled() == old(self).enabled(),
            !old(self).enabled() ==> final(self).entity_list() == old(self).entity_list(),
            old(self).enabled() ==> exists|now: i64|
                final(self).entity_list() == store_spec(old(self).entity_list(), entity, now),
    {
        let now = crate::metering::now_secs();
        self.store_at(entity, now);
    }

    /// The active entities with this subject and predicate.
    pub fn query(&self, subject: &str, predicate: &str) -> (r: Vec<MemoryEntity>)
        ensures
            r@ == query_spec(self.entity_list(), subject@, predicate@),
    {
        let mut out: Vec<MemoryEntity> = Vec::new();
        let mut i: usize = 0;
        while i < self.entities.len()
            invariant
                i <= self.entities@.len(),
                out@ == query_spec(self.entities@.subrange(0, i as int), subject@, predicate@),
            decreases self.entities@.len() - i,
        {
            assert(self.entities@.subrange(0, i + 1).drop_last() =~= self.entities@.subrange(
                0,
                i as int,
            ));
            let e = &self.entities[i];
            if e.superseded_at.is_none() && str_eq(e.subject.as_str(), subject) && str_eq(
                e.predicate.as_str(),
                predicate,
            ) {
                out.push(e.duplicate());
            }
            i = i + 1;
        }
        assert(self.entities@.subrange(0, self.entities@.len() as int) =~= self.entities@);
        out
    }

    /// The active entities with this subject.
    pub fn query_subject(&self, subject: &str) -> (r: Vec<MemoryEntity>)
        ensures
            r@ == subject_spec(self.entity_list(), subject@),
    {
        let mut out: Vec<MemoryEntity> = Vec::new();
        let mut i: usize = 0;
        while i < self.entities.len()
            invariant
                i <= self.entities@.len(),
                out@ == subject_spec(self.entities@.subrange(0, i as int), subject@),
            decreases self.entities@.len() - i,
        {
            assert(self.entities@.subrange(0, i + 1).drop_last() =~= self.entities@.subrange(
                0,
                i as int,
            ));
            let e = &self.entities[i];
            if e.superseded_at.is_none() && str_eq(e.subject.as_str(), subject) {
                out.push(e.duplicate());
            }
            i = i + 1;
        }
        assert(self.entities@.subrange(0, self.entities@.len() as int) =~= self.entities@);
        out
    }

    /// Every active entity.
    pub fn all_active(&self) -> (r: Vec<MemoryEntity>)
        ensures
            r@ == active_spec(self.entity_list()),
    {
        let mut out: Vec<MemoryEntity> = Vec::new();
        let mut i: usize = 0;
        while i < self.entities.len()
            invariant
                i <= self.entities@.len(),
                out@ == active_spec(self.entities@.subrange(0, i as int)),
            decreases self.entities@.len() - i,
        {
            assert(self.entities@.subrange(0, i + 1).drop_last() =~= self.entities@.subrange(
                0,
                i as int,
            ));
            let e = &self.entities[i];
            if e.superseded_at.is_none() {
                out.push(e.duplicate());
            }
            i = i + 1;
        }
        assert(self.entities@.subrange(0, self.entities@.len() as int) =~= self.entities@);
        out
    }

    /// The number of entities, superseded ones included.
    pub fn count(&self) -> (r: usize)
        ensures
            r == self.entity_list().len(),
    {
        self.entities.len()
    }

    /// The number of active entities.
    pub fn active_count(&self) -> (r: usize)
        ensures
            r == active_spec(self.entity_list()).len(),
    {
        self.all_active().len()
    }

    fn hits(e: &MemoryEntity, kw_lower: &str) -> (r: bool)
        ensures
            r == (either_contains(lower_of(e.subject@), kw_lower@) || either_contains(
                lower_of(e.predicate@),
                kw_lower@,
            ) || either_contains(lower_of(e.object@), kw_lower@)),
    {
        let s = lowercase(e.subject.as_str());
        let p = lowercase(e.predicate.as_str());
        let o = lowercase(e.object.as_str());
        has(s.as_str(), kw_lower) || has(kw_lower, s.as_str()) || has(p.as_str(), kw_lower) || has(
            kw_lower,
            p.as_str(),
        ) || has(o.as_str(), kw_lower) || has(kw_lower, o.as_str())
    }

    fn entity_score(e: &MemoryEntity, keywords: &[&str]) -> (r: usize)
        ensures
            r == score(*e, str_views(keywords@)),
            r <= keywords@.len(),
    {
        let mut n: usize = 0;
        let mut i: usize = 0;
        while i < keywords.len()
            invariant
                i <= keywords@.len(),
                n <= i,
                n == score(*e, str_views(keywords@.subrange(0, i as int))),
            decreases keywords@.len() - i,
        {
            assert(str_views(keywords@.subrange(0, i + 1)).drop_last() =~= str_views(
                keywords@.subrange(0, i as int),
            ));
            let k = lowercase(keywords[i]);
            if Self::hits(e, k.as_str()) {
                n = n + 1;
            }
            i = i + 1;
        }
        assert(keywords@.subrange(0, keywords@.len() as int) =~= keywords@);
        n
    }

    /// The active entities that at least one keyword matches, most matches first;
    /// entities with equally many matches keep their storage order.
    pub fn query_relevant(&self, keywords: &[&str]) -> (r: Vec<MemoryEntity>)
        ensures
            r@ == ranked(self.entity_list(), str_views(keywords@), keywords@.len()),
    {
        let ghost kws = str_views(keywords@);
        let mut scores: Vec<usize> = Vec::new();
        let mut i: usize = 0;
        while i < self.entities.len()
            invariant
                kws == str_views(keywords@),
                i <= self.entities@.len(),
                scores@.len() == i,
                forall|j: int| 0 <= j < i ==> scores@[j] == score(#[trigger] self.entities@[j], kws),
            decreases self.entities@.len() - i,
        {
            let s = Self::entity_score(&self.entities[i], keywords);
            scores.push(s);
            i = i + 1;
        }
        let mut out: Vec<MemoryEntity> = Vec::new();
        let mut level: usize = keywords.len();
        while level > 0
            invariant
                kws == str_views(keywords@),
                level <= keywords@.len(),
                scores@.len() == self.entities@.len(),
                forall|j: int|
                    0 <= j < scores@.len() ==> scores@[j] == score(#[trigger] self.entities@[j], kws),
                out@ + ranked(self.entities@, kws, level as nat) == ranked(
                    self.entities@,
                    kws,
                    keywords@.len(),
                ),
            decreases level,
        {
            let ghost before = out@;
            let mut j: usize = 0;
            while j < self.entities.len()
                invariant
                    kws == str_views(keywords@),
                    0 < level <= keywords@.len(),
                    j <= self.entities@.len(),
                    scores@.len() == self.entities@.len(),
                    forall|k: int|
                        0 <= k < scores@.len() ==> scores@[k] == score(
                            #[trigger] self.entities@[k],
                            kws,
                        ),
                    out@ == before + with_score(
                        self.entities@.subrange(0, j as int),
                        kws,
                        level as nat,
                    ),
                decreases self.entities@.len() - j,
            {
                assert(self.entities@.subrange(0, j + 1).drop_last() =~= self.entities@.subrange(
                    0,
                    j as int,
                ));
                let e = &self.entities[j];
                if e.superseded_at.is_none() && scores[j] == level {
                    out.push(e.duplicate());
                    assert(out@ =~= before + with_score(
                        self.entities@.subrange(0, j + 1),
                        kws,
                        level as nat,
                    ));
                }
                j = j + 1;
            }
            assert(self.entities@.subrange(0, self.entities@.len() as int) =~= self.entities@);
            assert(ranked(self.entities@, kws, level as nat) =~= with_score(
                self.entities@,
                kws,
                level as nat,
            ) + ranked(self.entities@, kws, (level - 1) as nat));
            assert(out@ + ranked(self.entities@, kws, (level - 1) as nat) =~= before + ranked(
                self.entities@,
                kws,
                level as nat,
            ));
            level = level - 1;
        }
        assert(out@ + ranked(self.entities@, kws, 0) =~= out@);
        out
    }
}

fn has(s: &str, p: &str) -> (r: bool)
    ensures
        r == contains(s@, p@),
{
    match find_from(s, p, 0) {
        Some(_) => true,
        None => false,
    }
}

/// Storing `(s, p, o1)` and then `(s, p, o2)` leaves `(s, p, o2)` as the only
/// active answer for `(s, p)`, and the entity stored first is superseded by it.
pub proof fn lemma_supersession(
    es: Seq<MemoryEntity>,
    e1: MemoryEntity,
    e2: MemoryEntity,
    t1: i64,
    t2: i64,
)
    requires
        one_active_per_key(es),
        e1.active(),
        e2.active(),
        e2.subject@ == e1.subject@,
        e2.predicate@ == e1.predicate@,
    ensures
        query_spec(store_spec(store_spec(es, e1, t1), e2, t2), e1.subject@, e1.predicate@)
            == seq![e2],
        store_spec(store_spec(es, e1, t1), e2, t2)[es.len() as int].superseded_by == Some(e2.id),
{
    let s = e1.subject@;
    let p = e1.predicate@;
    let es1 = store_spec(es, e1, t1);
    lemma_store_keeps_one_active(es, e1, t1);
    assert(is_active_for(es1, s, p, es.len() as int));
    let c = choose|c: int| is_active_for(es1, s, p, c);
    assert(c == es.len()) by {
        if c != es.len() {
            assert(es1[c].same_key(es1[es.len() as int].subject@, es1[es.len() as int].predicate@));
        }
    }
    let es2 = store_spec(es1, e2, t2);
    assert(es2 == es1.update(c, superseded(es1[c], t2, e2.id)).push(e2));
    lemma_query_only_last(es2, s, p);
}

/// Storing, stated entity by entity: the list grows by the new entity at the end;
/// the active entity with its subject and predicate, if any, is marked superseded at
/// `now` by the new entity's id; every other entity is unchanged.
pub open spec fn stored_explicitly(
    es: Seq<MemoryEntity>,
    ns: Seq<MemoryEntity>,
    e: MemoryEntity,
    now: i64,
) -> bool {
    &&& ns.len() == es.len() + 1
    &&& ns.last() == e
    &&& forall|i: int|
        0 <= i < es.len() ==> #[trigger] ns[i] == if is_active_for(es, e.subject@, e.predicate@, i) {
            superseded(es[i], now, e.id)
        } else {
            es[i]
        }
}

/// `store_spec` is the entity-by-entity statement above.
pub proof fn lemma_store_explicit(es: Seq<MemoryEntity>, e: MemoryEntity, now: i64)
    requires
        one_active_per_key(es),
    ensures
        stored_explicitly(es, store_spec(es, e, now), e, now),
{
    let ns = store_spec(es, e, now);
    if exists|i: int| is_active_for(es, e.subject@, e.predicate@, i) {
        let c = choose|i: int| is_active_for(es, e.subject@, e.predicate@, i);
        assert forall|i: int| 0 <= i < es.len() implies #[trigger] ns[i] == if is_active_for(
            es,
            e.subject@,
            e.predicate@,
            i,
        ) {
            superseded(es[i], now, e.id)
        } else {
            es[i]
        } by {
            if i != c && is_active_for(es, e.subject@, e.predicate@, i) {
                assert(es[i].same_key(es[c].subject@, es[c].predicate@));
            }
        }
    }
}

proof fn lemma_store_keeps_one_active(es: Seq<MemoryEntity>, e: MemoryEntity, now: i64)
    requires
        one_active_per_key(es),
    ensures
        one_active_per_key(store_spec(es, e, now)),
        store_spec(es, e, now).len() == es.len() + 1,
        store_spec(es, e, now).last() == e,
{
    let ns = store_spec(es, e, now);
    if exists|i: int| is_active_for(es, e.subject@, e.predicate@, i) {
        let i = choose|i: int| is_active_for(es, e.subject@, e.predicate@, i);
        assert forall|a: int, b: int|
            0 <= a < ns.len() && 0 <= b < ns.len() && a != b && (#[trigger] ns[a]).active() && (
            #[trigger] ns[b]).active() implies !ns[b].same_key(ns[a].subject@, ns[a].predicate@) by {
            let last = ns.len() - 1;
            if a != last && b != last {
                assert(ns[a] == es[a] && ns[b] == es[b]);
            } else if a == last {
                assert(ns[b] == es[b]);
                assert(b != i);
            } else {
                assert(ns[a] == es[a]);
                assert(a != i);
            }
        }
    } else {
        assert forall|a: int, b: int|
            0 <= a < ns.len() && 0 <= b < ns.len() && a != b && (#[trigger] ns[a]).active() && (
            #[trigger] ns[b]).active() implies !ns[b].same_key(ns[a].subject@, ns[a].predicate@) by {
            let last = ns.len() - 1;
            if a != last && b != last {
                assert(ns[a] == es[a] && ns[b] == es[b]);
            } else if a == last {
                assert(ns[b] == es[b]);
                assert(!is_active_for(es, e.subject@, e.predicate@, b));
            } else {
                assert(ns[a] == es[a]);
                assert(!is_active_for(es, e.subject@, e.predicate@, a));
            }
        }
    }
}

proof fn lemma_query_only_last(es: Seq<MemoryEntity>, s: Seq<char>, p: Seq<char>)
    requires
        es.len() > 0,
        es.last().active(),
        es.last().same_key(s, p),
        forall|i: int| 0 <= i < es.len() - 1 ==> !is_active_for(es, s, p, i),
    ensures
        query_spec(es, s, p) == seq![es.last()],
{
    let d = es.drop_last();
    assert forall|i: int| 0 <= i < d.len() implies !is_active_for(d, s, p, i) by {
        assert(!is_active_for(es, s, p, i));
        assert(d[i] == es[i]);
    }
    lemma_query_none(d, s, p);
    assert(seq![es.last()] =~= Seq::<MemoryEntity>::empty().push(es.last()));
}

proof fn lemma_query_none(es: Seq<MemoryEntity>, s: Seq<char>, p: Seq<char>)
    requires
        forall|i: int| 0 <= i < es.len() ==> !is_active_for(es, s, p, i),
    ensures
        query_spec(es, s, p) == Seq::<MemoryEntity>::empty(),
    decreases es.len(),
{
    if es.len() > 0 {
        let d = es.drop_last();
        assert forall|i: int| 0 <= i < d.len() implies !is_active_for(d, s, p, i) by {
            assert(!is_active_for(es, s, p, i));
            assert(d[i] == es[i]);
        }
        lemma_query_none(d, s, p);
        assert(!is_active_for(es, s, p, es.len() - 1));
    }
}

} // verus!
