//! Fact extraction: simple first-person patterns, matched case-insensitively
//! in each sentence, with values taken from the unfolded text.
use vstd::prelude::*;
use vstd::string::*;
use crate::memory::semantic::{lower_of, lowercase, MemoryEntity};
use crate::text::{find_from, occurs_at, push_char, str_eq};

verus! {

/// ASCII letters folded to lower case; other characters kept.
pub open spec fn fold(c: char) -> char {
    if 'A' <= c <= 'Z' {
        ((c as u32) + 32) as char
    } else {
        c
    }
}

pub open spec fn fold_seq(s: Seq<char>) -> Seq<char> {
    s.map_values(|c: char| fold(c))
}

/// Unicode `White_Space`, the set `str::trim` removes.
pub open spec fn is_ws(c: char) -> bool {
    ('\u{9}' <= c <= '\u{d}') || c == ' ' || c == '\u{85}' || c == '\u{a0}' || c == '\u{1680}'
        || ('\u{2000}' <= c <= '\u{200a}') || c == '\u{2028}' || c == '\u{2029}' || c
        == '\u{202f}' || c == '\u{205f}' || c == '\u{3000}'
}

/// Characters that end a clause.
pub open spec fn is_delim(c: char) -> bool {
    c == ',' || c == ';' || c == '(' || c == ')'
}

/// Characters that end a sentence.
pub open spec fn is_terminator(c: char) -> bool {
    c == '.' || c == '!' || c == '?'
}

pub open spec fn trim_start(s: Seq<char>) -> Seq<char>
    decreases s.len(),
{
    if s.len() > 0 && is_ws(s[0]) {
        trim_start(s.drop_first())
    } else {
        s
    }
}

pub open spec fn trim_end(s: Seq<char>) -> Seq<char>
    decreases s.len(),
{
    if s.len() > 0 && is_ws(s.last()) {
        trim_end(s.drop_last())
    } else {
        s
    }
}

/// `s` without leading and trailing white space.
pub open spec fn trim(s: Seq<char>) -> Seq<char> {
    trim_end(trim_start(s))
}

/// The part of `s` before its first clause delimiter.
pub open spec fn before_delim(s: Seq<char>) -> Seq<char>
    decreases s.len(),
{
    if s.len() == 0 {
        s
    } else if is_delim(s[0]) {
        Seq::empty()
    } else {
        seq![s[0]] + before_delim(s.drop_first())
    }
}

/// The first occurrence of `p` in `s` at or after `from`.
#[verifier::opaque]
pub open spec fn first_occ(s: Seq<char>, p: Seq<char>, from: int) -> Option<int> {
    if exists|j: int| from <= j && occurs_at(s, p, j) {
        Some(
            choose|j: int|
                from <= j && occurs_at(s, p, j) && forall|k: int|
                    from <= k < j ==> !occurs_at(s, p, k),
        )
    } else {
        None
    }
}

/// The part of `s` before its first `" and "`.
pub open spec fn before_and(s: Seq<char>) -> Seq<char> {
    match first_occ(s, " and "@, 0) {
        Some(i) => s.subrange(0, i),
        None => s,
    }
}

/// A clause value: trimmed, cut at the first delimiter, trimmed again.
pub open spec fn clause(s: Seq<char>) -> Seq<char> {
    trim(before_delim(trim(s)))
}

/// The value after the first case-insensitive occurrence of `pat`, if non-empty.
#[verifier::opaque]
pub open spec fn after_pattern(sent: Seq<char>, pat: Seq<char>) -> Option<Seq<char>> {
    match first_occ(fold_seq(sent), pat, 0) {
        Some(i) => {
            let v = clause(sent.subrange(i + pat.len(), sent.len() as int));
            if v.len() > 0 {
                Some(v)
            } else {
                None
            }
        },
        None => None,
    }
}

/// `i moved from X to Y` gives `(Some(X), Y)`; `i moved to X` gives `(None, X)`.
#[verifier::opaque]
pub open spec fn moved(sent: Seq<char>) -> Option<(Option<Seq<char>>, Seq<char>)> {
    let low = fold_seq(sent);
    let from_to = match first_occ(low, "i moved from "@, 0) {
        Some(f) => {
            let a = f + 13;
            match first_occ(low, " to "@, a) {
                Some(t) => {
                    let to = clause(sent.subrange(t + 4, sent.len() as int));
                    if to.len() > 0 {
                        Some((Some(trim(sent.subrange(a, t))), to))
                    } else {
                        None
                    }
                },
                None => None,
            }
        },
        None => None,
    };
    if from_to is Some {
        from_to
    } else {
        match after_pattern(sent, "i moved to "@) {
            Some(v) => Some((None, v)),
            None => None,
        }
    }
}

/// Spaces replaced by underscores.
pub open spec fn snake(s: Seq<char>) -> Seq<char> {
    s.map_values(|c: char|
        if c == ' ' {
            '_'
        } else {
            c
        })
}

/// One step of the `my X is Y` scan from `start`: the pair found there, if any,
/// and where the scan goes on.
#[verifier::opaque]
pub open spec fn my_step(sent: Seq<char>, start: int) -> (Option<(Seq<char>, Seq<char>)>, int) {
    let low = fold_seq(sent);
    match first_occ(low, "my "@, start) {
        None => (None, sent.len() as int),
        Some(m) => {
            let a = m + 3;
            match first_occ(low, " is "@, a) {
                None => (None, a),
                Some(q) => {
                    let pred = trim(sent.subrange(a, q));
                    let obj = trim(before_and(clause(sent.subrange(q + 4, sent.len() as int))));
                    if pred.len() > 0 && obj.len() > 0 {
                        (Some((snake(lower_of(pred)), obj)), q + 4)
                    } else {
                        (None, q + 4)
                    }
                },
            }
        },
    }
}

/// Every `my X is Y` in `sent` from position `start` on, as (predicate, object).
pub open spec fn my_x_is_y(sent: Seq<char>, start: int) -> Seq<(Seq<char>, Seq<char>)>
    decreases sent.len() - start,
{
    if start < 0 || start >= sent.len() {
        Seq::empty()
    } else {
        let (item, next) = my_step(sent, start);
        let rest = if start < next <= sent.len() {
            my_x_is_y(sent, next)
        } else {
            Seq::empty()
        };
        match item {
            Some(x) => seq![x] + rest,
            None => rest,
        }
    }
}

/// A fact found in text: predicate, object and confidence in percent.
pub struct Fact {
    pub predicate: Seq<char>,
    pub object: Seq<char>,
    pub confidence: u8,
}

pub open spec fn one_fact(pred: Seq<char>, v: Option<Seq<char>>, c: u8) -> Seq<Fact> {
    match v {
        Some(x) => seq![Fact { predicate: pred, object: x, confidence: c }],
        None => Seq::empty(),
    }
}

pub open spec fn either(a: Option<Seq<char>>, b: Option<Seq<char>>) -> Option<Seq<char>> {
    if a is Some {
        a
    } else {
        b
    }
}

pub open spec fn moved_facts(m: Option<(Option<Seq<char>>, Seq<char>)>) -> Seq<Fact> {
    match m {
        Some((f, t)) => one_fact("previous_location"@, f, 80) + seq![
            Fact { predicate: "location"@, object: t, confidence: 85 },
        ],
        None => Seq::empty(),
    }
}

pub open spec fn generic_facts(pairs: Seq<(Seq<char>, Seq<char>)>) -> Seq<Fact>
    decreases pairs.len(),
{
    if pairs.len() == 0 {
        Seq::empty()
    } else {
        let prev = generic_facts(pairs.drop_last());
        let (p, o) = pairs.last();
        if p == "name"@ {
            prev
        } else {
            prev.push(Fact { predicate: p, object: o, confidence: 75 })
        }
    }
}

/// The facts of one trimmed, non-empty sentence, in pattern order.
#[verifier::opaque]
pub open spec fn sentence_facts(sent: Seq<char>) -> Seq<Fact> {
    one_fact("name"@, after_pattern(sent, "my name is "@), 90) + one_fact(
        "location"@,
        after_pattern(sent, "i live in "@),
        85,
    ) + one_fact(
        "from"@,
        either(after_pattern(sent, "i'm from "@), after_pattern(sent, "i am from "@)),
        85,
    ) + moved_facts(moved(sent)) + one_fact(
        "employer"@,
        either(after_pattern(sent, "i work at "@), after_pattern(sent, "i work for "@)),
        85,
    ) + generic_facts(my_x_is_y(sent, 0))
}

/// The pieces of `t` between sentence terminators (as `str::split` gives them).
pub open spec fn pieces(t: Seq<char>) -> Seq<Seq<char>>
    decreases t.len(),
{
    if t.len() == 0 {
        seq![Seq::empty()]
    } else {
        let prev = pieces(t.drop_last());
        if is_terminator(t.last()) {
            prev.push(Seq::empty())
        } else {
            prev.update(prev.len() - 1, prev.last().push(t.last()))
        }
    }
}

/// The facts of every non-empty sentence of `t`, in order.
pub open spec fn facts_of_pieces(ps: Seq<Seq<char>>) -> Seq<Fact>
    decreases ps.len(),
{
    if ps.len() == 0 {
        Seq::empty()
    } else {
        let s = trim(ps.last());
        facts_of_pieces(ps.drop_last()) + if s.len() == 0 {
            Seq::empty()
        } else {
            sentence_facts(s)
        }
    }
}

pub open spec fn text_facts(t: Seq<char>) -> Seq<Fact> {
    facts_of_pieces(pieces(t))
}

proof fn lemma_pieces_nonempty(t: Seq<char>)
    ensures
        pieces(t).len() >= 1,
    decreases t.len(),
{
    if t.len() > 0 {
        lemma_pieces_nonempty(t.drop_last());
    }
}

fn fold_char(c: char) -> (r: char)
    ensures
        r == fold(c),
{
    if 'A' <= c && c <= 'Z' {
        ((c as u8) + 32) as char
    } else {
        c
    }
}

fn is_ws_char(c: char) -> (r: bool)
    ensures
        r == is_ws(c),
{
    ('\u{9}' <= c && c <= '\u{d}') || c == ' ' || c == '\u{85}' || c == '\u{a0}' || c
        == '\u{1680}' || ('\u{2000}' <= c && c <= '\u{200a}') || c == '\u{2028}' || c
        == '\u{2029}' || c == '\u{202f}' || c == '\u{205f}' || c == '\u{3000}'
}

/// Lower-cases the ASCII letters of `s`.
pub(crate) fn fold_str(s: &str) -> (r: String)
    ensures
        r@ == fold_seq(s@),
{
    let n = s.unicode_len();
    let mut r = String::new();
    let mut i: usize = 0;
    while i < n
        invariant
            n == s@.len(),
            i <= n,
            r@ == fold_seq(s@.subrange(0, i as int)),
        decreases n - i,
    {
        push_char(&mut r, fold_char(s.get_char(i)));
        assert(fold_seq(s@.subrange(0, i + 1)) =~= fold_seq(s@.subrange(0, i as int)).push(
            fold(s@[i as int]),
        ));
        i = i + 1;
    }
    assert(s@.subrange(0, n as int) =~= s@);
    r
}

proof fn lemma_trim_start_skip(s: Seq<char>, i: int)
    requires
        0 <= i <= s.len(),
        forall|j: int| 0 <= j < i ==> is_ws(s[j]),
    ensures
        trim_start(s) == trim_start(s.subrange(i, s.len() as int)),
    decreases i,
{
    if i > 0 {
        assert(is_ws(s[0]));
        assert forall|j: int| 0 <= j < i - 1 implies is_ws(s.drop_first()[j]) by {
            assert(s.drop_first()[j] == s[j + 1]);
        }
        lemma_trim_start_skip(s.drop_first(), i - 1);
        assert(s.drop_first().subrange(i - 1, s.drop_first().len() as int) =~= s.subrange(
            i,
            s.len() as int,
        ));
    } else {
        assert(s.subrange(0, s.len() as int) =~= s);
    }
}

proof fn lemma_trim_end_skip(s: Seq<char>, e: int)
    requires
        0 <= e <= s.len(),
        forall|j: int| e <= j < s.len() ==> is_ws(s[j]),
    ensures
        trim_end(s) == trim_end(s.subrange(0, e)),
    decreases s.len() - e,
{
    if e < s.len() {
        lemma_trim_end_skip(s.drop_last(), e);
        assert(s.drop_last().subrange(0, e) =~= s.subrange(0, e));
    } else {
        assert(s.subrange(0, e) =~= s);
    }
}

/// `s` without leading and trailing white space.
pub(crate) fn trim_str<'a>(s: &'a str) -> (r: &'a str)
    ensures
        r@ == trim(s@),
{
    let n = s.unicode_len();
    let mut b: usize = 0;
    while b < n && is_ws_char(s.get_char(b))
        invariant
            n == s@.len(),
            b <= n,
            forall|j: int| 0 <= j < b ==> is_ws(s@[j]),
        decreases n - b,
    {
        b = b + 1;
    }
    let mut e: usize = n;
    while e > b && is_ws_char(s.get_char(e - 1))
        invariant
            n == s@.len(),
            b <= e <= n,
            forall|j: int| e <= j < n ==> is_ws(s@[j]),
        decreases e,
    {
        e = e - 1;
    }
    proof {
        lemma_trim_start_skip(s@, b as int);
        let t = s@.subrange(b as int, n as int);
        assert(b < n ==> !is_ws(t[0]));
        assert(trim_start(t) == t);
        lemma_trim_end_skip(t, e - b);
        let u = t.subrange(0, e - b);
        assert(u =~= s@.subrange(b as int, e as int));
        assert(e > b ==> !is_ws(u.last()));
        assert(trim_end(u) == u);
    }
    s.substring_char(b, e)
}

proof fn lemma_before_delim_prefix(s: Seq<char>, i: int)
    requires
        0 <= i <= s.len(),
        forall|j: int| 0 <= j < i ==> !is_delim(s[j]),
        i == s.len() || is_delim(s[i]),
    ensures
        before_delim(s) == s.subrange(0, i),
    decreases i,
{
    if i > 0 {
        lemma_before_delim_prefix(s.drop_first(), i - 1);
        assert(seq![s[0]] + s.drop_first().subrange(0, i - 1) =~= s.subrange(0, i));
    } else {
        assert(s.subrange(0, 0) =~= Seq::<char>::empty());
    }
}

/// The part of `s` before its first clause delimiter.
fn before_delim_str<'a>(s: &'a str) -> (r: &'a str)
    ensures
        r@ == before_delim(s@),
{
    let n = s.unicode_len();
    let mut i: usize = 0;
    while i < n
        invariant
            n == s@.len(),
            i <= n,
            forall|j: int| 0 <= j < i ==> !is_delim(s@[j]),
        decreases n - i,
    {
        let c = s.get_char(i);
        if c == ',' || c == ';' || c == '(' || c == ')' {
            proof {
                lemma_before_delim_prefix(s@, i as int);
            }
            return s.substring_char(0, i);
        }
        i = i + 1;
    }
    proof {
        lemma_before_delim_prefix(s@, n as int);
    }
    s.substring_char(0, n)
}

proof fn lemma_first_occ(s: Seq<char>, p: Seq<char>, from: int, r: Option<usize>)
    requires
        match r {
            Some(i) => from <= i && occurs_at(s, p, i as int) && forall|j: int|
                from <= j < i ==> !occurs_at(s, p, j),
            None => forall|j: int| from <= j ==> !occurs_at(s, p, j),
        },
    ensures
        first_occ(s, p, from) == match r {
            Some(i) => Some(i as int),
            None => None::<int>,
        },
{
    reveal(first_occ);
    if let Some(i) = r {
        let c = choose|j: int|
            from <= j && occurs_at(s, p, j) && forall|k: int| from <= k < j ==> !occurs_at(s, p, k);
        if c < i {
        } else if c > i {
        }
    }
}

/// The first occurrence of `p` in `s` at or after `from`.
fn first_occ_exec(s: &str, p: &str, from: usize) -> (r: Option<usize>)
    ensures
        first_occ(s@, p@, from as int) == match r {
            Some(i) => Some(i as int),
            None => None::<int>,
        },
        r matches Some(i) ==> from <= i && i + p@.len() <= s@.len(),
{
    let r = find_from(s, p, from);
    proof {
        lemma_first_occ(s@, p@, from as int, r);
    }
    r
}

/// The value after the first case-insensitive occurrence of `pat`, if non-empty.
/// The value after a pattern: `low` is the sentence folded to lower case, in which
/// the pattern is sought; the value is cut from the unfolded `sent`.
pub fn extract_after_pattern(low: &str, sent: &str, pat: &str) -> (r: Option<String>)
    requires
        low@ == fold_seq(sent@),
    ensures
        match r {
            Some(v) => after_pattern(sent@, pat@) == Some(v@),
            None => after_pattern(sent@, pat@) is None,
        },
{
    proof {
        reveal(after_pattern);
    }
    match first_occ_exec(low, pat, 0) {
        Some(i) => {
            let n = sent.unicode_len();
            let v = clause_str(sent.substring_char(i + pat.unicode_len(), n));
            if v.unicode_len() > 0 {
                Some(v.to_owned())
            } else {
                None
            }
        },
        None => None,
    }
}

fn clause_str<'a>(s: &'a str) -> (r: &'a str)
    ensures
        r@ == clause(s@),
{
    trim_str(before_delim_str(trim_str(s)))
}

/// `i moved from X to Y` or `i moved to X` in a sentence (`low` its folded form).
#[verifier::rlimit(30)]
pub fn extract_moved_pattern(low: &str, sent: &str) -> (r: Option<(Option<String>, String)>)
    requires
        low@ == fold_seq(sent@),
    ensures
        match r {
            Some((f, t)) => moved(sent@) == Some(
                (
                    match f {
                        Some(x) => Some(x@),
                        None => None::<Seq<char>>,
                    },
                    t@,
                ),
            ),
            None => moved(sent@) is None,
        },
{
    let n = sent.unicode_len();
    proof {
        reveal(moved);
        reveal_strlit("i moved from ");
        reveal_strlit(" to ");
    }
    if let Some(f) = first_occ_exec(low, "i moved from ", 0) {
        let a = f + 13;
        if let Some(t) = first_occ_exec(low, " to ", a) {
            let to = clause_str(sent.substring_char(t + 4, n));
            if to.unicode_len() > 0 {
                let from = trim_str(sent.substring_char(a, t));
                return Some((Some(from.to_owned()), to.to_owned()));
            }
        }
    }
    match extract_after_pattern(low, sent, "i moved to ") {
        Some(v) => Some((None, v)),
        None => None,
    }
}

fn snake_str(s: &str) -> (r: String)
    ensures
        r@ == snake(s@),
{
    let n = s.unicode_len();
    let mut r = String::new();
    let mut i: usize = 0;
    while i < n
        invariant
            n == s@.len(),
            i <= n,
            r@ == snake(s@.subrange(0, i as int)),
        decreases n - i,
    {
        let c = s.get_char(i);
        push_char(
            &mut r,
            if c == ' ' {
                '_'
            } else {
                c
            },
        );
        assert(snake(s@.subrange(0, i + 1)) =~= snake(s@.subrange(0, i as int)).push(
            if c == ' ' {
                '_'
            } else {
                c
            },
        ));
        i = i + 1;
    }
    assert(s@.subrange(0, n as int) =~= s@);
    r
}

fn before_and_str<'a>(s: &'a str) -> (r: &'a str)
    ensures
        r@ == before_and(s@),
{
    proof {
        reveal_strlit(" and ");
    }
    match first_occ_exec(s, " and ", 0) {
        Some(i) => s.substring_char(0, i),
        None => s,
    }
}

pub open spec fn pairs(v: Seq<(String, String)>) -> Seq<(Seq<char>, Seq<char>)> {
    v.map_values(|p: (String, String)| (p.0@, p.1@))
}

#[verifier::rlimit(30)]
fn my_step_exec(sent: &str, low: &str, start: usize) -> (r: (Option<(String, String)>, usize))
    requires
        low@ == fold_seq(sent@),
        start < sent@.len(),
    ensures
        my_step(sent@, start as int) == (
            match r.0 {
                Some(x) => Some((x.0@, x.1@)),
                None => None::<(Seq<char>, Seq<char>)>,
            },
            r.1 as int,
        ),
        start < r.1 <= sent@.len(),
{
    let n = sent.unicode_len();
    proof {
        reveal(my_step);
        reveal_strlit("my ");
        reveal_strlit(" is ");
    }
    match first_occ_exec(low, "my ", start) {
        None => (None, n),
        Some(m) => {
            let a = m + 3;
            match first_occ_exec(low, " is ", a) {
                None => (None, a),
                Some(q) => {
                    let pred = trim_str(sent.substring_char(a, q));
                    let obj = trim_str(before_and_str(clause_str(sent.substring_char(q + 4, n))));
                    if pred.unicode_len() > 0 && obj.unicode_len() > 0 {
                        let folded = lowercase(pred);
                        let p = snake_str(folded.as_str());
                        (Some((p, obj.to_owned())), q + 4)
                    } else {
                        (None, q + 4)
                    }
                },
            }
        },
    }
}

/// Every `my X is Y` of a sentence (`low` its folded form), predicates in snake case.
pub fn extract_all_my_x_is_y(low: &str, sent: &str) -> (r: Vec<(String, String)>)
    requires
        low@ == fold_seq(sent@),
    ensures
        pairs(r@) == my_x_is_y(sent@, 0),
{
    let n = sent.unicode_len();
    assert(low@.len() == n);
    let mut out: Vec<(String, String)> = Vec::new();
    let mut start: usize = 0;
    while start < n
        invariant
            n == sent@.len(),
            low@ == fold_seq(sent@),
            low@.len() == n,
            start <= n,
            pairs(out@) + my_x_is_y(sent@, start as int) == my_x_is_y(sent@, 0),
        decreases n - start,
    {
        let ghost before = pairs(out@);
        let (item, next) = my_step_exec(sent, low, start);
        proof {
            assert(my_step(sent@, start as int) == (
                match item {
                    Some(x) => Some((x.0@, x.1@)),
                    None => None::<(Seq<char>, Seq<char>)>,
                },
                next as int,
            ));
        }
        match item {
            Some(x) => {
                let ghost v = (x.0@, x.1@);
                out.push(x);
                assert(pairs(out@) =~= before.push(v));
                assert(before.push(v) + my_x_is_y(sent@, next as int) =~= before + (seq![v]
                    + my_x_is_y(sent@, next as int)));
            },
            None => {},
        }
        start = next;
    }
    assert(my_x_is_y(sent@, start as int) =~= Seq::<(Seq<char>, Seq<char>)>::empty());
    assert(pairs(out@) + Seq::<(Seq<char>, Seq<char>)>::empty() =~= pairs(out@));
    out
}

pub open spec fn facts(v: Seq<(String, String, u8)>) -> Seq<Fact> {
    v.map_values(|t: (String, String, u8)| Fact { predicate: t.0@, object: t.1@, confidence: t.2 })
}

fn push_fact(out: &mut Vec<(String, String, u8)>, pred: &str, v: Option<String>, c: u8)
    ensures
        facts(final(out)@) == facts(old(out)@) + one_fact(
            pred@,
            match v {
                Some(x) => Some(x@),
                None => None::<Seq<char>>,
            },
            c,
        ),
{
    let ghost before = facts(out@);
    match v {
        Some(x) => {
            let ghost f = Fact { predicate: pred@, object: x@, confidence: c };
            out.push((pred.to_owned(), x, c));
            assert(facts(out@) =~= before + seq![f]);
        },
        None => {
            assert(before + Seq::<Fact>::empty() =~= before);
        },
    }
}

fn first_of(a: Option<String>, b: Option<String>) -> (r: Option<String>)
    ensures
        (match r {
            Some(x) => Some(x@),
            None => None::<Seq<char>>,
        }) == either(
            match a {
                Some(x) => Some(x@),
                None => None::<Seq<char>>,
            },
            match b {
                Some(x) => Some(x@),
                None => None::<Seq<char>>,
            },
        ),
{
    match a {
        Some(x) => Some(x),
        None => b,
    }
}

/// The facts of one trimmed sentence, in pattern order.
#[verifier::rlimit(40)]
pub fn sentence_facts_exec(sent: &str) -> (r: Vec<(String, String, u8)>)
    ensures
        facts(r@) == sentence_facts(sent@),
{
    let low = fold_str(sent);
    let l = low.as_str();
    let mut out: Vec<(String, String, u8)> = Vec::new();
    assert(facts(out@) =~= Seq::<Fact>::empty());
    push_fact(&mut out, "name", extract_after_pattern(l, sent, "my name is "), 90);
    push_fact(&mut out, "location", extract_after_pattern(l, sent, "i live in "), 85);
    let from = first_of(
        extract_after_pattern(l, sent, "i'm from "),
        extract_after_pattern(l, sent, "i am from "),
    );
    push_fact(&mut out, "from", from, 85);
    let ghost before_moved = facts(out@);
    match extract_moved_pattern(l, sent) {
        Some((f, t)) => {
            push_fact(&mut out, "previous_location", f, 80);
            push_fact(&mut out, "location", Some(t), 85);
            assert(facts(out@) =~= before_moved + moved_facts(moved(sent@)));
        },
        None => {
            assert(facts(out@) =~= before_moved + moved_facts(moved(sent@)));
        },
    }
    let employer = first_of(
        extract_after_pattern(l, sent, "i work at "),
        extract_after_pattern(l, sent, "i work for "),
    );
    push_fact(&mut out, "employer", employer, 85);
    let ghost before_generic = facts(out@);
    let pairs_found = extract_all_my_x_is_y(l, sent);
    let mut i: usize = 0;
    while i < pairs_found.len()
        invariant
            i <= pairs_found@.len(),
            facts(out@) == before_generic + generic_facts(pairs(pairs_found@).subrange(0, i as int)),
        decreases pairs_found@.len() - i,
    {
        let ghost sub = pairs(pairs_found@).subrange(0, i + 1);
        assert(sub.drop_last() =~= pairs(pairs_found@).subrange(0, i as int));
        let (p, o) = (&pairs_found[i].0, &pairs_found[i].1);
        if !str_eq(p.as_str(), "name") {
            let ghost prev = facts(out@);
            let ghost f = Fact { predicate: p@, object: o@, confidence: 75 };
            out.push((p.clone(), o.clone(), 75));
            assert(facts(out@) =~= prev.push(f));
        }
        i = i + 1;
    }
    assert(pairs(pairs_found@).subrange(0, pairs_found@.len() as int) =~= pairs(pairs_found@));
    assert(facts(out@) =~= sentence_facts(sent@)) by {
        reveal(sentence_facts);
    }
    out
}

/// Splits text at sentence terminators, as `str::split` does (empty pieces kept).
fn split_pieces(text: &str) -> (r: Vec<String>)
    ensures
        r@.map_values(|s: String| s@) == pieces(text@),
{
    let n = text.unicode_len();
    let mut out: Vec<String> = Vec::new();
    let mut cur = String::new();
    let mut i: usize = 0;
    while i < n
        invariant
            n == text@.len(),
            i <= n,
            out@.map_values(|s: String| s@).push(cur@) == pieces(text@.subrange(0, i as int)),
        decreases n - i,
    {
        let c = text.get_char(i);
        let ghost t = text@.subrange(0, i + 1);
        assert(t.drop_last() =~= text@.subrange(0, i as int));
        proof {
            lemma_pieces_nonempty(t.drop_last());
        }
        if c == '.' || c == '!' || c == '?' {
            let ghost prev = out@.map_values(|s: String| s@);
            out.push(cur);
            cur = String::new();
            assert(out@.map_values(|s: String| s@) =~= prev.push(pieces(t.drop_last()).last()));
            assert(out@.map_values(|s: String| s@).push(cur@) =~= pieces(t));
        } else {
            let ghost prev = out@.map_values(|s: String| s@);
            push_char(&mut cur, c);
            assert(prev.push(cur@) =~= pieces(t));
        }
        i = i + 1;
    }
    assert(text@.subrange(0, n as int) =~= text@);
    out.push(cur);
    out
}

/// A fresh, unique entity id.
/// Relies on `uuid::Uuid::new_v4`: a random version-4 UUID in hyphenated form.
#[verifier::external_body]
fn new_entity_id() -> (r: String) {
    uuid::Uuid::new_v4().to_string()
}

/// An entity made from a fact.
pub open spec fn entity_from(e: MemoryEntity, f: Fact, session_key: Seq<char>, now: i64) -> bool {
    &&& e.entity_type@ == "fact"@
    &&& e.subject@ == "user"@
    &&& e.predicate@ == f.predicate
    &&& e.object@ == f.object
    &&& e.confidence_pct == f.confidence
    &&& e.session_key@ == session_key
    &&& e.learned_at == now
    &&& e.superseded_at is None
    &&& e.superseded_by is None
}

/// The facts of every non-empty sentence of `text`, as entities of subject `user`,
/// learned at `now`, each with a fresh id.
pub fn extract_entities_at(text: &str, session_key: &str, now: i64) -> (r: Vec<MemoryEntity>)
    ensures
        r@.len() == text_facts(text@).len(),
        forall|i: int|
            0 <= i < r@.len() ==> entity_from(#[trigger] r@[i], text_facts(text@)[i], session_key@, now),
{
    let ps = split_pieces(text);
    let ghost pv = ps@.map_values(|s: String| s@);
    let mut out: Vec<MemoryEntity> = Vec::new();
    let mut i: usize = 0;
    while i < ps.len()
        invariant
            pv == ps@.map_values(|s: String| s@),
            pv == pieces(text@),
            i <= ps@.len(),
            out@.len() == facts_of_pieces(pv.subrange(0, i as int)).len(),
            forall|k: int|
                0 <= k < out@.len() ==> entity_from(
                    #[trigger] out@[k],
                    facts_of_pieces(pv.subrange(0, i as int))[k],
                    session_key@,
                    now,
                ),
        decreases ps@.len() - i,
    {
        let ghost done = facts_of_pieces(pv.subrange(0, i as int));
        assert(pv.subrange(0, i + 1).drop_last() =~= pv.subrange(0, i as int));
        let s = trim_str(ps[i].as_str());
        if s.unicode_len() > 0 {
            let fs = sentence_facts_exec(s);
            let ghost all = facts_of_pieces(pv.subrange(0, i + 1));
            assert(all == done + facts(fs@));
            let mut j: usize = 0;
            while j < fs.len()
                invariant
                    j <= fs@.len(),
                    all == done + facts(fs@),
                    out@.len() == done.len() + j,
                    forall|k: int|
                        0 <= k < out@.len() ==> entity_from(#[trigger] out@[k], all[k], session_key@, now),
                decreases fs@.len() - j,
            {
                let e = MemoryEntity {
                    id: new_entity_id(),
                    entity_type: "fact".to_owned(),
                    subject: "user".to_owned(),
                    predicate: fs[j].0.clone(),
                    object: fs[j].1.clone(),
                    session_key: session_key.to_owned(),
                    learned_at: now,
                    superseded_at: None,
                    superseded_by: None,
                    confidence_pct: fs[j].2,
                };
                assert(all[done.len() + j] == facts(fs@)[j as int]);
                out.push(e);
                j = j + 1;
            }
        } else {
            assert(facts_of_pieces(pv.subrange(0, i + 1)) =~= done);
        }
        i = i + 1;
    }
    assert(pv.subrange(0, ps@.len() as int) =~= pv);
    out
}

/// [`extract_entities_at`] at the current time.
pub fn extract_entities(text: &str, session_key: &str) -> (r: Vec<MemoryEntity>)
    ensures
        r@.len() == text_facts(text@).len(),
        forall|i: int|
            0 <= i < r@.len() ==> entity_from(
                #[trigger] r@[i],
                text_facts(text@)[i],
                session_key@,
                r@[0].learned_at,
            ),
{
    extract_entities_at(text, session_key, crate::metering::now_secs())
}

} // verus!
