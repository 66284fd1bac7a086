//! The short-term window: the most recent turns of each session.
use vstd::prelude::*;
use vstd::string::*;
use crate::text::str_eq;
use crate::types::Message;

verus! {

struct SessionWindow {
    key: String,
    messages: Vec<Message>,
}

/// The last `n` elements of `s` (all of it when shorter).
pub open spec fn last_n<T>(s: Seq<T>, n: nat) -> Seq<T> {
    if s.len() <= n {
        s
    } else {
        s.subrange(s.len() - n, s.len() as int)
    }
}

/// Keeps, per session, the last `window_turns` turns (two messages each).
pub struct EpisodicMemory {
    window_turns: usize,
    sessions: Vec<SessionWindow>,
}

impl EpisodicMemory {
    /// The window size in turns.
    pub closed spec fn turns(&self) -> nat {
        self.window_turns as nat
    }

    closed spec fn keys(&self) -> Seq<Seq<char>> {
        self.sessions@.map_values(|w: SessionWindow| w.key@)
    }

    closed spec fn key_index(&self, key: Seq<char>) -> int {
        choose|i: int| 0 <= i < self.sessions@.len() && self.sessions@[i].key@ == key
    }

    /// The messages held for a session, oldest first (empty for one never seen).
    pub closed spec fn window(&self, key: Seq<char>) -> Seq<Message> {
        if exists|i: int| 0 <= i < self.sessions@.len() && self.sessions@[i].key@ == key {
            self.sessions@[self.key_index(key)].messages@
        } else {
            Seq::empty()
        }
    }

    /// Keys are distinct, the window fits in a `usize`, and every session holds
    /// at most two messages per turn.
    pub closed spec fn wf(&self) -> bool {
        &&& self.keys().no_duplicates()
        &&& self.window_turns <= usize::MAX / 2
        &&& forall|i: int|
            0 <= i < self.sessions@.len() ==> (#[trigger] self.sessions@[i]).messages@.len() <= 2
                * self.window_turns
    }

    pub fn new(window_turns: usize) -> (r: Self)
        requires
            window_turns <= usize::MAX / 2,
        ensures
            r.wf(),
            r.turns() == window_turns,
            forall|k: Seq<char>| r.window(k) == Seq::<Message>::empty(),
    {
        let r = EpisodicMemory { window_turns, sessions: Vec::new() };
        assert(r.keys() =~= Seq::<Seq<char>>::empty());
        r
    }

    fn find(&self, key: &str) -> (r: Option<usize>)
        requires
            self.wf(),
        ensures
            match r {
                Some(i) => i < self.sessions@.len() && self.sessions@[i as int].key@ == key@
                    && self.window(key@) == self.sessions@[i as int].messages@,
                None => self.window(key@) == Seq::<Message>::empty() && !self.keys().contains(
                    key@,
                ),
            },
    {
        let mut i: usize = 0;
        while i < self.sessions.len()
            invariant
                self.wf(),
                i <= self.sessions@.len(),
                forall|j: int| 0 <= j < i ==> self.sessions@[j].key@ != key@,
            decreases self.sessions@.len() - i,
        {
            if str_eq(self.sessions[i].key.as_str(), key) {
                assert(self.sessions@[i as int].key@ == key@);
                proof {
                    let c = self.key_index(key@);
                    if c != i {
                        assert(self.keys()[c] == self.keys()[i as int]);
                    }
                }
                return Some(i);
            }
            i = i + 1;
        }
        proof {
            if self.keys().contains(key@) {
                let j = choose|j: int| 0 <= j < self.keys().len() && self.keys()[j] == key@;
                assert(self.sessions@[j].key@ == key@);
            }
        }
        None
    }

    /// Appends a message to a session's window, dropping the oldest messages
    /// beyond `2 × window_turns`.
    pub fn append(&mut self, session_key: &str, message: Message)
        requires
            old(self).wf(),
        ensures
            final(self).wf(),
            final(self).turns() == old(self).turns(),
            final(self).window(session_key@) == last_n(
                old(self).window(session_key@).push(message),
                2 * old(self).turns(),
            ),
            forall|k: Seq<char>|
                k != session_key@ ==> final(self).window(k) == old(self).window(k),
    {
        let ghost old_self = *self;
        let cap = self.window_turns * 2;
        match self.find(session_key) {
            Some(i) => {
                let mut w = self.sessions.remove(i);
                let ghost key0 = w.key;
                let ghost before = w.messages@.push(message);
                w.messages.push(message);
                assert(before.len() == w.messages@.len());
                let mut dropped: usize = 0;
                while w.messages.len() > cap
                    invariant
                        cap == 2 * old_self.window_turns,
                        w.key == key0,
                        dropped > 0 ==> w.messages@.len() >= cap,
                        before.len() <= usize::MAX,
                        dropped <= before.len(),
                        w.messages@ == before.subrange(dropped as int, before.len() as int),
                    decreases w.messages@.len(),
                {
                    w.messages.remove(0);
                    dropped = dropped + 1;
                }
                assert(w.messages@ =~= last_n(before, cap as nat));
                let ghost wg = w;
                self.sessions.insert(i, w);
                assert(self.sessions@ =~= old_self.sessions@.update(i as int, wg));
                assert(self.keys() =~= old_self.keys());
                proof {
                    self.lemma_window_after_update(old_self, i as int, session_key@);
                }
            },
            None => {
                let mut msgs: Vec<Message> = Vec::new();
                msgs.push(message);
                if msgs.len() > cap {
                    msgs.remove(0);
                }
                assert(msgs@ =~= last_n(seq![message], cap as nat));
                assert(Seq::<Message>::empty().push(message) =~= seq![message]);
                self.sessions.push(SessionWindow { key: session_key.to_owned(), messages: msgs });
                assert(self.keys() =~= old_self.keys().push(session_key@));
                proof {
                    self.lemma_window_after_push(old_self, session_key@);
                }
            },
        }
    }

    proof fn lemma_window_after_update(&self, old_self: Self, i: int, key: Seq<char>)
        requires
            old_self.keys().no_duplicates(),
            0 <= i < old_self.sessions@.len(),
            old_self.sessions@[i].key@ == key,
            self.sessions@.len() == old_self.sessions@.len(),
            self.keys() == old_self.keys(),
            forall|j: int|
                0 <= j < self.sessions@.len() && j != i ==> self.sessions@[j]
                    == old_self.sessions@[j],
        ensures
            self.window(key) == self.sessions@[i].messages@,
            forall|k: Seq<char>| k != key ==> self.window(k) == old_self.window(k),
    {
        assert(self.keys()[i] == key);
        assert(self.sessions@[i].key@ == key);
        assert(0 <= i < self.sessions@.len() && self.sessions@[i].key@ == key);
        let c = self.key_index(key);
        if c != i {
            assert(self.keys()[c] == self.keys()[i]);
        }
        assert(c == i);
        assert(exists|j: int| 0 <= j < self.sessions@.len() && self.sessions@[j].key@ == key);
        assert(self.window(key) == self.sessions@[c].messages@);
        assert forall|k: Seq<char>| k != key implies self.window(k) == old_self.window(k) by {
            if exists|j: int| 0 <= j < self.sessions@.len() && self.sessions@[j].key@ == k {
                let a = self.key_index(k);
                assert(self.keys()[a] == k);
                assert(old_self.keys()[a] == k);
                assert(old_self.sessions@[a].key@ == k);
                let b = old_self.key_index(k);
                assert(old_self.keys()[b] == k);
                if a != b {
                    assert(old_self.keys()[a] == old_self.keys()[b]);
                }
                assert(a != i);
            } else {
                if exists|j: int| 0 <= j < old_self.sessions@.len() && old_self.sessions@[j].key@ == k {
                    let b = choose|j: int|
                        0 <= j < old_self.sessions@.len() && old_self.sessions@[j].key@ == k;
                    assert(old_self.keys()[b] == k);
                    assert(self.keys()[b] == k);
                }
            }
        }
    }

    proof fn lemma_window_after_push(&self, old_self: Self, key: Seq<char>)
        requires
            self.keys().no_duplicates(),
            self.sessions@.len() == old_self.sessions@.len() + 1,
            self.sessions@.last().key@ == key,
            forall|j: int| 0 <= j < old_self.sessions@.len() ==> self.sessions@[j] == old_self.sessions@[j],
        ensures
            self.window(key) == self.sessions@.last().messages@,
            forall|k: Seq<char>| k != key ==> self.window(k) == old_self.window(k),
    {
        let last = self.sessions@.len() - 1;
        assert(self.keys()[last] == key);
        assert(self.sessions@[last].key@ == key);
        let c = self.key_index(key);
        if c != last {
            assert(self.keys()[c] == self.keys()[last]);
        }
        assert forall|k: Seq<char>| k != key implies self.window(k) == old_self.window(k) by {
            if exists|j: int| 0 <= j < self.sessions@.len() && self.sessions@[j].key@ == k {
                let a = self.key_index(k);
                assert(a != last);
                assert(old_self.sessions@[a].key@ == k);
                let b = old_self.key_index(k);
                assert(self.sessions@[b].key@ == k);
                if a != b {
                    assert(self.keys()[a] == self.keys()[b]);
                }
            } else {
                if exists|j: int| 0 <= j < old_self.sessions@.len() && old_self.sessions@[j].key@ == k {
                    let b = choose|j: int|
                        0 <= j < old_self.sessions@.len() && old_self.sessions@[j].key@ == k;
                    assert(self.sessions@[b].key@ == k);
                }
            }
        }
    }

    fn copy_messages(v: &Vec<Message>, from: usize) -> (r: Vec<Message>)
        requires
            from <= v@.len(),
        ensures
            r@ == v@.subrange(from as int, v@.len() as int),
    {
        let mut out: Vec<Message> = Vec::new();
        let mut i: usize = from;
        while i < v.len()
            invariant
                from <= i <= v@.len(),
                out@ == v@.subrange(from as int, i as int),
            decreases v@.len() - i,
        {
            out.push(v[i].duplicate());
            assert(out@ =~= v@.subrange(from as int, i + 1));
            i = i + 1;
        }
        out
    }

    /// The most recent `n` messages of a session, oldest first.
    pub fn recent(&self, session_key: &str, n: usize) -> (r: Vec<Message>)
        requires
            self.wf(),
        ensures
            r@ == last_n(self.window(session_key@), n as nat),
    {
        match self.find(session_key) {
            Some(i) => {
                let msgs = &self.sessions[i].messages;
                let count = if n < msgs.len() {
                    n
                } else {
                    msgs.len()
                };
                let r = Self::copy_messages(msgs, msgs.len() - count);
                assert(msgs@.len() <= n ==> msgs@.subrange(0, msgs@.len() as int) =~= msgs@);
                r
            },
            None => Vec::new(),
        }
    }

    /// Every message in a session's window, oldest first.
    pub fn all(&self, session_key: &str) -> (r: Vec<Message>)
        requires
            self.wf(),
        ensures
            r@ == self.window(session_key@),
    {
        match self.find(session_key) {
            Some(i) => {
                let r = Self::copy_messages(&self.sessions[i].messages, 0);
                assert(self.sessions@[i as int].messages@.subrange(
                    0,
                    self.sessions@[i as int].messages@.len() as int,
                ) =~= self.sessions@[i as int].messages@);
                r
            },
            None => Vec::new(),
        }
    }

    /// The window size in turns.
    pub fn window_size(&self) -> (r: usize)
        ensures
            r == self.turns(),
    {
        self.window_turns
    }
}

/// A window of `n` turns never holds more than `2n` messages, and when a message
/// arrives at a full window the oldest one leaves.
pub proof fn lemma_window_bound(held: Seq<Message>, m: Message, n: nat)
    requires
        held.len() <= 2 * n,
    ensures
        last_n(held.push(m), 2 * n).len() <= 2 * n,
        held.len() == 2 * n && n > 0 ==> last_n(held.push(m), 2 * n) == held.subrange(
            1,
            held.len() as int,
        ).push(m),
{
    if held.len() == 2 * n && n > 0 {
        assert(last_n(held.push(m), 2 * n) =~= held.subrange(1, held.len() as int).push(m));
    }
}

} // verus!
