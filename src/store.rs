//! The in-memory session store: each session's log of wire messages.
use vstd::prelude::*;
use vstd::string::*;
use crate::text::str_eq;

verus! {

/// One conversation: its key, owning agent, message log (JSON text each),
/// creation time (seconds since the epoch) and message counter.
#[derive(Clone, Debug)]
pub struct Session {
    pub key: String,
    pub agent_id: String,
    pub messages: Vec<String>,
    pub created_at: i64,
    pub message_count: u64,
}

/// Sessions by key.
pub struct SessionStore {
    sessions: Vec<Session>,
}

impl SessionStore {
    pub closed spec fn sessions(&self) -> Seq<Session> {
        self.sessions@
    }

    pub open spec fn keys(&self) -> Seq<Seq<char>> {
        self.sessions().map_values(|s: Session| s.key@)
    }

    /// Keys are distinct.
    pub open spec fn wf(&self) -> bool {
        self.keys().no_duplicates()
    }

    /// The index of the session with this key.
    pub open spec fn index_of(&self, key: Seq<char>) -> int {
        choose|i: int| 0 <= i < self.sessions().len() && self.sessions()[i].key@ == key
    }

    pub open spec fn has(&self, key: Seq<char>) -> bool {
        exists|i: int| 0 <= i < self.sessions().len() && self.sessions()[i].key@ == key
    }

    pub fn new() -> (r: Self)
        ensures
            r.wf(),
            r.sessions().len() == 0,
    {
        let r = SessionStore { sessions: Vec::new() };
        assert(r.keys() =~= Seq::<Seq<char>>::empty());
        r
    }

    fn find(&self, key: &str) -> (r: Option<usize>)
        requires
            self.wf(),
        ensures
            match r {
                Some(i) => i < self.sessions().len() && self.sessions()[i as int].key@ == key@
                    && self.has(key@) && self.index_of(key@) == i,
                None => !self.has(key@),
            },
    {
        let mut i: usize = 0;
        while i < self.sessions.len()
            invariant
                self.wf(),
                i <= self.sessions@.len(),
                forall|j: int| 0 <= j < i ==> self.sessions@[j].key@ != key@,
            decreases self.sessions@.len() - i,
        {
            if str_eq(self.sessions[i].key.as_str(), key) {
                assert(self.sessions@[i as int].key@ == key@);
                proof {
                    let c = self.index_of(key@);
                    if c != i {
                        assert(self.keys()[c] == self.keys()[i as int]);
                    }
                }
                return Some(i);
            }
            i = i + 1;
        }
        None
    }

    /// The session with this key, created for `agent_id` at `now` when absent.
    pub fn get_or_create_at(&mut self, key: &str, agent_id: &str, now: i64) -> (r: &Session)
        requires
            old(self).wf(),
        ensures
            final(self).wf(),
            final(self).has(key@),
            old(self).has(key@) ==> final(self).sessions() == old(self).sessions() && *r == old(
                self,
            ).sessions()[old(self).index_of(key@)],
            !old(self).has(key@) ==> {
                &&& final(self).sessions().drop_last() == old(self).sessions()
                &&& r.key@ == key@
                &&& r.agent_id@ == agent_id@
                &&& r.messages@.len() == 0
                &&& r.created_at == now
                &&& r.message_count == 0
                &&& *r == final(self).sessions().last()
            },
    {
        match self.find(key) {
            Some(i) => &self.sessions[i],
            None => {
                let ghost old_keys = self.keys();
                self.sessions.push(
                    Session {
                        key: key.to_owned(),
                        agent_id: agent_id.to_owned(),
                        messages: Vec::new(),
                        created_at: now,
                        message_count: 0,
                    },
                );
                assert(self.keys() =~= old_keys.push(key@));
                let last = self.sessions.len() - 1;
                assert(self.sessions@[last as int].key@ == key@);
                assert(self.sessions@.drop_last() =~= old(self).sessions@);
                &self.sessions[last]
            },
        }
    }

    /// [`Self::get_or_create_at`] at the current time.
    pub fn get_or_create(&mut self, key: &str, agent_id: &str) -> (r: &Session)
        requires
            old(self).wf(),
        ensures
            final(self).wf(),
            final(self).has(key@),
            old(self).has(key@) ==> final(self).sessions() == old(self).sessions(),
            !old(self).has(key@) ==> r.key@ == key@ && r.agent_id@ == agent_id@
                && r.message_count == 0 && r.messages@.len() == 0,
    {
        self.get_or_create_at(key, agent_id, crate::metering::now_secs())
    }

    /// Appends a message to an existing session and bumps its counter; does nothing
    /// for an unknown key.
    pub fn append_message(&mut self, key: &str, message: String)
        requires
            old(self).wf(),
        ensures
            final(self).wf(),
            final(self).keys() == old(self).keys(),
            !old(self).has(key@) ==> final(self).sessions() == old(self).sessions(),
            old(self).has(key@) ==> {
                let i = old(self).index_of(key@);
                let s = old(self).sessions()[i];
                let t = final(self).sessions()[i];
                &&& final(self).sessions().len() == old(self).sessions().len()
                &&& t.messages@ == s.messages@.push(message)
                &&& t.message_count == if s.message_count == u64::MAX {
                    u64::MAX
                } else {
                    (s.message_count + 1) as u64
                }
                &&& t.key == s.key
                &&& t.agent_id == s.agent_id
                &&& t.created_at == s.created_at
                &&& forall|j: int|
                    0 <= j < final(self).sessions().len() && j != i ==> final(self).sessions()[j]
                        == old(self).sessions()[j]
            },
    {
        match self.find(key) {
            Some(i) => {
                let mut s = self.sessions.remove(i);
                let ghost before = s;
                s.messages.push(message);
                s.message_count = s.message_count.saturating_add(1);
                self.sessions.insert(i, s);
                assert(self.sessions@ =~= old(self).sessions@.update(i as int, s));
                assert(self.keys() =~= old(self).keys());
            },
            None => {},
        }
    }

    /// The session with this key.
    pub fn get(&self, key: &str) -> (r: Option<&Session>)
        requires
            self.wf(),
        ensures
            match r {
                Some(s) => self.has(key@) && *s == self.sessions()[self.index_of(key@)],
                None => !self.has(key@),
            },
    {
        match self.find(key) {
            Some(i) => Some(&self.sessions[i]),
            None => None,
        }
    }

    /// The number of sessions.
    pub fn count(&self) -> (r: usize)
        ensures
            r == self.sessions().len(),
    {
        self.sessions.len()
    }
}

impl Default for SessionStore {
    fn default() -> (r: Self)
        ensures
            r.wf(),
            r.sessions().len() == 0,
    {
        SessionStore::new()
    }
}

} // verus!
