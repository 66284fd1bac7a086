//! Soul documents: per-agent personality text placed first in every context.
//! Reading the files is the caller's part; this store keeps what was read.
use vstd::prelude::*;
use vstd::string::*;
use crate::text::str_eq;

verus! {

/// A loaded soul document.
#[derive(Debug, Clone)]
pub struct Soul {
    pub agent_id: String,
    pub content: String,
    pub token_count: u32,
    pub loaded_from: String,
    /// Seconds since the epoch.
    pub loaded_at: i64,
    /// The source file's modification time when read, if known.
    pub file_mtime: Option<i64>,
}

/// `⌈bytes ÷ 4⌉`, the token estimate of a text (held at `u32::MAX`).
pub open spec fn token_estimate(bytes: nat) -> nat {
    if (bytes + 3) / 4 > u32::MAX {
        u32::MAX as nat
    } else {
        (bytes + 3) / 4
    }
}

/// The token estimate of a text: its length in bytes divided by four, rounded up.
pub fn estimate_tokens(text: &str) -> (r: u32)
    ensures
        r == token_estimate(text.spec_bytes().len()),
{
    let n = text.as_bytes().len();
    let q = n / 4 + if n % 4 == 0 {
        0
    } else {
        1
    };
    assert(q == (n + 3) / 4) by (nonlinear_arith)
        requires
            q == n / 4 + if n % 4 == 0 {
                0int
            } else {
                1int
            },
    {
    }
    if q > u32::MAX as usize {
        u32::MAX
    } else {
        q as u32
    }
}

/// The soul documents, one per agent.
pub struct SoulLoader {
    souls: Vec<Soul>,
}

impl SoulLoader {
    /// The document held for an agent: the latest one set.
    pub closed spec fn content_of(&self, agent_id: Seq<char>) -> Option<Seq<char>> {
        soul_lookup(self.souls@, agent_id)
    }

    /// The last document set for an agent.
    pub closed spec fn entry_of(&self, agent_id: Seq<char>) -> Option<Soul> {
        soul_entry(self.souls@, agent_id)
    }

    pub fn new() -> (r: Self)
        ensures
            forall|a: Seq<char>| r.content_of(a) is None,
    {
        SoulLoader { souls: Vec::new() }
    }

    /// Records the document read for an agent from `source` at `now`, with the
    /// file's modification time when known.
    pub fn set_with_mtime(
        &mut self,
        agent_id: &str,
        content: String,
        source: &str,
        now: i64,
        file_mtime: Option<i64>,
    )
        ensures
            final(self).content_of(agent_id@) == Some(content@),
            forall|a: Seq<char>| a != agent_id@ ==> final(self).content_of(a) == old(self).content_of(a),
    {
        let token_count = estimate_tokens(content.as_str());
        self.souls.push(
            Soul {
                agent_id: agent_id.to_owned(),
                content,
                token_count,
                loaded_from: source.to_owned(),
                loaded_at: now,
                file_mtime,
            },
        );
        assert(self.souls@.drop_last() == old(self).souls@);
    }

    /// The source to read again for an agent: its document's file, when the file's
    /// modification time now is later than when it was read.
    pub fn reload_source(&self, agent_id: &str, current_mtime: Option<i64>) -> (r: Option<String>)
        ensures
            match r {
                Some(path) => match self.entry_of(agent_id@) {
                    Some(s) => path@ == s.loaded_from@ && s.file_mtime is Some && current_mtime
                        is Some && current_mtime->0 > s.file_mtime->0,
                    None => false,
                },
                None => match self.entry_of(agent_id@) {
                    Some(s) => !(s.file_mtime is Some && current_mtime is Some && current_mtime->0
                        > s.file_mtime->0),
                    None => true,
                },
            },
    {
        match self.get(agent_id) {
            Some(s) => match (s.file_mtime, current_mtime) {
                (Some(old), Some(new)) => if new > old {
                    Some(s.loaded_from.clone())
                } else {
                    None
                },
                _ => None,
            },
            None => None,
        }
    }

    /// Records the document read for an agent from `source` at `now`.
    pub fn set(&mut self, agent_id: &str, content: String, source: &str, now: i64)
        ensures
            final(self).content_of(agent_id@) == Some(content@),
            forall|a: Seq<char>| a != agent_id@ ==> final(self).content_of(a) == old(self).content_of(a),
    {
        let token_count = estimate_tokens(content.as_str());
        let ghost c = content@;
        self.souls.push(
            Soul {
                agent_id: agent_id.to_owned(),
                content,
                token_count,
                loaded_from: source.to_owned(),
                loaded_at: now,
                file_mtime: None,
            },
        );
        assert(self.souls@.drop_last() == old(self).souls@);
    }

    /// The document of an agent, if one was set.
    pub fn get(&self, agent_id: &str) -> (r: Option<&Soul>)
        ensures
            match r {
                Some(s) => self.content_of(agent_id@) == Some(s.content@) && self.entry_of(agent_id@)
                    == Some(*s),
                None => self.content_of(agent_id@) is None && self.entry_of(agent_id@) is None,
            },
    {
        let mut i: usize = self.souls.len();
        assert(self.souls@.subrange(0, i as int) =~= self.souls@);
        while i > 0
            invariant
                i <= self.souls@.len(),
                soul_lookup(self.souls@, agent_id@) == soul_lookup(
                    self.souls@.subrange(0, i as int),
                    agent_id@,
                ),
                soul_entry(self.souls@, agent_id@) == soul_entry(
                    self.souls@.subrange(0, i as int),
                    agent_id@,
                ),
            decreases i,
        {
            let ghost pre = self.souls@.subrange(0, i as int);
            assert(pre.drop_last() =~= self.souls@.subrange(0, i - 1));
            if str_eq(self.souls[i - 1].agent_id.as_str(), agent_id) {
                return Some(&self.souls[i - 1]);
            }
            i = i - 1;
        }
        None
    }

    /// The text of an agent's document, if one was set.
    pub fn get_content(&self, agent_id: &str) -> (r: Option<String>)
        ensures
            match r {
                Some(s) => self.content_of(agent_id@) == Some(s@),
                None => self.content_of(agent_id@) is None,
            },
    {
        match self.get(agent_id) {
            Some(s) => Some(s.content.clone()),
            None => None,
        }
    }
}

impl Default for SoulLoader {
    fn default() -> (r: Self)
        ensures
            forall|a: Seq<char>| r.content_of(a) is None,
    {
        SoulLoader::new()
    }
}

/// The last document set for an agent.
pub open spec fn soul_entry(souls: Seq<Soul>, agent_id: Seq<char>) -> Option<Soul>
    decreases souls.len(),
{
    if souls.len() == 0 {
        None
    } else if souls.last().agent_id@ == agent_id {
        Some(souls.last())
    } else {
        soul_entry(souls.drop_last(), agent_id)
    }
}

/// The content of the last document set for an agent.
pub open spec fn soul_lookup(souls: Seq<Soul>, agent_id: Seq<char>) -> Option<Seq<char>>
    decreases souls.len(),
{
    if souls.len() == 0 {
        None
    } else if souls.last().agent_id@ == agent_id {
        Some(souls.last().content@)
    } else {
        soul_lookup(souls.drop_last(), agent_id)
    }
}

} // verus!
