//! Session registry: maps a working-directory key to the durable session
//! handle the adapter returned for it.
//!
//! Sessions are created lazily: a key without an entry needs one created,
//! and storing is only allowed for a key that has none, so no key can
//! ever get a second session. Looking up or storing one key never touches
//! another key's entry. All entries are dropped together when the
//! supervisor stops; there is no per-session teardown.

use vstd::prelude::*;

use crate::strings::str_eq;

verus! {

/// One cached binding of a working-directory key to a session id.
#[derive(Debug, Clone)]
pub struct SessionEntry {
    pub working_dir: String,
    pub session_id: String,
}

/// What a lookup tells the caller to do next.
#[derive(Debug, Clone)]
pub enum SessionResolution {
    /// A session exists for the key: reuse it, create nothing.
    Existing { session_id: String },
    /// No session exists yet: ask the adapter for one, then store it.
    NeedsCreation,
}

/// The registry of sessions, keyed by working directory.
pub struct SessionRegistry {
    entries: Vec<SessionEntry>,
}

impl SessionRegistry {
    /// The cached entries, in insertion order.
    pub closed spec fn spec_entries(&self) -> Seq<SessionEntry> {
        self.entries@
    }

    /// Keys are unique: at most one session per working directory.
    pub open spec fn wf(&self) -> bool {
        forall|i: int, j: int|
            0 <= i < j < self.spec_entries().len() ==> self.spec_entries()[i].working_dir@
                != self.spec_entries()[j].working_dir@
    }

    /// A session exists for this working-directory key.
    pub open spec fn spec_has(&self, key: Seq<char>) -> bool {
        exists|i: int|
            0 <= i < self.spec_entries().len() && (#[trigger] self.spec_entries()[i]).working_dir@
                == key
    }

    spec fn spec_index_of(&self, key: Seq<char>) -> int {
        choose|i: int|
            0 <= i < self.spec_entries().len() && (#[trigger] self.spec_entries()[i]).working_dir@
                == key
    }

    /// The session id cached for this key.
    pub closed spec fn spec_session_for(&self, key: Seq<char>) -> Seq<char>
        recommends
            self.spec_has(key),
    {
        self.spec_entries()[self.spec_index_of(key)].session_id@
    }

    proof fn lemma_get_at(&self, i: int)
        requires
            self.wf(),
            0 <= i < self.spec_entries().len(),
        ensures
            self.spec_has(self.spec_entries()[i].working_dir@),
            self.spec_index_of(self.spec_entries()[i].working_dir@) == i,
            self.spec_session_for(self.spec_entries()[i].working_dir@) == self.spec_entries()[i].session_id@,
    {
        let key = self.spec_entries()[i].working_dir@;
        assert(self.spec_has(key));
        let j = self.spec_index_of(key);
        assert(0 <= j < self.spec_entries().len() && self.spec_entries()[j].working_dir@ == key);
    }

    pub fn new() -> (r: SessionRegistry)
        ensures
            r.wf(),
            forall|key: Seq<char>| !r.spec_has(key),
    {
        SessionRegistry { entries: Vec::new() }
    }

    fn index_of(&self, working_dir: &str) -> (r: Option<usize>)
        ensures
            match r {
                Some(i) => i < self.spec_entries().len() && self.spec_entries()[i as int].working_dir@
                    == working_dir@ && self.spec_has(working_dir@),
                None => !self.spec_has(working_dir@),
            },
    {
        let n = self.entries.len();
        let mut i: usize = 0;
        while i < n
            invariant
                i <= n,
                n == self.entries@.len(),
                forall|j: int| 0 <= j < i ==> (#[trigger] self.entries@[j]).working_dir@ != working_dir@,
            decreases n - i,
        {
            if str_eq(self.entries[i].working_dir.as_str(), working_dir) {
                proof {
                    assert(self.spec_entries()[i as int].working_dir@ == working_dir@);
                    assert(self.spec_has(working_dir@));
                }
                return Some(i);
            }
            i = i + 1;
        }
        None
    }

    /// The session cached for the key, if any. Resolving one key reads
    /// nothing of any other key.
    pub fn lookup(&self, working_dir: &str) -> (r: Option<String>)
        requires
            self.wf(),
        ensures
            r is Some <==> self.spec_has(working_dir@),
            r matches Some(s) ==> s@ == self.spec_session_for(working_dir@),
    {
        match self.index_of(working_dir) {
            Some(i) => {
                proof {
                    self.lemma_get_at(i as int);
                }
                Some(self.entries[i].session_id.clone())
            },
            None => None,
        }
    }

    /// The lookup, phrased as the step a message-send takes: reuse the
    /// existing session or ask for exactly one to be created.
    pub fn begin_resolve(&self, working_dir: &str) -> (r: SessionResolution)
        requires
            self.wf(),
        ensures
            self.spec_has(working_dir@) ==> (r matches SessionResolution::Existing { session_id }
                && session_id@ == self.spec_session_for(working_dir@)),
            !self.spec_has(working_dir@) ==> r is NeedsCreation,
    {
        match self.lookup(working_dir) {
            Some(session_id) => SessionResolution::Existing { session_id },
            None => SessionResolution::NeedsCreation,
        }
    }

    /// Store the session the adapter created for a key that had none.
    /// No other key's entry is created or changed.
    pub fn store(&mut self, working_dir: String, session_id: String)
        requires
            old(self).wf(),
            !old(self).spec_has(working_dir@),
        ensures
            final(self).wf(),
            final(self).spec_has(working_dir@),
            final(self).spec_session_for(working_dir@) == session_id@,
            forall|key: Seq<char>|
                key != working_dir@ ==> final(self).spec_has(key) == old(self).spec_has(key),
            forall|key: Seq<char>|
                key != working_dir@ && old(self).spec_has(key) ==> final(self).spec_session_for(
                    key,
                ) == old(self).spec_session_for(key),
    {
        let ghost k = working_dir@;
        self.entries.push(SessionEntry { working_dir, session_id });
        proof {
            let oldv = old(self).spec_entries();
            let newv = self.spec_entries();
            self.lemma_get_at(oldv.len() as int);
            assert forall|key: Seq<char>| key != k && old(self).spec_has(key) implies final(self).spec_has(key) && final(self).spec_session_for(key) == old(self).spec_session_for(
                key,
            ) by {
                let i = old(self).spec_index_of(key);
                assert(0 <= i < oldv.len() && oldv[i].working_dir@ == key);
                old(self).lemma_get_at(i);
                self.lemma_get_at(i);
            }
            assert forall|key: Seq<char>| key != k && final(self).spec_has(key) implies old(self).spec_has(key) by {
                let i = self.spec_index_of(key);
                assert(0 <= i < newv.len() && newv[i].working_dir@ == key);
                assert(i < oldv.len());
            }
        }
    }

    /// Drop every session at once: all sessions are invalidated together
    /// when the supervisor stops.
    pub fn clear(&mut self)
        ensures
            final(self).wf(),
            forall|key: Seq<char>| !final(self).spec_has(key),
    {
        self.entries.clear();
    }
}

} // verus!
