//! The session store: an ephemeral key-value binding from a namespaced
//! token key to a user id, with its lookup semantics.
//!
//! The store of record lives outside the process (the login flow writes the
//! binding and the store enforces its lifetime); the guards only read it.
//! This in-memory store carries the same narrow interface — `get` answers
//! found, absent, or fault — so the guard chain can be exercised against a
//! deterministic store, and a connectivity fault can be injected at will.

use vstd::prelude::*;

verus! {

/// What a session-store read reports: a bound user id, a definitive
/// absence (never written, or expired), or a connectivity fault.
#[derive(Clone, Copy, PartialEq, Eq, Structural, Debug)]
pub enum SessionLookup {
    Found(i32),
    Absent,
    Fault,
}

/// The namespace prefix under which session bindings are keyed, so that
/// they cannot collide with unrelated entries.
pub open spec fn key_prefix() -> Seq<char> {
    "sessions/"@
}

/// The store key for a token: the namespace prefix followed by the raw
/// token.
pub open spec fn spec_session_key(token: Seq<char>) -> Seq<char> {
    key_prefix() + token
}

/// Build the store key for a token.
pub fn session_key(token: &str) -> (k: String)
    ensures
        k@ == spec_session_key(token@),
{
    let mut k = String::from_str("sessions/");
    k.append(token);
    k
}

/// First-match lookup over a sequence of bindings, newest first.
pub open spec fn spec_lookup(bindings: Seq<(Seq<char>, i32)>, key: Seq<char>) -> Option<i32>
    decreases bindings.len(),
{
    if bindings.len() == 0 {
        None
    } else if bindings[0].0 == key {
        Some(bindings[0].1)
    } else {
        spec_lookup(bindings.skip(1), key)
    }
}

proof fn lemma_lookup_none(bindings: Seq<(Seq<char>, i32)>, key: Seq<char>)
    requires
        forall|j: int| 0 <= j < bindings.len() ==> (#[trigger] bindings[j]).0 != key,
    ensures
        spec_lookup(bindings, key) is None,
    decreases bindings.len(),
{
    if bindings.len() > 0 {
        lemma_lookup_none(bindings.skip(1), key);
    }
}

proof fn lemma_lookup_at(bindings: Seq<(Seq<char>, i32)>, key: Seq<char>, i: int)
    requires
        0 <= i < bindings.len(),
        forall|j: int| 0 <= j < i ==> (#[trigger] bindings[j]).0 != key,
        bindings[i].0 == key,
    ensures
        spec_lookup(bindings, key) == Some(bindings[i].1),
    decreases i,
{
    if i > 0 {
        lemma_lookup_at(bindings.skip(1), key, i - 1);
    }
}

/// An in-memory session store with injectable connectivity.
pub struct SessionStore {
    entries: Vec<(String, i32)>,
    connected: bool,
}

impl SessionStore {
    /// The bindings the store holds, newest first.
    pub closed spec fn bindings(self) -> Seq<(Seq<char>, i32)> {
        self.entries@.map_values(|e: (String, i32)| (e.0@, e.1))
    }

    /// Whether reads reach the store at all; when false, every read reports
    /// a fault.
    pub closed spec fn is_connected(self) -> bool {
        self.connected
    }

    /// What a read of `key` reports.
    pub open spec fn spec_get(self, key: Seq<char>) -> SessionLookup {
        if !self.is_connected() {
            SessionLookup::Fault
        } else {
            match spec_lookup(self.bindings(), key) {
                Some(uid) => SessionLookup::Found(uid),
                None => SessionLookup::Absent,
            }
        }
    }

    /// An empty, reachable store.
    pub fn new() -> (s: Self)
        ensures
            s.bindings() == Seq::<(Seq<char>, i32)>::empty(),
            s.is_connected(),
    {
        let s = SessionStore { entries: Vec::new(), connected: true };
        proof {
            assert(s.bindings() =~= Seq::<(Seq<char>, i32)>::empty());
        }
        s
    }

    /// Bind `key` to `user_id`.  The new binding shadows any older one for
    /// the same key.
    pub fn insert(&mut self, key: String, user_id: i32)
        ensures
            final(self).bindings() == seq![(key@, user_id)] + old(self).bindings(),
            final(self).is_connected() == old(self).is_connected(),
    {
        self.entries.insert(0, (key, user_id));
        proof {
            assert(final(self).bindings() =~= seq![(key@, user_id)] + old(self).bindings());
        }
    }

    /// Sever or restore the store's connectivity; while severed, reads
    /// fault.
    pub fn set_connected(&mut self, up: bool)
        ensures
            final(self).bindings() == old(self).bindings(),
            final(self).is_connected() == up,
    {
        self.connected = up;
    }

    /// Read the binding for `key`.
    pub fn get(&self, key: &str) -> (r: SessionLookup)
        ensures
            r == self.spec_get(key@),
    {
        if !self.connected {
            return SessionLookup::Fault;
        }
        let k = String::from_str(key);
        let n = self.entries.len();
        let mut i: usize = 0;
        while i < n
            invariant
                n == self.entries.len(),
                i <= n,
                k@ == key@,
                self.connected,
                forall|j: int| 0 <= j < i ==> (#[trigger] self.bindings()[j]).0 != key@,
            decreases n - i,
        {
            let e = &self.entries[i];
            if e.0 == k {
                proof {
                    assert(self.bindings()[i as int]
                        == (self.entries@[i as int].0@, self.entries@[i as int].1));
                    lemma_lookup_at(self.bindings(), key@, i as int);
                }
                return SessionLookup::Found(e.1);
            }
            proof {
                assert(self.bindings()[i as int]
                    == (self.entries@[i as int].0@, self.entries@[i as int].1));
            }
            i = i + 1;
        }
        proof {
            lemma_lookup_none(self.bindings(), key@);
        }
        SessionLookup::Absent
    }
}

} // verus!
