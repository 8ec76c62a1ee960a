//! Login sessions with a sliding expiry.
//!
//! A session is known by its token. Each successful validation moves the
//! expiry forward by the whole session duration; an expired session is
//! dropped when it is next looked at.

use vstd::prelude::*;
use crate::clock::{duration_in_range, lemma_clock_shift, now, Timestamp};
use crate::config::Config;
use crate::ident::{fresh_token, is_token};
use crate::text::str_eq;

verus! {

/// One login session.
#[derive(Debug, PartialEq, Eq)]
pub struct SessionData {
    pub session_id: String,
    pub created_at: Timestamp,
    pub expires_at: Timestamp,
}

/// What a [`SessionData`] holds.
pub struct SessionView {
    pub session_id: Seq<char>,
    pub created_at: Timestamp,
    pub expires_at: Timestamp,
}

impl SessionView {
    /// Whether the session is still good at `now`.
    pub open spec fn live_at(self, now: Timestamp) -> bool {
        self.expires_at.is_after(now)
    }
}

impl DeepView for SessionData {
    type V = SessionView;

    open spec fn deep_view(&self) -> SessionView {
        SessionView {
            session_id: self.session_id@,
            created_at: self.created_at,
            expires_at: self.expires_at,
        }
    }
}

impl View for SessionData {
    type V = SessionView;

    open spec fn view(&self) -> SessionView {
        self.deep_view()
    }
}

impl Clone for SessionData {
    fn clone(&self) -> (r: Self)
        ensures
            r@ == self@,
    {
        SessionData {
            session_id: self.session_id.clone(),
            created_at: self.created_at,
            expires_at: self.expires_at,
        }
    }
}

/// A session under the token by which it is found.
#[derive(Debug, PartialEq, Eq)]
pub struct SessionEntry {
    pub key: String,
    pub data: SessionData,
}

impl Clone for SessionEntry {
    fn clone(&self) -> (r: Self)
        ensures
            r.key@ == self.key@,
            r.data@ == self.data@,
    {
        SessionEntry { key: self.key.clone(), data: self.data.clone() }
    }
}

/// The sessions as a map from token to session.
pub type SessionMap = Map<Seq<char>, SessionView>;

/// Whether some entry stands under `key`.
pub open spec fn has_key(entries: Seq<SessionEntry>, key: Seq<char>) -> bool {
    exists|i: int| 0 <= i < entries.len() && (#[trigger] entries[i]).key@ == key
}

/// Whether no two entries stand under one key.
pub open spec fn unique_keys(entries: Seq<SessionEntry>) -> bool {
    forall|i: int, j: int|
        0 <= i < j < entries.len() ==> (#[trigger] entries[i]).key@ != (#[trigger] entries[j]).key@
}

/// The place of an entry under `key`.
pub open spec fn index_of_key(entries: Seq<SessionEntry>, key: Seq<char>) -> int {
    choose|i: int| 0 <= i < entries.len() && (#[trigger] entries[i]).key@ == key
}

/// The map that the entries stand for.
pub open spec fn entries_map(entries: Seq<SessionEntry>) -> SessionMap {
    Map::new(
        |key: Seq<char>| has_key(entries, key),
        |key: Seq<char>| entries[index_of_key(entries, key)].data@,
    )
}

/// The sessions after one was created under `id` at `now`, to last
/// `duration_secs` seconds.
pub open spec fn created(
    sessions: SessionMap,
    id: Seq<char>,
    now: Timestamp,
    duration_secs: i64,
) -> SessionMap {
    sessions.insert(
        id,
        SessionView { session_id: id, created_at: now, expires_at: now.shifted(duration_secs) },
    )
}

/// The sessions after the one under `id` was validated at `now`, and
/// whether it was found good. A good session expires `duration_secs` seconds
/// after `now`; one that has expired is dropped.
pub open spec fn validated(
    sessions: SessionMap,
    id: Seq<char>,
    now: Timestamp,
    duration_secs: i64,
) -> (SessionMap, bool) {
    if !sessions.contains_key(id) {
        (sessions, false)
    } else if sessions[id].live_at(now) {
        (
            sessions.insert(
                id,
                SessionView { expires_at: now.shifted(duration_secs), ..sessions[id] },
            ),
            true,
        )
    } else {
        (sessions.remove(id), false)
    }
}

/// The sessions that are still good at `now`.
pub open spec fn swept(sessions: SessionMap, now: Timestamp) -> SessionMap {
    Map::new(
        |key: Seq<char>| sessions.contains_key(key) && sessions[key].live_at(now),
        |key: Seq<char>| sessions[key],
    )
}

proof fn lemma_map_at(entries: Seq<SessionEntry>, i: int)
    requires
        unique_keys(entries),
        0 <= i < entries.len(),
    ensures
        entries_map(entries).contains_key(entries[i].key@),
        entries_map(entries)[entries[i].key@] == entries[i].data@,
        index_of_key(entries, entries[i].key@) == i,
{
}

proof fn lemma_map_push(entries: Seq<SessionEntry>, entry: SessionEntry)
    requires
        unique_keys(entries),
        !has_key(entries, entry.key@),
    ensures
        unique_keys(entries.push(entry)),
        entries_map(entries.push(entry)) == entries_map(entries).insert(entry.key@, entry.data@),
{
    let after = entries.push(entry);
    let last = entries.len() as int;
    let m1 = entries_map(after);
    let m2 = entries_map(entries).insert(entry.key@, entry.data@);
    assert forall|key: Seq<char>| m1.contains_key(key) == m2.contains_key(key) by {
        if has_key(entries, key) {
            assert(after[index_of_key(entries, key)].key@ == key);
        }
        if key == entry.key@ {
            assert(after[last].key@ == key);
        }
    }
}

proof fn lemma_map_remove(entries: Seq<SessionEntry>, at: int)
    requires
        unique_keys(entries),
        0 <= at < entries.len(),
    ensures
        unique_keys(entries.remove(at)),
        entries_map(entries.remove(at)) == entries_map(entries).remove(entries[at].key@),
{
    let after = entries.remove(at);
    let gone = entries[at].key@;
    let m1 = entries_map(after);
    let m2 = entries_map(entries).remove(gone);
    lemma_map_at(entries, at);
    assert forall|key: Seq<char>| m1.contains_key(key) == m2.contains_key(key) by {
        if has_key(after, key) && key == gone {
            let i = index_of_key(after, key);
            lemma_map_at(entries, if i < at { i } else { i + 1 });
        }
        if has_key(entries, key) && key != gone {
            let i = index_of_key(entries, key);
            assert(after[if i < at { i } else { i - 1 }] == entries[i]);
        }
    }
}

proof fn lemma_map_update(entries: Seq<SessionEntry>, at: int, entry: SessionEntry)
    requires
        unique_keys(entries),
        0 <= at < entries.len(),
        entry.key@ == entries[at].key@,
    ensures
        unique_keys(entries.update(at, entry)),
        entries_map(entries.update(at, entry)) == entries_map(entries).insert(
            entry.key@,
            entry.data@,
        ),
{
    let after = entries.update(at, entry);
    let m1 = entries_map(after);
    let m2 = entries_map(entries).insert(entry.key@, entry.data@);
    assert forall|key: Seq<char>| m1.contains_key(key) == m2.contains_key(key) by {
        if has_key(entries, key) {
            assert(after[index_of_key(entries, key)].key@ == key);
        }
    }
}

/// The map of the entries put in one after the other, a later entry over
/// an earlier one of its key.
pub open spec fn inserted_all(sessions: SessionMap, entries: Seq<SessionEntry>) -> SessionMap
    decreases entries.len(),
{
    if entries.len() == 0 {
        sessions
    } else {
        inserted_all(sessions, entries.drop_last()).insert(
            entries.last().key@,
            entries.last().data@,
        )
    }
}

/// Entries of distinct keys, put in one after the other, make the map
/// that they stand for.
pub proof fn lemma_inserted_all(entries: Seq<SessionEntry>)
    requires
        unique_keys(entries),
    ensures
        inserted_all(SessionMap::empty(), entries) == entries_map(entries),
    decreases entries.len(),
{
    if entries.len() > 0 {
        let front = entries.drop_last();
        let last = entries.last();
        lemma_inserted_all(front);
        lemma_map_push(front, last);
        assert(front.push(last) =~= entries);
    }
}

/// Entries of distinct keys stand for a map of as many sessions.
pub proof fn lemma_entries_count(entries: Seq<SessionEntry>)
    requires
        unique_keys(entries),
    ensures
        entries_map(entries).dom().finite(),
        entries_map(entries).dom().len() == entries.len(),
    decreases entries.len(),
{
    if entries.len() == 0 {
        assert(entries_map(entries).dom() =~= Set::<Seq<char>>::empty());
    } else {
        let front = entries.drop_last();
        let last = entries.last();
        lemma_entries_count(front);
        lemma_map_push(front, last);
        assert(front.push(last) =~= entries);
    }
}

/// The sessions that are known, each under its token.
#[derive(Debug)]
pub struct SessionStore {
    sessions: Vec<SessionEntry>,
}

impl View for SessionStore {
    type V = SessionMap;

    closed spec fn view(&self) -> SessionMap {
        entries_map(self.sessions@)
    }
}

impl Default for SessionStore {
    fn default() -> (r: Self)
        ensures
            r@ == SessionMap::empty(),
    {
        SessionStore::new()
    }
}

impl SessionStore {
    #[verifier::type_invariant]
    spec fn well_formed(self) -> bool {
        unique_keys(self.sessions@)
    }

    /// A store without sessions.
    pub fn new() -> (r: Self)
        ensures
            r@ == SessionMap::empty(),
    {
        let r = SessionStore { sessions: Vec::new() };
        r
    }

    /// Takes the entries out, leaving none.
    fn take_entries(&mut self) -> (entries: Vec<SessionEntry>)
        ensures
            entries@ == old(self).sessions@,
            final(self).sessions@ == Seq::<SessionEntry>::empty(),
    {
        let mut entries: Vec<SessionEntry> = Vec::new();
        core::mem::swap(&mut self.sessions, &mut entries);
        entries
    }

    fn position(&self, key: &str) -> (r: Option<usize>)
        ensures
            match r {
                Some(i) => i < self.sessions.len() && self.sessions[i as int].key@ == key@,
                None => !has_key(self.sessions@, key@),
            },
    {
        let mut i: usize = 0;
        while i < self.sessions.len()
            invariant
                i <= self.sessions.len(),
                forall|j: int| 0 <= j < i ==> (#[trigger] self.sessions[j]).key@ != key@,
            decreases self.sessions.len() - i,
        {
            if str_eq(self.sessions[i].key.as_str(), key) {
                return Some(i);
            }
            i += 1;
        }
        None
    }

    /// How many sessions there are.
    pub fn len(&self) -> (n: usize)
        ensures
            self@.dom().finite(),
            n == self@.dom().len(),
    {
        proof {
            use_type_invariant(self);
            lemma_entries_count(self.sessions@);
        }
        self.sessions.len()
    }

    /// The session under `session_id`, if there is one.
    pub fn get(&self, session_id: &str) -> (r: Option<&SessionData>)
        ensures
            r is Some == self@.contains_key(session_id@),
            r matches Some(data) ==> data@ == self@[session_id@],
    {
        proof {
            use_type_invariant(self);
        }
        match self.position(session_id) {
            Some(i) => {
                proof {
                    lemma_map_at(self.sessions@, i as int);
                }
                Some(&self.sessions[i].data)
            },
            None => None,
        }
    }

    /// Puts `data` under `key`, in place of what stood there.
    pub fn insert(&mut self, key: String, data: SessionData)
        ensures
            final(self)@ == old(self)@.insert(key@, data@),
    {
        proof {
            use_type_invariant(&*self);
        }
        let found = self.position(key.as_str());
        let entry = SessionEntry { key, data };
        let mut entries = self.take_entries();
        match found {
            Some(i) => {
                proof {
                    lemma_map_update(entries@, i as int, entry);
                }
                entries.set(i, entry);
            },
            None => {
                proof {
                    lemma_map_push(entries@, entry);
                }
                entries.push(entry);
            },
        }
        self.sessions = entries;
    }

    /// A store of the given entries, put in one after the other.
    pub fn from_entries(entries: Vec<SessionEntry>) -> (r: Self)
        ensures
            r@ == inserted_all(SessionMap::empty(), entries@),
    {
        let mut store = SessionStore::new();
        let mut i: usize = 0;
        while i < entries.len()
            invariant
                i <= entries.len(),
                store@ == inserted_all(SessionMap::empty(), entries@.subrange(0, i as int)),
            decreases entries.len() - i,
        {
            proof {
                assert(entries@.subrange(0, i + 1).drop_last() =~= entries@.subrange(0, i as int));
            }
            let entry = entries[i].clone();
            store.insert(entry.key, entry.data);
            i += 1;
        }
        assert(entries@.subrange(0, i as int) =~= entries@);
        store
    }

    /// All sessions with their tokens, each token once.
    pub fn entries(&self) -> (r: Vec<SessionEntry>)
        ensures
            unique_keys(r@),
            entries_map(r@) == self@,
    {
        proof {
            use_type_invariant(self);
        }
        self.sessions.clone()
    }

    /// Drops the sessions that have expired at `now`.
    pub fn cleanup_sessions_at(&mut self, now: Timestamp)
        ensures
            final(self)@ == swept(old(self)@, now),
    {
        proof {
            use_type_invariant(&*self);
        }
        let mut entries = self.take_entries();
        let mut i: usize = 0;
        while i < entries.len()
            invariant
                i <= entries.len(),
                unique_keys(entries@),
                forall|j: int| 0 <= j < i ==> (#[trigger] entries[j]).data@.live_at(now),
                swept(entries_map(entries@), now) == swept(old(self)@, now),
            decreases entries.len() - i,
        {
            if entries[i].data.expires_at.later_than(&now) {
                i += 1;
            } else {
                proof {
                    lemma_map_at(entries@, i as int);
                    lemma_map_remove(entries@, i as int);
                }
                entries.remove(i);
            }
        }
        self.sessions = entries;
    }

    /// Drops the sessions that have expired by the clock.
    pub fn cleanup_sessions(&mut self)
        ensures
            exists|now: Timestamp|
                now.in_clock_range() && final(self)@ == #[trigger] swept(old(self)@, now),
    {
        let t = now();
        self.cleanup_sessions_at(t);
    }

    /// Records a session under `session_id`, created at `now` and good for
    /// `duration_secs` seconds. A session that stood under the same token is
    /// replaced.
    pub fn create_session_at(&mut self, session_id: String, now: Timestamp, duration_secs: i64)
        requires
            now.can_shift(duration_secs),
        ensures
            final(self)@ == created(old(self)@, session_id@, now, duration_secs),
    {
        let data = SessionData {
            session_id: session_id.clone(),
            created_at: now,
            expires_at: now.plus_seconds(duration_secs),
        };
        self.insert(session_id, data);
    }

    /// Creates a session under a fresh token, good for the configured
    /// duration from now on, and returns the token.
    pub fn create_session(&mut self, config: &Config) -> (session_id: String)
        requires
            duration_in_range(config.auth.session_duration_secs),
        ensures
            is_token(session_id@),
            exists|now: Timestamp|
                now.in_clock_range() && final(self)@ == #[trigger] created(
                    old(self)@,
                    session_id@,
                    now,
                    config.auth.session_duration_secs,
                ),
    {
        let session_id = fresh_token();
        let t = now();
        proof {
            lemma_clock_shift(t, config.auth.session_duration_secs);
        }
        self.create_session_at(session_id.clone(), t, config.auth.session_duration_secs);
        session_id
    }

    /// Tells whether the session under `session_id` is good at `now`. A good
    /// session is kept for `duration_secs` seconds more, counted from `now`;
    /// one that has expired is dropped.
    pub fn validate_session_at(
        &mut self,
        session_id: &str,
        now: Timestamp,
        duration_secs: i64,
    ) -> (valid: bool)
        requires
            old(self)@.contains_key(session_id@) && old(self)@[session_id@].live_at(now)
                ==> now.can_shift(duration_secs),
        ensures
            (final(self)@, valid) == validated(old(self)@, session_id@, now, duration_secs),
    {
        proof {
            use_type_invariant(&*self);
        }
        match self.position(session_id) {
            None => false,
            Some(i) => {
                let mut entries = self.take_entries();
                let ghost before = entries@;
                proof {
                    lemma_map_at(before, i as int);
                }
                let valid = entries[i].data.expires_at.later_than(&now);
                if valid {
                    let entry = &mut entries[i];
                    entry.data.expires_at = now.plus_seconds(duration_secs);
                    proof {
                        lemma_map_update(before, i as int, entries@[i as int]);
                    }
                } else {
                    proof {
                        lemma_map_remove(before, i as int);
                    }
                    entries.remove(i);
                }
                self.sessions = entries;
                valid
            },
        }
    }

    /// Tells whether the session under `session_id` is good by the clock,
    /// and keeps a good one for the configured duration more.
    pub fn validate_session(&mut self, session_id: &str, config: &Config) -> (valid: bool)
        requires
            old(self)@.contains_key(session_id@) ==> duration_in_range(
                config.auth.session_duration_secs,
            ),
        ensures
            exists|now: Timestamp|
                now.in_clock_range() && (final(self)@, valid) == #[trigger] validated(
                    old(self)@,
                    session_id@,
                    now,
                    config.auth.session_duration_secs,
                ),
    {
        let t = now();
        proof {
            if self@.contains_key(session_id@) {
                lemma_clock_shift(t, config.auth.session_duration_secs);
            }
        }
        self.validate_session_at(session_id, t, config.auth.session_duration_secs)
    }

    /// Drops the session under `session_id`, if there is one.
    pub fn delete_session(&mut self, session_id: &str)
        ensures
            final(self)@ == old(self)@.remove(session_id@),
    {
        proof {
            use_type_invariant(&*self);
        }
        match self.position(session_id) {
            Some(i) => {
                let mut entries = self.take_entries();
                proof {
                    lemma_map_remove(entries@, i as int);
                }
                entries.remove(i);
                self.sessions = entries;
            },
            None => {},
        }
    }
}

} // verus!
