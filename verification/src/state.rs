//! Everything the program keeps: settings, profiles and sessions.

use vstd::prelude::*;
use crate::bookmark::{BookmarkProfile, ProfileView};
use crate::config::{Config, ConfigView};
use crate::clock::Timestamp;
use crate::ident::is_token;
use crate::session::{swept, SessionMap, SessionStore};
use crate::text::str_eq;

verus! {

/// Whether some profile has the name.
pub open spec fn has_profile(profiles: Seq<ProfileView>, name: Seq<char>) -> bool {
    exists|i: int| 0 <= i < profiles.len() && (#[trigger] profiles[i]).name == name
}

/// Whether the profile at `at` is the first that has the name.
#[verifier::inline]
pub open spec fn is_first_named(profiles: Seq<ProfileView>, name: Seq<char>, at: int) -> bool {
    &&& 0 <= at < profiles.len()
    &&& profiles[at].name == name
    &&& forall|j: int| 0 <= j < at ==> (#[trigger] profiles[j]).name != name
}

/// The place of the first profile that has the name.
pub open spec fn first_named(profiles: Seq<ProfileView>, name: Seq<char>) -> int {
    choose|at: int| is_first_named(profiles, name, at)
}

/// The names of the profiles, in their order.
pub open spec fn profile_names(profiles: Seq<ProfileView>) -> Seq<Seq<char>> {
    Seq::new(profiles.len(), |i: int| profiles[i].name)
}

/// Whether no two profiles have one name.
pub open spec fn names_unique(profiles: Seq<ProfileView>) -> bool {
    forall|i: int, j: int|
        0 <= i < j < profiles.len() ==> (#[trigger] profiles[i]).name != (
        #[trigger] profiles[j]).name
}

/// There is one first profile of a name.
pub proof fn lemma_first_named(profiles: Seq<ProfileView>, name: Seq<char>, at: int)
    requires
        is_first_named(profiles, name, at),
    ensures
        first_named(profiles, name) == at,
        has_profile(profiles, name),
{
}

/// Where a name occurs, a first profile has it.
pub proof fn lemma_has_first(profiles: Seq<ProfileView>, name: Seq<char>)
    requires
        has_profile(profiles, name),
    ensures
        is_first_named(profiles, name, first_named(profiles, name)),
{
    let i = choose|i: int| 0 <= i < profiles.len() && (#[trigger] profiles[i]).name == name;
    lemma_first_before(profiles, name, i);
}

proof fn lemma_first_before(profiles: Seq<ProfileView>, name: Seq<char>, at: int)
    requires
        0 <= at < profiles.len(),
        profiles[at].name == name,
    ensures
        exists|first: int| is_first_named(profiles, name, first),
    decreases at,
{
    if exists|j: int| 0 <= j < at && (#[trigger] profiles[j]).name == name {
        let j = choose|j: int| 0 <= j < at && (#[trigger] profiles[j]).name == name;
        lemma_first_before(profiles, name, j);
    } else {
        assert(is_first_named(profiles, name, at));
    }
}

/// The state of the program.
#[derive(Debug)]
pub struct Storage {
    pub config: Config,
    pub profiles: Vec<BookmarkProfile>,
    pub sessions: SessionStore,
}

/// What a [`Storage`] holds.
pub struct StorageView {
    pub config: ConfigView,
    pub profiles: Seq<ProfileView>,
    pub sessions: SessionMap,
}

impl StorageView {
    /// The same state with other profiles.
    pub open spec fn with_profiles(self, profiles: Seq<ProfileView>) -> StorageView {
        StorageView { profiles, ..self }
    }

    /// The same state with other sessions.
    pub open spec fn with_sessions(self, sessions: SessionMap) -> StorageView {
        StorageView { sessions, ..self }
    }
}

impl View for Storage {
    type V = StorageView;

    open spec fn view(&self) -> StorageView {
        StorageView {
            config: self.config@,
            profiles: self.profiles.deep_view(),
            sessions: self.sessions@,
        }
    }
}

impl Storage {
    /// A state of the given settings, profiles and sessions.
    pub fn new(config: Config, profiles: Vec<BookmarkProfile>, sessions: SessionStore) -> (r: Self)
        ensures
            r.config == config,
            r.profiles == profiles,
            r.sessions == sessions,
    {
        Storage { config, profiles, sessions }
    }

    /// The state at the start of the program, at `now`: what was loaded,
    /// without the sessions that have expired.
    pub fn init_at(
        config: Config,
        profiles: Vec<BookmarkProfile>,
        sessions: SessionStore,
        now: Timestamp,
    ) -> (r: Self)
        ensures
            r.config == config,
            r.profiles == profiles,
            r.sessions@ == swept(sessions@, now),
    {
        let mut sessions = sessions;
        sessions.cleanup_sessions_at(now);
        Storage { config, profiles, sessions }
    }

    /// The state at the start of the program: what was loaded, without the
    /// sessions that have expired by the clock.
    pub fn init(config: Config, profiles: Vec<BookmarkProfile>, sessions: SessionStore) -> (r:
        Self)
        ensures
            r.config == config,
            r.profiles == profiles,
            exists|now: Timestamp|
                now.in_clock_range() && r.sessions@ == #[trigger] swept(sessions@, now),
    {
        let mut sessions = sessions;
        sessions.cleanup_sessions();
        Storage { config, profiles, sessions }
    }

    /// The place of the first profile that has the name.
    pub fn find_profile(&self, name: &str) -> (r: Option<usize>)
        ensures
            r is Some == has_profile(self@.profiles, name@),
            r matches Some(at) ==> is_first_named(self@.profiles, name@, at as int) && at
                == first_named(self@.profiles, name@),
    {
        let mut i: usize = 0;
        while i < self.profiles.len()
            invariant
                i <= self.profiles.len(),
                forall|j: int| 0 <= j < i ==> (#[trigger] self@.profiles[j]).name != name@,
            decreases self.profiles.len() - i,
        {
            if str_eq(self.profiles[i].name.as_str(), name) {
                proof {
                    lemma_first_named(self@.profiles, name@, i as int);
                }
                return Some(i);
            }
            i += 1;
        }
        None
    }

    /// The first profile that has the name.
    pub fn get_profile(&self, name: &str) -> (r: Option<&BookmarkProfile>)
        ensures
            r is Some == has_profile(self@.profiles, name@),
            r matches Some(profile) ==> {
                let at = first_named(self@.profiles, name@);
                &&& is_first_named(self@.profiles, name@, at)
                &&& *profile == self.profiles[at]
            },
    {
        match self.find_profile(name) {
            Some(at) => Some(&self.profiles[at]),
            None => None,
        }
    }

    /// The first profile that has the name, to be changed in place.
    pub fn get_profile_mut(&mut self, name: &str) -> (r: Option<&mut BookmarkProfile>)
        ensures
            r is Some == has_profile(old(self)@.profiles, name@),
            r is None ==> *final(self) == *old(self),
            r matches Some(profile) ==> {
                let at = first_named(old(self)@.profiles, name@);
                &&& is_first_named(old(self)@.profiles, name@, at)
                &&& *profile == old(self).profiles[at]
                &&& final(self).profiles@ == old(self).profiles@.update(at, *final(profile))
                &&& final(self).config == old(self).config
                &&& final(self).sessions == old(self).sessions
            },
    {
        match self.find_profile(name) {
            Some(at) => Some(&mut self.profiles[at]),
            None => None,
        }
    }

    /// The first profile, to be changed in place. An empty state is first
    /// given the profile named "Default", under a fresh version.
    pub fn get_default_profile_mut(&mut self) -> (r: &mut BookmarkProfile)
        ensures
            final(self).config == old(self).config,
            final(self).sessions == old(self).sessions,
            old(self).profiles.len() > 0 ==> {
                &&& *r == old(self).profiles[0]
                &&& final(self).profiles@ == old(self).profiles@.update(0, *final(r))
            },
            old(self).profiles.len() == 0 ==> {
                &&& r@.version is Some
                &&& is_token(r@.version.unwrap())
                &&& r@ == ProfileView::initial(r@.version.unwrap())
                &&& final(self).profiles@ == seq![*final(r)]
            },
    {
        if self.profiles.len() == 0 {
            self.profiles.push(BookmarkProfile::default());
        }
        &mut self.profiles[0]
    }
}

} // verus!
