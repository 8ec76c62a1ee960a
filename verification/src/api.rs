//! What each request does to the profiles.
//!
//! Every function here takes the state and the decoded request, changes the
//! state and returns the answer. Nothing is written to disk here: the caller
//! saves the profiles after a change.

use vstd::prelude::*;
use crate::bookmark::{BookmarkProfile, ProfileView};
use crate::clock::{duration_in_range, lemma_clock_shift, now, Timestamp};
use crate::cookie::{session_cookie, session_cookie_text};
use crate::error::Error;
use crate::ident::{fresh_token, is_token};
use crate::session::SessionMap;
use crate::state::{first_named, has_profile, is_first_named, profile_names, Storage, StorageView};
use crate::text::str_eq;

verus! {

/// A request that may name a profile.
#[derive(Debug, PartialEq, Eq)]
pub struct OptionalProfileQuery {
    pub profile: Option<String>,
}

/// A request that names a profile.
#[derive(Debug, PartialEq, Eq)]
pub struct ProfileQuery {
    pub profile: String,
}

/// A request to give a profile another name.
#[derive(Debug, PartialEq, Eq)]
pub struct RenameProfileRequest {
    pub name: String,
    pub new_name: String,
}

/// The version of a profile after a change, if the profile was found.
#[derive(Debug, PartialEq, Eq)]
pub struct VersionResponse {
    pub version: Option<String>,
}

/// A request to log in.
#[derive(Debug, PartialEq, Eq)]
pub struct LoginRequest {
    pub username: String,
    pub password: String,
}

/// The answer to a request to log in or out: the status, and the cookie to
/// set, if any.
#[derive(Debug, PartialEq, Eq)]
pub struct AuthResponse {
    pub status: u16,
    pub set_cookie: Option<String>,
}

/// The status of a login that was granted.
pub const STATUS_OK: u16 = 200;

/// The status of a login where none is asked for.
pub const STATUS_ACCEPTED: u16 = 202;

/// What is to be saved after a profile was read.
#[derive(Debug, Clone, Copy, PartialEq, Eq, Structural)]
pub enum Persist {
    /// Nothing was changed.
    Nothing,
    /// The first profile was created: save, and carry on if that fails.
    BestEffort,
    /// A profile was given a version: save, and fail if that fails.
    Required,
}

/// The profiles after `incoming` was added, and the answer.
pub open spec fn created(profiles: Seq<ProfileView>, incoming: ProfileView) -> (
    Seq<ProfileView>,
    Result<(), Error>,
) {
    if has_profile(profiles, incoming.name) {
        (profiles, Err(Error::ProfileAlreadyExists))
    } else {
        (profiles.push(incoming), Ok(()))
    }
}

/// The profiles after the first one named `name` was removed, and the
/// answer. The only profile left is never removed.
pub open spec fn deleted(profiles: Seq<ProfileView>, name: Seq<char>) -> (
    Seq<ProfileView>,
    Result<(), Error>,
) {
    if profiles.len() == 1 {
        (profiles, Err(Error::CannotDeleteLastProfile))
    } else if has_profile(profiles, name) {
        (profiles.remove(first_named(profiles, name)), Ok(()))
    } else {
        (profiles, Ok(()))
    }
}

/// Whether a client that read the profile under `incoming` holds a stale
/// copy of the one stored under `stored`. Where either has no version the
/// question is not asked.
pub open spec fn version_conflict(incoming: Option<Seq<char>>, stored: Option<Seq<char>>) -> bool {
    incoming is Some && stored is Some && incoming != stored
}

/// The profile that takes the place of `stored` when `incoming` is written
/// over it under `version`: the incoming one, with the background images
/// that were stored.
pub open spec fn replacement(
    stored: ProfileView,
    incoming: ProfileView,
    version: Seq<char>,
) -> ProfileView {
    incoming.with_background_images(stored.background_images).with_version(Some(version))
}

/// The profiles after `incoming` was written over the stored profile of
/// its name under `version`, and the answer.
pub open spec fn updated(profiles: Seq<ProfileView>, incoming: ProfileView, version: Seq<char>) -> (
    Seq<ProfileView>,
    Result<(), Error>,
) {
    if !has_profile(profiles, incoming.name) {
        (profiles, Ok(()))
    } else {
        let at = first_named(profiles, incoming.name);
        if version_conflict(incoming.version, profiles[at].version) {
            (profiles, Err(Error::VersionConflict))
        } else {
            (profiles.update(at, replacement(profiles[at], incoming, version)), Ok(()))
        }
    }
}

/// The profiles after the one named `name` was given the name `new_name`
/// under `version`, and the answer: the new version, or none where no
/// profile is named `name`.
pub open spec fn renamed(
    profiles: Seq<ProfileView>,
    name: Seq<char>,
    new_name: Seq<char>,
    version: Seq<char>,
) -> (Seq<ProfileView>, Result<Option<Seq<char>>, Error>) {
    if has_profile(profiles, new_name) {
        (profiles, Err(Error::ProfileAlreadyExists))
    } else if has_profile(profiles, name) {
        let at = first_named(profiles, name);
        (
            profiles.update(at, profiles[at].with_name(new_name).with_version(Some(version))),
            Ok(Some(version)),
        )
    } else {
        (profiles, Ok(None))
    }
}

/// What an answer that carries a version holds.
pub open spec fn version_answer(r: Result<VersionResponse, Error>) -> Result<
    Option<Seq<char>>,
    Error,
> {
    match r {
        Ok(response) => Ok(response.version.deep_view()),
        Err(e) => Err(e),
    }
}

/// Whether `names` gives each profile once, by its name.
pub open spec fn is_reordering(names: Seq<Seq<char>>, profiles: Seq<ProfileView>) -> bool {
    &&& names.len() == profiles.len()
    &&& names.no_duplicates()
    &&& forall|i: int| 0 <= i < names.len() ==> has_profile(profiles, #[trigger] names[i])
}

/// The profiles in the order of `names`.
pub open spec fn in_order(profiles: Seq<ProfileView>, names: Seq<Seq<char>>) -> Seq<ProfileView> {
    Seq::new(names.len(), |i: int| profiles[first_named(profiles, names[i])])
}

/// The profiles after they were put in the order of `names`, and the
/// answer.
pub open spec fn reordered(profiles: Seq<ProfileView>, names: Seq<Seq<char>>) -> (
    Seq<ProfileView>,
    Result<(), Error>,
) {
    if is_reordering(names, profiles) {
        (in_order(profiles, names), Ok(()))
    } else {
        (profiles, Err(Error::InvalidProfileOrder))
    }
}

/// The place of the profile that a request for `wanted` is answered with:
/// the first of that name, or else the first of all.
pub open spec fn served_at(profiles: Seq<ProfileView>, wanted: Option<Seq<char>>) -> int {
    match wanted {
        Some(name) if has_profile(profiles, name) => first_named(profiles, name),
        _ => 0,
    }
}

/// The profiles after a request for `wanted` was answered, where `token`
/// is the version at hand for a profile that has none: an empty state gets
/// the profile named "Default", and a served profile without a version gets
/// one.
pub open spec fn served(
    profiles: Seq<ProfileView>,
    wanted: Option<Seq<char>>,
    token: Seq<char>,
) -> (Seq<ProfileView>, Persist) {
    if profiles.len() == 0 {
        (seq![ProfileView::initial(token)], Persist::BestEffort)
    } else {
        let at = served_at(profiles, wanted);
        if profiles[at].version is Some {
            (profiles, Persist::Nothing)
        } else {
            (profiles.update(at, profiles[at].with_version(Some(token))), Persist::Required)
        }
    }
}

/// Adds a profile. A name can be taken once.
pub fn create_profile(storage: &mut Storage, payload: BookmarkProfile) -> (r: Result<(), Error>)
    ensures
        r == created(old(storage)@.profiles, payload@).1,
        final(storage)@ == old(storage)@.with_profiles(
            created(old(storage)@.profiles, payload@).0,
        ),
{
    if storage.find_profile(payload.name.as_str()).is_some() {
        return Err(Error::ProfileAlreadyExists);
    }
    storage.profiles.push(payload);
    assert(storage.profiles.deep_view() =~= old(storage).profiles.deep_view().push(payload@));
    Ok(())
}

/// Removes the first profile of the given name, unless it is the only
/// profile left. Where no profile has the name, nothing changes.
pub fn delete_profile(storage: &mut Storage, params: &ProfileQuery) -> (r: Result<(), Error>)
    ensures
        r == deleted(old(storage)@.profiles, params.profile@).1,
        final(storage)@ == old(storage)@.with_profiles(
            deleted(old(storage)@.profiles, params.profile@).0,
        ),
{
    if storage.profiles.len() == 1 {
        return Err(Error::CannotDeleteLastProfile);
    }
    match storage.find_profile(params.profile.as_str()) {
        Some(at) => {
            storage.profiles.remove(at);
            assert(storage.profiles.deep_view() =~= old(storage).profiles.deep_view().remove(
                at as int,
            ));
        },
        None => {},
    }
    Ok(())
}

/// Writes `payload` over the stored profile of its name, under `version`.
/// A payload whose version differs from the stored one is refused. The
/// background images stay as they are stored. Where no profile has the name,
/// nothing changes.
pub fn update_profile_with(storage: &mut Storage, payload: BookmarkProfile, version: String) -> (r:
    Result<(), Error>)
    ensures
        r == updated(old(storage)@.profiles, payload@, version@).1,
        final(storage)@ == old(storage)@.with_profiles(
            updated(old(storage)@.profiles, payload@, version@).0,
        ),
{
    match storage.find_profile(payload.name.as_str()) {
        None => Ok(()),
        Some(at) => {
            let conflict = match (&payload.version, &storage.profiles[at].version) {
                (Some(incoming), Some(stored)) => !str_eq(incoming.as_str(), stored.as_str()),
                _ => false,
            };
            if conflict {
                return Err(Error::VersionConflict);
            }
            let mut payload = payload;
            payload.background_images = storage.profiles[at].background_images.clone();
            payload.set_version(version);
            storage.profiles.set(at, payload);
            assert(storage.profiles.deep_view() =~= old(storage).profiles.deep_view().update(
                at as int,
                payload@,
            ));
            Ok(())
        },
    }
}

/// Writes `payload` over the stored profile of its name, under a fresh
/// version.
pub fn update_profile(storage: &mut Storage, payload: BookmarkProfile) -> (r: Result<(), Error>)
    ensures
        exists|version: Seq<char>|
            {
                let step = #[trigger] updated(old(storage)@.profiles, payload@, version);
                &&& is_token(version)
                &&& r == step.1
                &&& final(storage)@ == old(storage)@.with_profiles(step.0)
            },
{
    update_profile_with(storage, payload, fresh_token())
}

/// Gives the first profile named `payload.name` the name
/// `payload.new_name`, and puts it under `version`. A name that is taken is
/// refused. Where no profile has the old name, nothing changes.
pub fn rename_profile_with(
    storage: &mut Storage,
    payload: RenameProfileRequest,
    version: String,
) -> (r: Result<VersionResponse, Error>)
    ensures
        version_answer(r) == renamed(
            old(storage)@.profiles,
            payload.name@,
            payload.new_name@,
            version@,
        ).1,
        final(storage)@ == old(storage)@.with_profiles(
            renamed(old(storage)@.profiles, payload.name@, payload.new_name@, version@).0,
        ),
{
    if storage.find_profile(payload.new_name.as_str()).is_some() {
        return Err(Error::ProfileAlreadyExists);
    }
    match storage.get_profile_mut(payload.name.as_str()) {
        Some(profile) => {
            profile.name = payload.new_name;
            profile.set_version(version.clone());
            assert(storage.profiles.deep_view() =~= old(storage).profiles.deep_view().update(
                first_named(old(storage)@.profiles, payload.name@),
                old(storage)@.profiles[first_named(old(storage)@.profiles, payload.name@)].with_name(
                    payload.new_name@,
                ).with_version(Some(version@)),
            ));
            Ok(VersionResponse { version: Some(version) })
        },
        None => Ok(VersionResponse { version: None }),
    }
}

/// Gives a profile another name, and puts it under a fresh version.
pub fn rename_profile(storage: &mut Storage, payload: RenameProfileRequest) -> (r: Result<
    VersionResponse,
    Error,
>)
    ensures
        exists|version: Seq<char>|
            {
                let step = #[trigger] renamed(
                    old(storage)@.profiles,
                    payload.name@,
                    payload.new_name@,
                    version,
                );
                &&& is_token(version)
                &&& version_answer(r) == step.1
                &&& final(storage)@ == old(storage)@.with_profiles(step.0)
            },
{
    rename_profile_with(storage, payload, fresh_token())
}

/// The names of all profiles, in their order.
pub fn get_all_profile_names(storage: &Storage) -> (names: Vec<String>)
    ensures
        names.deep_view() == profile_names(storage@.profiles),
{
    let mut names: Vec<String> = Vec::new();
    let mut i: usize = 0;
    while i < storage.profiles.len()
        invariant
            i <= storage.profiles.len(),
            names.len() == i,
            forall|j: int| 0 <= j < i ==> (#[trigger] names[j])@ == storage.profiles[j].name@,
        decreases storage.profiles.len() - i,
    {
        names.push(storage.profiles[i].name.clone());
        i += 1;
    }
    names
}

/// Whether a name occurs twice.
fn has_duplicate(names: &Vec<String>) -> (r: bool)
    ensures
        r == !names.deep_view().no_duplicates(),
{
    let ghost view = names.deep_view();
    let mut i: usize = 0;
    while i < names.len()
        invariant
            i <= names.len(),
            view == names.deep_view(),
            forall|a: int, b: int| 0 <= a < i && a < b < names.len() ==> view[a] != view[b],
        decreases names.len() - i,
    {
        let mut j: usize = i + 1;
        while j < names.len()
            invariant
                i < j <= names.len(),
                view == names.deep_view(),
                forall|b: int| i < b < j ==> view[i as int] != view[b],
            decreases names.len() - j,
        {
            if str_eq(names[i].as_str(), names[j].as_str()) {
                assert(view[i as int] == view[j as int]);
                return true;
            }
            j += 1;
        }
        i += 1;
    }
    false
}

/// Puts the profiles in the order of `names`, which is to give each
/// profile once, by its name.
pub fn sort_profiles(storage: &mut Storage, names: &Vec<String>) -> (r: Result<(), Error>)
    ensures
        r == reordered(old(storage)@.profiles, names.deep_view()).1,
        final(storage)@ == old(storage)@.with_profiles(
            reordered(old(storage)@.profiles, names.deep_view()).0,
        ),
{
    if names.len() != storage.profiles.len() {
        return Err(Error::InvalidProfileOrder);
    }
    if has_duplicate(names) {
        return Err(Error::InvalidProfileOrder);
    }
    let ghost wanted = names.deep_view();
    let ghost before = storage@.profiles;
    let mut sorted: Vec<BookmarkProfile> = Vec::new();
    let mut i: usize = 0;
    while i < names.len()
        invariant
            i <= names.len(),
            sorted.len() == i,
            *storage == *old(storage),
            wanted == names.deep_view(),
            before == storage@.profiles,
            forall|j: int| 0 <= j < i ==> has_profile(before, #[trigger] wanted[j]),
            forall|j: int|
                0 <= j < i ==> (#[trigger] sorted[j])@ == before[first_named(before, wanted[j])],
        decreases names.len() - i,
    {
        match storage.get_profile(names[i].as_str()) {
            Some(profile) => {
                sorted.push(profile.clone());
            },
            None => {
                assert(!has_profile(before, wanted[i as int]));
                return Err(Error::InvalidProfileOrder);
            },
        }
        i += 1;
    }
    storage.profiles = sorted;
    assert(storage.profiles.deep_view() =~= in_order(before, wanted));
    Ok(())
}

/// The profile that a request is answered with, and what is to be saved.
pub struct ServedProfile {
    pub profile: BookmarkProfile,
    pub persist: Persist,
}

/// Answers a request for a profile: the first of the given name, or else
/// the first of all. An empty state is first given the profile named
/// "Default", and a profile without a version is given one; the version is
/// a fresh token in both cases.
pub fn get_profile(storage: &mut Storage, params: &OptionalProfileQuery) -> (r: ServedProfile)
    ensures
        exists|token: Seq<char>|
            {
                let step = #[trigger] served(
                    old(storage)@.profiles,
                    params.profile.deep_view(),
                    token,
                );
                &&& step.1 != Persist::Nothing ==> is_token(token)
                &&& final(storage)@ == old(storage)@.with_profiles(step.0)
                &&& r.persist == step.1
                &&& r.profile@ == step.0[served_at(
                    old(storage)@.profiles,
                    params.profile.deep_view(),
                )]
            },
{
    let ghost before = storage@.profiles;
    let ghost wanted = params.profile.deep_view();
    let found = match &params.profile {
        Some(name) => storage.find_profile(name.as_str()),
        None => None,
    };
    let at: usize = match found {
        Some(at) => at,
        None => 0,
    };
    if storage.profiles.len() == 0 {
        let token = fresh_token();
        storage.profiles.push(BookmarkProfile::initial(token.clone()));
        let profile = storage.profiles[0].clone();
        assert(storage.profiles.deep_view() =~= seq![ProfileView::initial(token@)]);
        assert({
            let step = served(before, wanted, token@);
            &&& is_token(token@)
            &&& storage@ == old(storage)@.with_profiles(step.0)
            &&& Persist::BestEffort == step.1
            &&& profile@ == step.0[served_at(before, wanted)]
        });
        return ServedProfile { profile, persist: Persist::BestEffort };
    }
    if storage.profiles[at].version.is_some() {
        let profile = storage.profiles[at].clone();
        return ServedProfile { profile, persist: Persist::Nothing };
    }
    let token = fresh_token();
    let mut versioned = storage.profiles[at].clone();
    versioned.set_version(token.clone());
    let profile = versioned.clone();
    storage.profiles.set(at, versioned);
    assert(storage.profiles.deep_view() =~= before.update(
        at as int,
        before[at as int].with_version(Some(token@)),
    ));
    assert({
        let step = served(before, wanted, token@);
        &&& is_token(token@)
        &&& storage@ == old(storage)@.with_profiles(step.0)
        &&& Persist::Required == step.1
        &&& profile@ == step.0[served_at(before, wanted)]
    });
    ServedProfile { profile, persist: Persist::Required }
}

/// What an answer to a login holds.
pub open spec fn auth_answer(r: Result<AuthResponse, Error>) -> Result<
    (u16, Option<Seq<char>>),
    Error,
> {
    match r {
        Ok(response) => Ok((response.status, response.set_cookie.deep_view())),
        Err(e) => Err(e),
    }
}

/// Whether a request to log in with these credentials is granted a
/// session: logging in is asked for, and the credentials are the configured
/// ones.
pub open spec fn grants_login(state: StorageView, username: Seq<char>, password: Seq<char>) -> bool {
    let auth = state.config.auth;
    auth.enabled && username == auth.username && password == auth.password
}

/// The sessions after a request to log in at `now`, where `token` is the
/// token at hand for a new session, and the answer. Where logging in is not
/// asked for, the request is accepted and no session is made. Else the
/// credentials must be the configured ones, and the answer carries the
/// cookie of a new session.
pub open spec fn logged_in(
    state: StorageView,
    username: Seq<char>,
    password: Seq<char>,
    token: Seq<char>,
    now: Timestamp,
) -> (SessionMap, Result<(u16, Option<Seq<char>>), Error>) {
    let auth = state.config.auth;
    if !auth.enabled {
        (state.sessions, Ok((STATUS_ACCEPTED, None)))
    } else if username != auth.username || password != auth.password {
        (state.sessions, Err(Error::InvalidCredentials))
    } else {
        (
            crate::session::created(state.sessions, token, now, auth.session_duration_secs),
            Ok((STATUS_OK, Some(session_cookie(token, auth.session_duration_secs)))),
        )
    }
}

/// The sessions after a request to log out that came with `cookie`.
pub open spec fn logged_out(sessions: SessionMap, cookie: Option<Seq<char>>) -> SessionMap {
    match cookie {
        Some(id) => sessions.remove(id),
        None => sessions,
    }
}

/// Whether a request to log in is granted a session.
pub fn login_is_granted(storage: &Storage, payload: &LoginRequest) -> (r: bool)
    ensures
        r == grants_login(storage@, payload.username@, payload.password@),
{
    storage.config.auth.enabled && str_eq(
        payload.username.as_str(),
        storage.config.auth.username.as_str(),
    ) && str_eq(payload.password.as_str(), storage.config.auth.password.as_str())
}

/// Answers a request to log in at `now`; a new session goes under `token`.
pub fn login_at(storage: &mut Storage, payload: &LoginRequest, token: String, now: Timestamp) -> (r:
    Result<AuthResponse, Error>)
    requires
        grants_login(old(storage)@, payload.username@, payload.password@) ==> now.can_shift(
            old(storage).config.auth.session_duration_secs,
        ),
    ensures
        auth_answer(r) == logged_in(
            old(storage)@,
            payload.username@,
            payload.password@,
            token@,
            now,
        ).1,
        final(storage)@ == old(storage)@.with_sessions(
            logged_in(old(storage)@, payload.username@, payload.password@, token@, now).0,
        ),
{
    if !storage.config.auth.enabled {
        return Ok(AuthResponse { status: STATUS_ACCEPTED, set_cookie: None });
    }
    if !str_eq(payload.username.as_str(), storage.config.auth.username.as_str()) || !str_eq(
        payload.password.as_str(),
        storage.config.auth.password.as_str(),
    ) {
        return Err(Error::InvalidCredentials);
    }
    let max_age = storage.config.auth.session_duration_secs;
    let cookie = session_cookie_text(token.as_str(), max_age);
    storage.sessions.create_session_at(token, now, max_age);
    Ok(AuthResponse { status: STATUS_OK, set_cookie: Some(cookie) })
}

/// Answers a request to log in. Where a session is made, it goes under a
/// fresh token and runs from the time of the clock.
pub fn login(storage: &mut Storage, payload: &LoginRequest) -> (r: Result<AuthResponse, Error>)
    requires
        grants_login(old(storage)@, payload.username@, payload.password@) ==> duration_in_range(
            old(storage).config.auth.session_duration_secs,
        ),
    ensures
        exists|token: Seq<char>, at: Timestamp|
            {
                let step = #[trigger] logged_in(
                    old(storage)@,
                    payload.username@,
                    payload.password@,
                    token,
                    at,
                );
                &&& is_token(token)
                &&& at.in_clock_range()
                &&& auth_answer(r) == step.1
                &&& final(storage)@ == old(storage)@.with_sessions(step.0)
            },
{
    let token = fresh_token();
    let at = now();
    proof {
        if grants_login(storage@, payload.username@, payload.password@) {
            lemma_clock_shift(at, storage.config.auth.session_duration_secs);
        }
    }
    login_at(storage, payload, token, at)
}

/// Answers a request to log out: the session that the cookie names, if
/// any, is dropped.
pub fn logout(storage: &mut Storage, cookie: Option<&str>) -> (r: AuthResponse)
    ensures
        r.status == STATUS_OK,
        r.set_cookie is None,
        final(storage)@ == old(storage)@.with_sessions(
            logged_out(old(storage)@.sessions, cookie.deep_view()),
        ),
{
    match cookie {
        Some(session_id) => storage.sessions.delete_session(session_id),
        None => {},
    }
    AuthResponse { status: STATUS_OK, set_cookie: None }
}

} // verus!
