//! The door before the requests that need a session.

use vstd::prelude::*;
use crate::clock::{duration_in_range, lemma_clock_shift, now, Timestamp};
use crate::cookie::{session_cookie, session_cookie_text};
use crate::error::STATUS_UNAUTHORIZED;
use crate::session::{validated, SessionMap};
use crate::state::{Storage, StorageView};

verus! {

/// The sessions after a protected request that came with `cookie` at
/// `now`, and the decision: the cookie to send back with the answer, if any,
/// or the status with which the request is turned away.
///
/// Where logging in is not asked for, every request passes and no cookie is
/// looked at. Else the request must carry the token of a session that is
/// still good; the session is then kept for the whole duration more and the
/// cookie is issued anew.
pub open spec fn admitted(state: StorageView, cookie: Option<Seq<char>>, now: Timestamp) -> (
    SessionMap,
    Result<Option<Seq<char>>, u16>,
) {
    let auth = state.config.auth;
    if !auth.enabled {
        (state.sessions, Ok(None))
    } else {
        match cookie {
            None => (state.sessions, Err(STATUS_UNAUTHORIZED)),
            Some(id) => {
                let checked = validated(state.sessions, id, now, auth.session_duration_secs);
                if checked.1 {
                    (checked.0, Ok(Some(session_cookie(id, auth.session_duration_secs))))
                } else {
                    (checked.0, Err(STATUS_UNAUTHORIZED))
                }
            },
        }
    }
}

/// Whether a request that came with `cookie` may have its session renewed:
/// logging in is asked for, and the cookie names a session that is known.
pub open spec fn renews_session(state: StorageView, cookie: Option<Seq<char>>) -> bool {
    state.config.auth.enabled && cookie is Some && state.sessions.contains_key(cookie.unwrap())
}

/// What a decision holds.
pub open spec fn decision(r: Result<Option<String>, u16>) -> Result<Option<Seq<char>>, u16> {
    match r {
        Ok(cookie) => Ok(cookie.deep_view()),
        Err(status) => Err(status),
    }
}

/// Whether a request that came with `cookie` may have its session renewed.
pub fn session_is_known(storage: &Storage, cookie: Option<&str>) -> (r: bool)
    ensures
        r == renews_session(storage@, cookie.deep_view()),
{
    match cookie {
        Some(session_id) => storage.config.auth.enabled && storage.sessions.get(
            session_id,
        ).is_some(),
        None => false,
    }
}

/// Decides at `now` whether a protected request that came with the session
/// cookie `cookie` may pass.
pub fn auth_middleware_at(storage: &mut Storage, cookie: Option<&str>, now: Timestamp) -> (r: Result<
    Option<String>,
    u16,
>)
    requires
        renews_session(old(storage)@, cookie.deep_view()) && old(
            storage,
        )@.sessions[cookie.deep_view().unwrap()].live_at(now) ==> now.can_shift(
            old(storage).config.auth.session_duration_secs,
        ),
    ensures
        decision(r) == admitted(old(storage)@, cookie.deep_view(), now).1,
        final(storage)@ == old(storage)@.with_sessions(
            admitted(old(storage)@, cookie.deep_view(), now).0,
        ),
{
    if !storage.config.auth.enabled {
        return Ok(None);
    }
    let session_id = match cookie {
        Some(session_id) => session_id,
        None => {
            return Err(STATUS_UNAUTHORIZED);
        },
    };
    let max_age = storage.config.auth.session_duration_secs;
    if !storage.sessions.validate_session_at(session_id, now, max_age) {
        return Err(STATUS_UNAUTHORIZED);
    }
    Ok(Some(session_cookie_text(session_id, max_age)))
}

/// Decides by the clock whether a protected request that came with the
/// session cookie `cookie` may pass.
pub fn auth_middleware(storage: &mut Storage, cookie: Option<&str>) -> (r: Result<
    Option<String>,
    u16,
>)
    requires
        renews_session(old(storage)@, cookie.deep_view()) ==> duration_in_range(
            old(storage).config.auth.session_duration_secs,
        ),
    ensures
        exists|at: Timestamp|
            {
                let step = #[trigger] admitted(old(storage)@, cookie.deep_view(), at);
                &&& at.in_clock_range()
                &&& decision(r) == step.1
                &&& final(storage)@ == old(storage)@.with_sessions(step.0)
            },
{
    let at = now();
    proof {
        if renews_session(storage@, cookie.deep_view()) {
            lemma_clock_shift(at, storage.config.auth.session_duration_secs);
        }
    }
    let r = auth_middleware_at(storage, cookie, at);
    r
}

} // verus!
