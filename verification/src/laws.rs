//! What holds of the profiles and the sessions whatever the requests are.

use vstd::prelude::*;
use vstd::seq_lib::seq_to_set_is_finite;
use vstd::set_lib::{lemma_len_subset, lemma_subset_equality};
use crate::api::{
    created, deleted, in_order, is_reordering, logged_in, renamed, reordered, replacement, served,
    served_at, updated, version_conflict, Persist, STATUS_ACCEPTED, STATUS_OK,
};
use crate::bookmark::{BackgroundImageView, ProfileView};
use crate::images::{
    bookmark_place, holds_bookmark, icon_set, image_added, image_removed, lemma_has_place,
};
use crate::clock::Timestamp;
use crate::cookie::session_cookie;
use crate::error::{Error, STATUS_UNAUTHORIZED};
use crate::favicon::{
    common_paths, icon_selectors, icon_urls, lemma_with_paths_distinct,
    lemma_with_selected_distinct, with_selected, FaviconEventView, FaviconFetchView,
    FaviconIconView, FetchStage,
};
use crate::middleware::auth::admitted;
use crate::session::{
    entries_map, inserted_all, lemma_inserted_all, swept, unique_keys, validated, SessionEntry,
    SessionMap,
};
use crate::state::{
    first_named, has_profile, lemma_first_named, lemma_has_first, names_unique, profile_names,
    StorageView,
};

verus! {

/// Of two profiles of one name, created one after the other, the second is
/// refused as existing already, and leaves the profiles as they were.
pub proof fn law_name_is_taken_once(
    profiles: Seq<ProfileView>,
    first: ProfileView,
    second: ProfileView,
)
    requires
        first.name == second.name,
    ensures
        created(created(profiles, first).0, second).1 == Err::<(), Error>(
            Error::ProfileAlreadyExists,
        ),
        created(created(profiles, first).0, second).0 == created(profiles, first).0,
        created(created(profiles, first).0, second).0.len() == created(profiles, first).0.len(),
{
    if !has_profile(profiles, first.name) {
        let after = created(profiles, first).0;
        assert(after[profiles.len() as int].name == second.name);
    }
}

/// Creating profiles keeps the names distinct.
pub proof fn law_create_keeps_names_unique(profiles: Seq<ProfileView>, incoming: ProfileView)
    requires
        names_unique(profiles),
    ensures
        names_unique(created(profiles, incoming).0),
{
}

/// Whatever is done to the profiles, names that were distinct stay
/// distinct.
pub proof fn law_names_stay_unique(
    profiles: Seq<ProfileView>,
    incoming: ProfileView,
    name: Seq<char>,
    new_name: Seq<char>,
    names: Seq<Seq<char>>,
    wanted: Option<Seq<char>>,
    image: BackgroundImageView,
    id: u128,
    filename: Option<Seq<char>>,
    content: Option<Seq<u8>>,
    version: Seq<char>,
)
    requires
        names_unique(profiles),
    ensures
        names_unique(created(profiles, incoming).0),
        names_unique(deleted(profiles, name).0),
        names_unique(updated(profiles, incoming, version).0),
        names_unique(renamed(profiles, name, new_name, version).0),
        names_unique(reordered(profiles, names).0),
        names_unique(served(profiles, wanted, version).0),
        names_unique(image_added(profiles, name, image, version).0),
        names_unique(image_removed(profiles, name, id, version).0),
        names_unique(icon_set(profiles, id, filename, content, version).0),
{
    law_create_keeps_names_unique(profiles, incoming);
    if has_profile(profiles, name) {
        lemma_has_first(profiles, name);
        let at = first_named(profiles, name);
        let fewer = profiles.remove(at);
        assert forall|i: int, j: int| 0 <= i < j < fewer.len() implies (#[trigger] fewer[i]).name
            != (#[trigger] fewer[j]).name by {
            let before = if i < at { i } else { i + 1 };
            let after = if j < at { j } else { j + 1 };
            assert(fewer[i] == profiles[before] && fewer[j] == profiles[after]);
        }
    }
    if has_profile(profiles, incoming.name) {
        lemma_has_first(profiles, incoming.name);
    }
    if is_reordering(names, profiles) {
        let sorted = in_order(profiles, names);
        assert forall|i: int, j: int| 0 <= i < j < sorted.len() implies (#[trigger] sorted[i]).name
            != (#[trigger] sorted[j]).name by {
            lemma_has_first(profiles, names[i]);
            lemma_has_first(profiles, names[j]);
        }
    }
    match wanted {
        Some(asked) if has_profile(profiles, asked) => {
            lemma_has_first(profiles, asked);
        },
        _ => {},
    }
    if holds_bookmark(profiles, id) {
        lemma_has_place(profiles, id);
    }
}

/// A change that is taken leaves the changed profile under the version
/// that was made for it.
pub proof fn law_change_sets_version(
    profiles: Seq<ProfileView>,
    incoming: ProfileView,
    name: Seq<char>,
    new_name: Seq<char>,
    image: BackgroundImageView,
    id: u128,
    filename: Option<Seq<char>>,
    content: Option<Seq<u8>>,
    version: Seq<char>,
)
    ensures
        has_profile(profiles, incoming.name) && updated(profiles, incoming, version).1 is Ok
            ==> updated(profiles, incoming, version).0[first_named(
            profiles,
            incoming.name,
        )].version == Some(version),
        has_profile(profiles, name) && renamed(profiles, name, new_name, version).1 is Ok
            ==> renamed(profiles, name, new_name, version).0[first_named(profiles, name)].version
            == Some(version),
        image_added(profiles, name, image, version).1 is Ok ==> image_added(
            profiles,
            name,
            image,
            version,
        ).0[first_named(profiles, name)].version == Some(version),
        image_removed(profiles, name, id, version).1 is Ok ==> image_removed(
            profiles,
            name,
            id,
            version,
        ).0[first_named(profiles, name)].version == Some(version),
        icon_set(profiles, id, filename, content, version).1 is Ok ==> icon_set(
            profiles,
            id,
            filename,
            content,
            version,
        ).0[bookmark_place(profiles, id).0].version == Some(version),
{
    if has_profile(profiles, incoming.name) {
        lemma_has_first(profiles, incoming.name);
    }
    if has_profile(profiles, name) {
        lemma_has_first(profiles, name);
    }
    if holds_bookmark(profiles, id) {
        lemma_has_place(profiles, id);
    }
}

/// The only profile left cannot be deleted: the request is refused, and
/// the one profile is still there.
pub proof fn law_last_profile_stays(profiles: Seq<ProfileView>, name: Seq<char>)
    requires
        profiles.len() == 1,
    ensures
        deleted(profiles, name).1 == Err::<(), Error>(Error::CannotDeleteLastProfile),
        deleted(profiles, name).0 == profiles,
        deleted(profiles, name).0.len() == 1,
{
}

/// An update that carries another version than the stored one is refused
/// as a conflict, and the stored profiles are untouched.
pub proof fn law_stale_update_is_refused(
    profiles: Seq<ProfileView>,
    incoming: ProfileView,
    version: Seq<char>,
)
    requires
        has_profile(profiles, incoming.name),
        version_conflict(
            incoming.version,
            profiles[first_named(profiles, incoming.name)].version,
        ),
    ensures
        updated(profiles, incoming, version).1 == Err::<(), Error>(Error::VersionConflict),
        updated(profiles, incoming, version).0 == profiles,
{
}

/// An update that carries the stored version, or none, is taken, and the
/// profile stands under the new version afterwards: another version than
/// before, where the new one is not the one that was stored.
pub proof fn law_update_renews_version(
    profiles: Seq<ProfileView>,
    incoming: ProfileView,
    version: Seq<char>,
)
    requires
        has_profile(profiles, incoming.name),
        incoming.version is None || incoming.version == profiles[first_named(
            profiles,
            incoming.name,
        )].version,
    ensures
        updated(profiles, incoming, version).1 == Ok::<(), Error>(()),
        updated(profiles, incoming, version).0[first_named(profiles, incoming.name)].version
            == Some(version),
        profiles[first_named(profiles, incoming.name)].version != Some(version) ==> updated(
            profiles,
            incoming,
            version,
        ).0[first_named(profiles, incoming.name)].version != profiles[first_named(
            profiles,
            incoming.name,
        )].version,
{
    lemma_has_first(profiles, incoming.name);
}

/// Two updates of one profile, one after the other and both taken, leave
/// it under different versions where they were given different ones.
pub proof fn law_updates_differ(
    profiles: Seq<ProfileView>,
    first: ProfileView,
    second: ProfileView,
    first_version: Seq<char>,
    second_version: Seq<char>,
)
    requires
        has_profile(profiles, first.name),
        first.name == second.name,
        first_version != second_version,
        updated(profiles, first, first_version).1 is Ok,
        updated(updated(profiles, first, first_version).0, second, second_version).1 is Ok,
    ensures
        ({
            let at = first_named(profiles, first.name);
            let once = updated(profiles, first, first_version).0;
            let twice = updated(once, second, second_version).0;
            &&& once[at].version == Some(first_version)
            &&& twice[at].version == Some(second_version)
            &&& once[at].version != twice[at].version
        }),
{
    lemma_has_first(profiles, first.name);
    let at = first_named(profiles, first.name);
    let once = updated(profiles, first, first_version).0;
    lemma_first_named(once, second.name, at);
}

/// An update never touches the background images: the profile holds the
/// same ones afterwards, whatever the update carried.
pub proof fn law_update_keeps_background_images(
    profiles: Seq<ProfileView>,
    incoming: ProfileView,
    version: Seq<char>,
)
    requires
        has_profile(profiles, incoming.name),
    ensures
        updated(profiles, incoming, version).0[first_named(
            profiles,
            incoming.name,
        )].background_images == profiles[first_named(profiles, incoming.name)].background_images,
        updated(profiles, incoming, version).0.len() == profiles.len(),
{
    lemma_has_first(profiles, incoming.name);
}

/// An order that gives each profile once names every profile.
pub proof fn law_order_omits_nothing(profiles: Seq<ProfileView>, names: Seq<Seq<char>>)
    requires
        is_reordering(names, profiles),
    ensures
        forall|j: int| 0 <= j < profiles.len() ==> names.contains(#[trigger] profiles[j].name),
        names_unique(profiles),
{
    broadcast use seq_to_set_is_finite;

    let stored = profile_names(profiles);
    let wanted = names.to_set();
    let known = stored.to_set();
    names.unique_seq_to_set();
    stored.lemma_cardinality_of_set();
    assert forall|name: Seq<char>| wanted.contains(name) implies known.contains(name) by {
        let at = choose|at: int| 0 <= at < profiles.len() && (#[trigger] profiles[at]).name == name;
        assert(stored[at] == name);
    }
    lemma_len_subset(wanted, known);
    lemma_subset_equality(wanted, known);
    assert forall|j: int| 0 <= j < profiles.len() implies names.contains(
        #[trigger] profiles[j].name,
    ) by {
        assert(known.contains(stored[j]));
    }
    stored.lemma_no_dup_set_cardinality();
    assert forall|i: int, j: int| 0 <= i < j < profiles.len() implies (#[trigger] profiles[i]).name
        != (#[trigger] profiles[j]).name by {
        assert(stored[i] == profiles[i].name && stored[j] == profiles[j].name);
    }
}

/// An order that leaves out the name of a profile is refused, and the
/// profiles stay as they are.
pub proof fn law_incomplete_order_is_refused(
    profiles: Seq<ProfileView>,
    names: Seq<Seq<char>>,
    left_out: int,
)
    requires
        0 <= left_out < profiles.len(),
        !names.contains(profiles[left_out].name),
    ensures
        reordered(profiles, names).1 == Err::<(), Error>(Error::InvalidProfileOrder),
        reordered(profiles, names).0 == profiles,
{
    if is_reordering(names, profiles) {
        law_order_omits_nothing(profiles, names);
    }
}

/// An order that gives each profile once is taken: the profiles then stand
/// in that order, each as it was.
pub proof fn law_order_is_kept(profiles: Seq<ProfileView>, names: Seq<Seq<char>>)
    requires
        is_reordering(names, profiles),
    ensures
        reordered(profiles, names).1 == Ok::<(), Error>(()),
        profile_names(reordered(profiles, names).0) == names,
        forall|i: int|
            0 <= i < names.len() ==> profiles.contains(#[trigger] reordered(profiles, names).0[i]),
        forall|j: int|
            0 <= j < profiles.len() ==> reordered(profiles, names).0.contains(
                #[trigger] profiles[j],
            ),
{
    let sorted = in_order(profiles, names);
    assert forall|i: int| 0 <= i < names.len() implies (#[trigger] sorted[i]).name == names[i]
        && profiles.contains(sorted[i]) by {
        lemma_has_first(profiles, names[i]);
    }
    assert(profile_names(sorted) =~= names);
    law_order_omits_nothing(profiles, names);
    assert forall|j: int| 0 <= j < profiles.len() implies sorted.contains(
        #[trigger] profiles[j],
    ) by {
        let name = profiles[j].name;
        let i = choose|i: int| 0 <= i < names.len() && names[i] == name;
        lemma_has_first(profiles, name);
        assert(sorted[i] == profiles[j]);
    }
}

/// A session of a positive duration is good at the moment of its making.
pub proof fn law_new_session_is_valid(
    sessions: SessionMap,
    id: Seq<char>,
    now: Timestamp,
    duration_secs: i64,
)
    requires
        duration_secs > 0,
        now.can_shift(duration_secs),
    ensures
        validated(
            crate::session::created(sessions, id, now, duration_secs),
            id,
            now,
            duration_secs,
        ).1,
{
}

/// A session that is not looked at for its whole duration has expired:
/// validating it then fails and drops it, and validating it again fails
/// again and changes nothing.
pub proof fn law_session_expires(
    sessions: SessionMap,
    id: Seq<char>,
    made: Timestamp,
    duration_secs: i64,
    later: Timestamp,
    again: Timestamp,
)
    requires
        made.can_shift(duration_secs),
        !made.shifted(duration_secs).is_after(later),
    ensures
        ({
            let fresh = crate::session::created(sessions, id, made, duration_secs);
            let checked = validated(fresh, id, later, duration_secs);
            &&& !checked.1
            &&& checked.0 == fresh.remove(id)
            &&& !checked.0.contains_key(id)
            &&& validated(checked.0, id, again, duration_secs) == (checked.0, false)
        }),
{
}

/// A session that is validated before it expires is kept for its whole
/// duration from then on: it is still good at any time before that later
/// end, also past the end that it had at first.
pub proof fn law_validation_extends_session(
    sessions: SessionMap,
    id: Seq<char>,
    made: Timestamp,
    duration_secs: i64,
    seen: Timestamp,
    later: Timestamp,
)
    requires
        made.can_shift(duration_secs),
        seen.can_shift(duration_secs),
        made.shifted(duration_secs).is_after(seen),
        seen.shifted(duration_secs).is_after(later),
    ensures
        ({
            let fresh = crate::session::created(sessions, id, made, duration_secs);
            let first = validated(fresh, id, seen, duration_secs);
            &&& first.1
            &&& first.0[id].expires_at == seen.shifted(duration_secs)
            &&& first.0[id].created_at == made
            &&& validated(first.0, id, later, duration_secs).1
        }),
{
}

/// After a sweep no session is left that has expired, and every session
/// that is still good is there as it was.
pub proof fn law_sweep_drops_the_expired(sessions: SessionMap, now: Timestamp)
    ensures
        forall|id: Seq<char>| #[trigger]
            swept(sessions, now).contains_key(id) <==> sessions.contains_key(id)
                && sessions[id].live_at(now),
        forall|id: Seq<char>| #[trigger]
            swept(sessions, now).contains_key(id) ==> swept(sessions, now)[id] == sessions[id],
        swept(swept(sessions, now), now) == swept(sessions, now),
{
}

/// Sessions that are written out and read in again are the same sessions;
/// after the sweep at the start, those of them are left that are still
/// good.
pub proof fn law_sessions_survive_restart(entries: Seq<SessionEntry>, now: Timestamp)
    requires
        unique_keys(entries),
    ensures
        inserted_all(SessionMap::empty(), entries) == entries_map(entries),
        forall|id: Seq<char>| #[trigger]
            swept(inserted_all(SessionMap::empty(), entries), now).contains_key(id)
                <==> entries_map(entries).contains_key(id) && entries_map(entries)[id].live_at(
                now,
            ),
{
    lemma_inserted_all(entries);
}

/// Where logging in is not asked for, a login is accepted without a
/// cookie, and every request passes, whatever cookie it carries.
pub proof fn law_open_door(
    state: StorageView,
    username: Seq<char>,
    password: Seq<char>,
    token: Seq<char>,
    cookie: Option<Seq<char>>,
    now: Timestamp,
)
    requires
        !state.config.auth.enabled,
    ensures
        logged_in(state, username, password, token, now) == (
            state.sessions,
            Ok::<(u16, Option<Seq<char>>), Error>((STATUS_ACCEPTED, None)),
        ),
        admitted(state, cookie, now) == (
            state.sessions,
            Ok::<Option<Seq<char>>, u16>(None),
        ),
{
}

/// Where logging in is asked for, the right credentials give a session
/// cookie; a request that carries its token passes and is handed the
/// cookie anew, and a request without a cookie is turned away.
pub proof fn law_login_admits(
    state: StorageView,
    token: Seq<char>,
    now: Timestamp,
    later: Timestamp,
)
    requires
        state.config.auth.enabled,
        state.config.auth.session_duration_secs > 0,
        now.can_shift(state.config.auth.session_duration_secs),
        now.shifted(state.config.auth.session_duration_secs).is_after(later),
    ensures
        ({
            let auth = state.config.auth;
            let cookie = session_cookie(token, auth.session_duration_secs);
            let entered = logged_in(state, auth.username, auth.password, token, now);
            let inside = state.with_sessions(entered.0);
            &&& entered.1 == Ok::<(u16, Option<Seq<char>>), Error>((STATUS_OK, Some(cookie)))
            &&& admitted(inside, Some(token), later).1 == Ok::<Option<Seq<char>>, u16>(
                Some(cookie),
            )
            &&& admitted(inside, None, later) == (
                inside.sessions,
                Err::<Option<Seq<char>>, u16>(STATUS_UNAUTHORIZED),
            )
        }),
{
}

/// A request that is refused leaves the profiles as they were.
pub proof fn law_refusal_changes_nothing(
    profiles: Seq<ProfileView>,
    incoming: ProfileView,
    name: Seq<char>,
    new_name: Seq<char>,
    names: Seq<Seq<char>>,
    image: BackgroundImageView,
    id: u128,
    filename: Option<Seq<char>>,
    content: Option<Seq<u8>>,
    version: Seq<char>,
)
    ensures
        created(profiles, incoming).1 is Err ==> created(profiles, incoming).0 == profiles,
        deleted(profiles, name).1 is Err ==> deleted(profiles, name).0 == profiles,
        updated(profiles, incoming, version).1 is Err ==> updated(profiles, incoming, version).0
            == profiles,
        renamed(profiles, name, new_name, version).1 is Err ==> renamed(
            profiles,
            name,
            new_name,
            version,
        ).0 == profiles,
        reordered(profiles, names).1 is Err ==> reordered(profiles, names).0 == profiles,
        image_added(profiles, name, image, version).1 is Err ==> image_added(
            profiles,
            name,
            image,
            version,
        ).0 == profiles,
        image_removed(profiles, name, id, version).1 is Err ==> image_removed(
            profiles,
            name,
            id,
            version,
        ).0 == profiles,
        icon_set(profiles, id, filename, content, version).1 is Err ==> icon_set(
            profiles,
            id,
            filename,
            content,
            version,
        ).0 == profiles,
{
}

/// The profile that a request is answered with has a version, whatever
/// token was at hand, and is the one that the state then holds.
pub proof fn law_served_profile_has_version(
    profiles: Seq<ProfileView>,
    wanted: Option<Seq<char>>,
    token: Seq<char>,
)
    ensures
        0 <= served_at(profiles, wanted) < served(profiles, wanted, token).0.len(),
        served(profiles, wanted, token).0[served_at(profiles, wanted)].version is Some,
        served(profiles, wanted, token).1 == Persist::Nothing ==> served(
            profiles,
            wanted,
            token,
        ).0 == profiles,
{
    match wanted {
        Some(name) if has_profile(profiles, name) => {
            lemma_has_first(profiles, name);
        },
        _ => {},
    }
}

/// No address is asked twice for an icon: the addresses of a search are
/// all different.
pub proof fn law_icon_addresses_differ(
    base_url: Seq<char>,
    page_url: Seq<char>,
    html: Option<Seq<char>>,
)
    ensures
        icon_urls(base_url, page_url, html).no_duplicates(),
{
    let none = Seq::<Seq<char>>::empty();
    let linked = match html {
        Some(html) => {
            lemma_with_selected_distinct(none, base_url, page_url, html, icon_selectors());
            with_selected(none, base_url, page_url, html, icon_selectors())
        },
        None => none,
    };
    lemma_with_paths_distinct(linked, base_url, common_paths());
}

/// Whether a search for icons stands where it can: while an address is
/// at hand, it is one of the addresses to ask.
pub open spec fn search_in_order(search: FaviconFetchView) -> bool {
    search.stage == FetchStage::Icon || search.stage == FetchStage::Body ==> 0 <= search.next
        < search.candidates.len()
}

/// How many events a search for icons can still take after the page was
/// read: two for each address that is left, less one where the answer of
/// the address at hand is in already.
pub open spec fn search_steps_left(search: FaviconFetchView) -> int {
    match search.stage {
        FetchStage::Page | FetchStage::Done => 0,
        FetchStage::Icon => 2 * (search.candidates.len() - search.next),
        FetchStage::Body => 2 * (search.candidates.len() - search.next) - 1,
    }
}

/// A search for icons comes to its end: once the page was read, every
/// event leaves fewer events to come, and where none are left the icons
/// are handed out.
pub proof fn law_search_ends(search: FaviconFetchView, event: FaviconEventView)
    requires
        search_in_order(search),
    ensures
        search_in_order(search.stepped(event).0),
        search.stepped(event).0.stage != FetchStage::Page,
        search.stage == FetchStage::Icon || search.stage == FetchStage::Body
            ==> 0 <= search_steps_left(search.stepped(event).0) < search_steps_left(search),
        search.stepped(event).0.stage == FetchStage::Done <==> search.stepped(event).1
            is Done,
        search.stepped(event).1 is Done ==> search.stepped(event).1->Done_0 == search.icons
            || exists|icon: FaviconIconView|
            search.stepped(event).1->Done_0 == search.icons.push(icon),
{
}

/// The profile that an update puts in place has the name and the content
/// of the update.
pub proof fn law_update_takes_content(
    stored: ProfileView,
    incoming: ProfileView,
    version: Seq<char>,
)
    ensures
        replacement(stored, incoming, version).name == incoming.name,
        replacement(stored, incoming, version).bookmarks == incoming.bookmarks,
        replacement(stored, incoming, version).tags == incoming.tags,
        replacement(stored, incoming, version).search_engine == incoming.search_engine,
        replacement(stored, incoming, version).intranet_check_url == incoming.intranet_check_url,
{
}

} // verus!
