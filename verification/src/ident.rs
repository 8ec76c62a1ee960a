//! Random identifiers and their text form.
//!
//! An identifier is held as the 128-bit number behind a UUID, so that it can
//! be compared and stored as a plain value.

use vstd::prelude::*;

verus! {

/// The hyphenated lower-case text of the UUID whose 128-bit value is `id`,
/// as `uuid::Uuid` prints it.
pub uninterp spec fn hyphenated(id: u128) -> Seq<char>;

/// The length of every hyphenated UUID text.
pub const UUID_TEXT_LEN: usize = 36;

/// A new version-4 UUID from `uuid::Uuid::new_v4`, as its 128-bit value.
/// The value is random: nothing is claimed of it.
#[verifier::external_body]
pub(crate) fn random_id() -> (id: u128) {
    uuid::Uuid::new_v4().as_u128()
}

/// The text that `uuid::Uuid` prints for the UUID of value `id`.
///
/// Taken on trust: the `Display` of a UUID writes its hyphenated form, which
/// depends on the value alone and is always 36 characters long. The text
/// goes by the name [`hyphenated`].
#[verifier::external_body]
pub(crate) fn id_text(id: u128) -> (text: String)
    ensures
        text@ == hyphenated(id),
        text@.len() == UUID_TEXT_LEN,
{
    uuid::Uuid::from_u128(id).to_string()
}

/// Whether `text` is the text of some UUID.
pub open spec fn is_token(text: Seq<char>) -> bool {
    text.len() == UUID_TEXT_LEN && exists|id: u128| text == hyphenated(id)
}

/// A fresh token: the text of a new random UUID.
pub fn fresh_token() -> (token: String)
    ensures
        is_token(token@),
{
    let id = random_id();
    id_text(id)
}

} // verus!
