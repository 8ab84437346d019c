//! Matrix identifiers.

use vstd::prelude::*;

verus! {

/// A room ID: text that begins with `!` and holds no NUL character.
pub open spec fn is_room_id_text(id: Seq<char>) -> bool {
    id.len() > 0 && id[0] == '!' && !id.contains('\0')
}

/// Whether `id` is a canonical Matrix user ID.
pub uninterp spec fn is_user_id_text(id: Seq<char>) -> bool;

/// Calls `matrix_sdk::ruma::RoomId::parse`, which the SDK builds without a limit
/// on the length of identifiers: a room ID begins with `!` and holds no NUL
/// character; its text stays as it is.
#[verifier::external_body]
pub(crate) fn is_room_id(id: &str) -> (valid: bool)
    ensures
        valid == is_room_id_text(id@),
{
    matrix_sdk::ruma::RoomId::parse(id).is_ok()
}

/// Calls `matrix_sdk::ruma::UserId::parse`: whether it accepts the text, which
/// depends on nothing but the text.
#[verifier::external_body]
pub(crate) fn is_user_id(id: &str) -> (valid: bool)
    ensures
        valid == is_user_id_text(id@),
{
    matrix_sdk::ruma::UserId::parse(id).is_ok()
}

} // verus!
