//! Fresh identifiers for requests and sessions.

use vstd::prelude::*;

verus! {

/// The number of characters of an identifier.
pub const ID_CHARS: usize = 36;

/// `uuid::Uuid::new_v4` draws a random identifier from the operating
/// system's random source, and the identifier's `to_string` writes it in the
/// hyphenated form: 36 characters, with a hyphen after the 8th, 12th, 16th and
/// 20th digit. Which digits come out is up to chance. The call panics only
/// if the operating system has no random bytes to give.
#[verifier::external_body]
fn random_uuid() -> (id: String)
    ensures
        id@.len() == ID_CHARS,
        id@[8] == '-',
        id@[13] == '-',
        id@[18] == '-',
        id@[23] == '-',
{
    uuid::Uuid::new_v4().to_string()
}

/// The shape of an identifier: 36 characters in five groups that are joined
/// by hyphens.
pub open spec fn is_id(id: Seq<char>) -> bool {
    &&& id.len() == ID_CHARS
    &&& id[8] == '-'
    &&& id[13] == '-'
    &&& id[18] == '-'
    &&& id[23] == '-'
}

/// A fresh identifier for a request or a session.
pub fn fresh_id() -> (id: String)
    ensures
        is_id(id@),
{
    random_uuid()
}

} // verus!
