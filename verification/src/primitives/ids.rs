//! Random identifiers.

use vstd::prelude::*;
use crate::error::VaultError;
use crate::primitives::random::os_random;

verus! {

/// Whether `c` is a lowercase hex digit.
pub open spec fn is_lower_hex(c: char) -> bool {
    ('0' <= c && c <= '9') || ('a' <= c && c <= 'f')
}

/// The shape of a random identifier in its text form: 36 characters, in
/// groups of 8, 4, 4, 4 and 12 lowercase hex digits with hyphens between
/// them; the third group starts with the version, 4, and the fourth with
/// the variant, one of 8, 9, a and b.
pub open spec fn is_uuid_v4_text(id: Seq<char>) -> bool {
    &&& id.len() == 36
    &&& forall|i: int|
        0 <= i < 36 ==> (if i == 8 || i == 13 || i == 18 || i == 23 {
            id[i] == '-'
        } else {
            is_lower_hex(#[trigger] id[i])
        })
    &&& id[14] == '4'
    &&& (id[19] == '8' || id[19] == '9' || id[19] == 'a' || id[19] == 'b')
}

/// The text of the version 4 identifier made from 16 random bytes.
pub uninterp spec fn uuid_v4_text(bytes: Seq<u8>) -> Seq<char>;

/// Calls `Builder::from_random_bytes`, `into_uuid` and `to_string` of
/// `uuid`. Trusted: the result is the version 4 identifier of these
/// bytes in its hyphenated lowercase form.
#[verifier::external_body]
pub(crate) fn uuid_v4_string(bytes: &[u8; 16]) -> (id: String)
    ensures
        id@ == uuid_v4_text(bytes@),
        is_uuid_v4_text(id@),
{
    uuid::Builder::from_random_bytes(*bytes).into_uuid().to_string()
}

/// Writes 16 bytes as a version 4 identifier.
pub fn uuid_from_bytes(bytes: &[u8; 16]) -> (id: String)
    ensures
        id@ == uuid_v4_text(bytes@),
        is_uuid_v4_text(id@),
{
    uuid_v4_string(bytes)
}

/// Draws a fresh random identifier, version 4, in its hyphenated
/// lowercase form. Fails only where the operating system's random source
/// does.
pub fn fresh_uuid() -> (out: Result<String, VaultError>)
    ensures
        out matches Ok(id) ==> is_uuid_v4_text(id@),
        out matches Err(e) ==> e == VaultError::IOFailure,
{
    match os_random::<16>() {
        Some(bytes) => Ok(uuid_from_bytes(&bytes)),
        None => Err(VaultError::IOFailure),
    }
}

} // verus!
