//! Identifiers of messages and calls: UUIDs, held as their 128-bit value.

use vstd::prelude::*;

verus! {

/// The hyphenated lowercase text of a UUID, as `uuid`'s `Display` writes it.
pub uninterp spec fn spec_uuid_string(id: u128) -> Seq<char>;

/// What `Uuid::parse_str` reads from a text.
pub uninterp spec fn spec_uuid_parse(s: Seq<char>) -> Option<u128>;

/// A fresh random (version 4) UUID, `Uuid::new_v4`. Nothing is promised of its
/// value: it is drawn at random.
#[verifier::external_body]
pub(crate) fn new_uuid() -> (r: u128) {
    uuid::Uuid::new_v4().as_u128()
}

/// `Uuid::to_string` of the UUID with this value. The text is named by
/// `spec_uuid_string`; `Display` writes the hyphenated form, 36 characters.
#[verifier::external_body]
pub(crate) fn uuid_to_string(id: u128) -> (r: String)
    ensures
        r@ == spec_uuid_string(id),
        r@.len() == 36,
{
    uuid::Uuid::from_u128(id).to_string()
}

/// `Uuid::parse_str`: the UUID written in a text, if it is one. Its
/// documentation promises that the formats the crate writes are read back, so
/// the hyphenated text of a UUID parses to that UUID.
#[verifier::external_body]
pub(crate) fn uuid_parse(s: &str) -> (r: Option<u128>)
    ensures
        r == spec_uuid_parse(s@),
        forall|u: u128| s@ == spec_uuid_string(u) ==> r == Some(u),
{
    match uuid::Uuid::parse_str(s) {
        Ok(u) => Some(u.as_u128()),
        Err(_) => None,
    }
}

} // verus!
