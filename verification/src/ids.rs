//! Trusted boundary to the `uuid` crate: generation of fresh conversation
//! identifiers, the canonical hyphenated text of an identifier, and parsing
//! of identifier text. A conversation identifier is carried as its 128-bit
//! value.

use vstd::prelude::*;

verus! {

/// The identifier denoted by a piece of text, or `None` where the text is
/// not a well-formed identifier.
pub uninterp spec fn parsed_uuid(s: Seq<char>) -> Option<u128>;

/// The canonical hyphenated text of an identifier.
pub uninterp spec fn uuid_text(id: u128) -> Seq<char>;

/// Relies on `uuid::Uuid::new_v4`: a freshly generated random identifier.
/// Nothing is promised of a random value.
#[verifier::external_body]
pub(crate) fn fresh_id() -> u128 {
    uuid::Uuid::new_v4().as_u128()
}

/// Relies on `uuid::Uuid::parse_str`: whether a piece of text is a
/// well-formed identifier, and which identifier it denotes, depend on its
/// characters alone.
#[verifier::external_body]
pub(crate) fn parse_id(s: &str) -> (r: Option<u128>)
    ensures
        r == parsed_uuid(s@),
{
    uuid::Uuid::parse_str(s).ok().map(|u| u.as_u128())
}

/// Relies on `uuid::Uuid::hyphenated` (through its `Display` impl): the
/// hyphenated text of an identifier depends on the identifier alone, and
/// `uuid::Uuid::parse_str` accepts that text and returns the identifier it
/// was formatted from.
#[verifier::external_body]
pub(crate) fn id_to_text(id: u128) -> (r: String)
    ensures
        r@ == uuid_text(id),
        parsed_uuid(r@) == Some(id),
{
    uuid::Uuid::from_u128(id).hyphenated().to_string()
}

} // verus!
