//! Universally unique identifiers, held as their numbers.
use vstd::prelude::*;

verus! {

/// The identifier that a text spells, if it spells one.
pub uninterp spec fn uuid_of(text: Seq<char>) -> Option<u128>;

/// `uuid::Uuid::parse_str`, with the identifier as its number: whether the text spells an identifier,
/// and which, is a function of the text.
#[verifier::external_body]
pub(crate) fn parse_uuid(text: &str) -> (r: Option<u128>)
    ensures
        r == uuid_of(text@),
{
    match uuid::Uuid::parse_str(text) {
        Ok(id) => Some(id.as_u128()),
        Err(_) => None,
    }
}

/// The text of an identifier.
pub uninterp spec fn uuid_text(id: u128) -> Seq<char>;

/// `uuid::Uuid::from_u128` and its text: the text is a function of the number, and spells the
/// identifier again.
#[verifier::external_body]
pub(crate) fn write_uuid(id: u128) -> (r: String)
    ensures
        r@ == uuid_text(id),
        uuid_of(r@) == Some(id),
{
    uuid::Uuid::from_u128(id).to_string()
}

/// `uuid::Uuid::new_v4`: a random identifier, of which nothing is stated.
#[verifier::external_body]
pub(crate) fn fresh_uuid() -> (r: u128)
{
    uuid::Uuid::new_v4().as_u128()
}

/// The text of a random identifier.
pub fn fresh_text() -> (r: String)
    ensures
        uuid_of(r@) is Some,
        r@ == uuid_text(uuid_of(r@)->0),
{
    let id: u128 = fresh_uuid();
    write_uuid(id)
}

} // verus!
