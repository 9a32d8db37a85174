use vstd::prelude::*;

verus! {

/// The text that `uuid` writes for an identifier: hyphenated lower-case hex.
pub uninterp spec fn uuid_text_of(id: u128) -> Seq<char>;

/// The identifier that `uuid` reads from a text, if it reads one.
pub uninterp spec fn uuid_parsed_from(s: Seq<char>) -> Option<u128>;

/// Relies on `uuid::Uuid::new_v4`: a fresh random identifier. Nothing is promised
/// of its value.
#[verifier::external_body]
pub(crate) fn fresh_id() -> (r: u128) {
    uuid::Uuid::new_v4().as_u128()
}

/// Relies on `uuid::Uuid::parse_str`, read as a 128-bit integer.
#[verifier::external_body]
pub(crate) fn parse_uuid(s: &str) -> (r: Option<u128>)
    ensures
        r == uuid_parsed_from(s@),
{
    match uuid::Uuid::parse_str(s) {
        Ok(u) => Some(u.as_u128()),
        Err(_) => None,
    }
}

/// Relies on the `Display` of `uuid::Uuid` (hyphenated, lower case).
#[verifier::external_body]
pub(crate) fn uuid_text(id: u128) -> (r: String)
    ensures
        r@ == uuid_text_of(id),
{
    uuid::Uuid::from_u128(id).to_string()
}

} // verus!
