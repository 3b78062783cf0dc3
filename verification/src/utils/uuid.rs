//! Identifier handling.
//!
//! Bins and captured requests are addressed by 128-bit identifiers whose
//! external form is a UUID string. Inside the library an identifier is the
//! plain `u128` value; text is parsed once, at the boundary.

use vstd::prelude::*;

verus! {

/// What `uuid::Uuid::parse_str` makes of a text: the 128-bit value of the
/// identifier it reads, or `None` where it rejects the text.
pub uninterp spec fn parsed_uuid(text: Seq<char>) -> Option<u128>;

/// The canonical text of an identifier, as `uuid::Uuid`'s `Display` writes it:
/// lower-case hexadecimal digits in hyphenated groups.
pub uninterp spec fn uuid_text(id: u128) -> Seq<char>;

/// The bits that every version 4 identifier carries: version `4` and the
/// RFC variant.
pub open spec fn is_random_uuid(id: u128) -> bool {
    id & 0x0000_0000_0000_f000_c000_0000_0000_0000u128
        == 0x0000_0000_0000_4000_8000_0000_0000_0000u128
}

/// Calls `uuid::Uuid::parse_str`. Trusted: the result is the value the parser
/// read, big-endian, and `None` exactly where the parser returned an error.
#[verifier::external_body]
fn parse_uuid(text: &str) -> (r: Option<u128>)
    ensures
        r == parsed_uuid(text@),
{
    match ::uuid::Uuid::parse_str(text) {
        Ok(id) => Some(id.as_u128()),
        Err(_) => None,
    }
}

/// Calls `uuid::Uuid::from_u128` and formats the value with its `Display`
/// impl. Trusted: the text is the hyphenated form, which the parser reads
/// back to the same value.
#[verifier::external_body]
fn write_uuid(id: u128) -> (r: String)
    ensures
        r@ == uuid_text(id),
        parsed_uuid(r@) == Some(id),
{
    ::uuid::Uuid::from_u128(id).to_string()
}

/// Calls `uuid::Uuid::new_v4`. Trusted: the value is drawn at random, so only
/// its version and variant bits are known.
#[verifier::external_body]
fn random_uuid() -> (r: u128)
    ensures
        is_random_uuid(r),
{
    ::uuid::Uuid::new_v4().as_u128()
}

/// The message carried by a rejected identifier.
pub open spec fn invalid_uuid_message() -> Seq<char> {
    "Invalid UUID format"@
}

/// What [`validate_uuid`] returns for a parse outcome.
pub open spec fn validated(parsed: Option<u128>, r: Result<u128, String>) -> bool {
    match parsed {
        Some(id) => r == Ok::<u128, String>(id),
        None => r is Err && r->Err_0@ == invalid_uuid_message(),
    }
}

/// Checks that `id` is a well-formed identifier and returns its value.
///
/// The text is accepted exactly when the UUID parser accepts it; otherwise
/// the error is the fixed message `"Invalid UUID format"`.
pub fn validate_uuid(id: &str) -> (r: Result<u128, String>)
    ensures
        validated(parsed_uuid(id@), r),
{
    match parse_uuid(id) {
        Some(value) => Ok(value),
        None => Err("Invalid UUID format".to_owned()),
    }
}

/// The external, canonical text of an identifier. Validating the text gives
/// the identifier back.
pub fn format_uuid(id: u128) -> (r: String)
    ensures
        r@ == uuid_text(id),
        parsed_uuid(r@) == Some(id),
{
    write_uuid(id)
}

/// A fresh version 4 identifier.
pub fn new_uuid() -> (r: u128)
    ensures
        is_random_uuid(r),
{
    random_uuid()
}

} // verus!
