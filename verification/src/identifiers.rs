//! Universally unique identifiers as 128-bit numbers.

use crate::error::AppError;
use crate::text::owned;
use vstd::prelude::*;

verus! {

/// The identifier that `uuid::Uuid::parse_str` reads from a text, as a
/// number; nothing where it reads none.
pub uninterp spec fn parsed_uuid(text: Seq<char>) -> Option<u128>;

/// The hyphenated lower-case text of the identifier with the number `id`,
/// as `uuid::Uuid` displays it.
pub uninterp spec fn uuid_text(id: u128) -> Seq<char>;

/// Reads an identifier.
///
/// Trusted: calls `uuid::Uuid::parse_str` and takes the number with
/// `as_u128`. The result depends on the text alone; the contract gives it
/// a name.
#[verifier::external_body]
pub(crate) fn read_uuid(text: &str) -> (id: Option<u128>)
    ensures
        id == parsed_uuid(text@),
{
    match uuid::Uuid::parse_str(text) {
        Ok(id) => Some(id.as_u128()),
        Err(_) => None,
    }
}

/// Writes an identifier.
///
/// Trusted: builds the identifier with `uuid::Uuid::from_u128` and formats
/// it with its `Display`. The result depends on the number alone; the
/// contract gives it a name, and states its length, which is always 36.
#[verifier::external_body]
pub(crate) fn write_uuid(id: u128) -> (text: String)
    ensures
        text@ == uuid_text(id),
        text@.len() == 36,
{
    uuid::Uuid::from_u128(id).to_string()
}

/// The text of the identifier with the number `id` without hyphens, as
/// `uuid::fmt::Simple` displays it.
pub uninterp spec fn uuid_simple_text(id: u128) -> Seq<char>;

/// Writes an identifier without hyphens.
///
/// Trusted: builds the identifier with `uuid::Uuid::from_u128` and formats
/// it with `Uuid::simple`. The result depends on the number alone; the
/// contract gives it a name, and states its length, which is always 32.
#[verifier::external_body]
pub(crate) fn write_uuid_simple(id: u128) -> (text: String)
    ensures
        text@ == uuid_simple_text(id),
        text@.len() == 32,
{
    uuid::Uuid::from_u128(id).simple().to_string()
}

/// An identifier of version 4 in the RFC variant: the four bits of the
/// version hold 4, and the two bits of the variant hold 2. All other bits
/// are free.
pub open spec fn is_random_identifier(id: u128) -> bool {
    id & 0xF000_C000_0000_0000_0000u128 == 0x4000_8000_0000_0000_0000u128
}

/// Draws a fresh random identifier.
///
/// Trusted: calls `uuid::Uuid::new_v4` and takes the number with `as_u128`.
/// Which identifier comes back is open; the contract claims that its
/// version and variant bits are those of a random identifier, which
/// `new_v4` sets on the random number it draws.
#[verifier::external_body]
pub(crate) fn fresh_uuid() -> (id: u128)
    ensures
        is_random_identifier(id),
{
    uuid::Uuid::new_v4().as_u128()
}

/// Reads an identifier from its text.
pub fn parse_identifier(text: &str) -> (id: Option<u128>)
    ensures
        id == parsed_uuid(text@),
{
    read_uuid(text)
}

/// The hyphenated text of an identifier.
pub fn identifier_text(id: u128) -> (text: String)
    ensures
        text@ == uuid_text(id),
        text@.len() == 36,
{
    write_uuid(id)
}

/// Reads the identifier of a user as the wallet endpoints are given it.
/// Fails with `BadRequest` exactly when the text is no identifier.
pub fn parse_user_id(text: &str) -> (r: Result<u128, AppError>)
    ensures
        match r {
            Ok(id) => parsed_uuid(text@) == Some(id),
            Err(e) => parsed_uuid(text@) is None && (match e {
                AppError::BadRequest(m) => m@ == "Invalid user_id format"@,
                _ => false,
            }),
        },
{
    match read_uuid(text) {
        Some(id) => Ok(id),
        None => Err(AppError::BadRequest(owned("Invalid user_id format"))),
    }
}

/// A fresh random identifier, of version 4.
pub fn new_identifier() -> (id: u128)
    ensures
        is_random_identifier(id),
{
    fresh_uuid()
}

} // verus!
