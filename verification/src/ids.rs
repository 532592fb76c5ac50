//! Entity identifiers: UUID text, checked and minted through the `uuid` crate.

use vstd::prelude::*;

use crate::error::{is_validation_of, AppError};

verus! {

/// Whether `uuid::Uuid::parse_str` accepts the text.
pub uninterp spec fn uuid_accepts(text: Seq<char>) -> bool;

/// `uuid::Uuid::parse_str(text).is_ok()`.
#[verifier::external_body]
fn uuid_text_is_valid(text: &str) -> (valid: bool)
    ensures
        valid == uuid_accepts(text@),
{
    ::uuid::Uuid::parse_str(text).is_ok()
}

/// `uuid::Uuid::now_v7().to_string()`: a fresh time-ordered id. Its value
/// depends on the clock and on chance; only that `parse_str` accepts the
/// hyphenated text it prints is stated.
#[verifier::external_body]
pub(crate) fn new_id() -> (id: String)
    ensures
        uuid_accepts(id@),
{
    ::uuid::Uuid::now_v7().to_string()
}

/// Checks that `text` is an identifier, reporting a validation error on
/// `field` otherwise.
pub fn require_id(field: &str, text: &str) -> (checked: Result<(), AppError>)
    ensures
        checked is Ok <==> uuid_accepts(text@),
        checked matches Err(e) ==> is_validation_of(e, field@),
{
    if uuid_text_is_valid(text) {
        Ok(())
    } else {
        Err(AppError::validation(field, "The identifier is invalid."))
    }
}

/// The reading of an optional identifier: absent, or one that `uuid` accepts.
pub open spec fn optional_id_ok(text: Option<String>) -> bool {
    match text {
        Some(t) => uuid_accepts(t@),
        None => true,
    }
}

/// Checks an optional identifier; absent passes.
pub fn require_optional_id(field: &str, text: &Option<String>) -> (checked: Result<(), AppError>)
    ensures
        checked is Ok <==> optional_id_ok(*text),
        checked matches Err(e) ==> is_validation_of(e, field@),
{
    match text {
        Some(value) => require_id(field, value.as_str()),
        None => Ok(()),
    }
}

} // verus!
