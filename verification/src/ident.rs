//! Fresh opaque identifiers: bearer tokens, routing identifiers and image
//! tags all come from random UUIDs.
//!
//! The values are random, so nothing beyond their length is promised; every
//! function that consumes one is specified for every possible value.

use vstd::prelude::*;

verus! {

/// Relies on uuid's `Uuid::new_v4` and its hyphenated `Display` form:
/// 36 characters. The value is random, so nothing else is promised.
#[verifier::external_body]
pub fn fresh_token() -> (r: String)
    ensures
        r@.len() == 36,
{
    uuid::Uuid::new_v4().to_string()
}

/// Relies on uuid's `Uuid::new_v4` and its `Simple` display form:
/// 32 characters. The value is random, so nothing else is promised.
#[verifier::external_body]
pub fn fresh_uid() -> (r: String)
    ensures
        r@.len() == 32,
{
    uuid::Uuid::new_v4().simple().to_string()
}

} // verus!
