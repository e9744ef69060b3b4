//! Identifier and timestamp generation: the two places where the library
//! reaches for the outside world's randomness and clock.

use vstd::prelude::*;

verus! {

/// Relies on `uuid::Uuid::new_v4` and its `Display` form: a fresh random
/// version-4 UUID, rendered in the hyphenated form of exactly 36
/// characters.  Being random, nothing relates two calls.
#[verifier::external_body]
pub fn new_token() -> (r: String)
    ensures
        r@.len() == 36,
{
    uuid::Uuid::new_v4().to_string()
}

/// Relies on `chrono::Utc::now` and `DateTime::to_rfc3339`: the current
/// time, rendered as RFC 3339.  Being read from the clock, nothing is
/// assumed of the value.
#[verifier::external_body]
pub fn now_rfc3339() -> (r: String) {
    chrono::Utc::now().to_rfc3339()
}

} // verus!
