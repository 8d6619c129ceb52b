//! The clock and fresh identifiers.
//!
//! Points in time are microseconds since the Unix epoch (UTC); identifiers
//! are UUIDs held as their 128-bit value (`Uuid::as_u128`, big-endian).

use vstd::prelude::*;

verus! {

/// `Utc::now().timestamp_micros()`: the current time in microseconds since
/// the Unix epoch. Nothing is promised of its value.
#[verifier::external_body]
pub(crate) fn now_micros() -> (t: i64) {
    chrono::Utc::now().timestamp_micros()
}

/// A UUID of version 4 (random) of the RFC 4122 variant.
pub open spec fn is_random_uuid(u: u128) -> bool {
    &&& (u >> 76u128) & 0xfu128 == 4
    &&& (u >> 62u128) & 3u128 == 2
}

/// `Uuid::new_v4().as_u128()`: a random UUID; the crate sets the version
/// nibble to 4 and the variant bits to `10`, the rest is random.
#[verifier::external_body]
pub(crate) fn new_uuid() -> (u: u128)
    ensures
        is_random_uuid(u),
{
    uuid::Uuid::new_v4().as_u128()
}

} // verus!
