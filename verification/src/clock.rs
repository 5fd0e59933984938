//! The wall clock, behind a trusted boundary.

use vstd::prelude::*;
use std::time::SystemTime;
use std::time::UNIX_EPOCH;

verus! {

/// The current time in milliseconds since the Unix epoch, or zero
/// when the clock reads before it.
///
/// Relies on `std::time::SystemTime::now` and
/// `SystemTime::duration_since`: a clock before the epoch takes the
/// zero fallback and a count beyond the integer range saturates, so
/// the result is never negative.
#[verifier::external_body]
pub fn now_millis() -> (r: i64)
    ensures
        r >= 0,
{
    match SystemTime::now().duration_since(UNIX_EPOCH) {
        Ok(duration) => i64::try_from(duration.as_millis()).unwrap_or(i64::MAX),
        Err(_) => 0,
    }
}

} // verus!
