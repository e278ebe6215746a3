//! The wall clock, the one thing a new block takes from its surroundings.

use vstd::prelude::*;

verus! {

/// Calls `chrono::Utc::now` and takes the Unix timestamp of the result, in
/// whole seconds.
///
/// Trusted, and nothing is promised of the value: it is whatever the system
/// clock says. `chrono` panics where the clock stands before 1970.
#[verifier::external_body]
pub(crate) fn unix_time_now() -> i64 {
    chrono::Utc::now().timestamp()
}

} // verus!
