//! The wall clock.

use vstd::prelude::*;

verus! {

/// Relies on `std::time::SystemTime::now` and `duration_since`: the
/// milliseconds since the Unix epoch, by the system clock. The result
/// depends on the wall clock alone, so nothing is promised of it. A clock
/// set before the epoch yields 0 rather than failing.
#[verifier::external_body]
fn system_millis() -> i64 {
    std::time::SystemTime::now().duration_since(std::time::SystemTime::UNIX_EPOCH).map(
        |d| d.as_millis() as i64,
    ).unwrap_or(0)
}

/// The current time as milliseconds since the Unix epoch. The value comes
/// from the wall clock, so no two calls are related to each other.
pub fn current_time() -> i64 {
    system_millis()
}

} // verus!
