//! Wall-clock time.

use vstd::prelude::*;

verus! {

/// Milliseconds since the Unix epoch, or zero if the system clock reads
/// earlier than the epoch.
///
/// Relies on `std::time::SystemTime::now` and `duration_since`: the result
/// depends on the wall clock, so nothing is promised of it.
#[verifier::external_body]
pub fn timestamp() -> u128 {
    std::time::SystemTime::now().duration_since(std::time::SystemTime::UNIX_EPOCH).map(
        |d| d.as_millis(),
    ).unwrap_or(0)
}

} // verus!
