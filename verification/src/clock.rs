//! Access to the wall clock.

use vstd::prelude::*;

verus! {

/// Relies on `std::time::SystemTime::now`: the number of whole seconds since
/// the Unix epoch, or zero if the clock reads before the epoch. Nothing is
/// promised of the value.
#[verifier::external_body]
pub fn now_seconds() -> u64 {
    match std::time::SystemTime::now().duration_since(std::time::UNIX_EPOCH) {
        Ok(d) => d.as_secs(),
        Err(_) => 0,
    }
}

} // verus!
