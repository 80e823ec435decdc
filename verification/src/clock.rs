//! The wall clock.

use std::time::UNIX_EPOCH;
use vstd::prelude::*;

verus! {

/// Reads the system clock through `SystemTime::elapsed` on the Unix epoch and
/// returns the whole seconds that have passed since then, or zero for a clock
/// set before the epoch. Nothing is claimed of the result.
#[verifier::external_body]
pub(crate) fn unix_seconds() -> u64 {
    match UNIX_EPOCH.elapsed() {
        Ok(elapsed) => elapsed.as_secs(),
        Err(_) => 0,
    }
}

} // verus!
