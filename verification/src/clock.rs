//! The wall clock, read where a record is stamped with the time.

use vstd::prelude::*;

verus! {

/// Seconds since the Unix epoch by `std::time::SystemTime::now`, 0 when the
/// clock is set before the epoch. Nothing is claimed of the value: it
/// depends on the time of the call.
#[verifier::external_body]
pub(crate) fn unix_now_secs() -> u64 {
    std::time::SystemTime::now().duration_since(std::time::UNIX_EPOCH).unwrap_or_default().as_secs()
}

} // verus!
