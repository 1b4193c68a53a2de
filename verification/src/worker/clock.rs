//! Wall-clock readings used to timestamp isolates and evictions.
use vstd::prelude::*;

verus! {

/// Milliseconds since the Unix epoch, from `std::time::SystemTime::now`.
/// The value depends on the machine's clock, so nothing is promised of it;
/// a clock set before the epoch reads as zero.
#[verifier::external_body]
pub(crate) fn now_millis() -> u64 {
    match std::time::SystemTime::now().duration_since(std::time::UNIX_EPOCH) {
        Ok(d) => d.as_millis() as u64,
        Err(_) => 0,
    }
}

/// Microseconds since the Unix epoch, from `std::time::SystemTime::now`.
/// Nothing is promised of the value; a clock set before the epoch reads as
/// `None`.
#[verifier::external_body]
pub(crate) fn now_micros() -> Option<u64> {
    match std::time::SystemTime::now().duration_since(std::time::UNIX_EPOCH) {
        Ok(d) => Some(d.as_micros() as u64),
        Err(_) => None,
    }
}

} // verus!
