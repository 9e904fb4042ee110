//! The monotonic clock that stamps what the engine remembers.

use vstd::prelude::*;
use std::time::{Duration, Instant};

verus! {

/// A point on the monotonic clock of the standard library.
#[verifier::external_type_specification]
#[verifier::external_body]
pub struct ExInstant(Instant);

/// Calls `Instant::now`. Nothing is claimed of the point that comes back.
#[verifier::external_body]
pub(crate) fn instant_now() -> (start: Instant) {
    Instant::now()
}

/// Calls `Instant::elapsed`. Nothing is claimed of the time that comes back.
#[verifier::external_body]
pub(crate) fn instant_elapsed(start: &Instant) -> (passed: Duration) {
    start.elapsed()
}

/// Calls `Duration::as_millis`. Nothing is claimed of the number that comes
/// back.
#[verifier::external_body]
pub(crate) fn duration_millis(passed: &Duration) -> (ms: u128) {
    passed.as_millis()
}

/// Reads the clock: the whole milliseconds that have passed since `start`,
/// as [`saturate_millis`] keeps them. What comes back is the clock's to say.
pub fn millis_since(start: &Instant) -> (ms: u64) {
    let passed = instant_elapsed(start);
    saturate_millis(duration_millis(&passed))
}

/// A reading of the clock in milliseconds as the engine keeps it: the
/// reading itself where it fits in 64 bits, else the greatest time there is.
pub open spec fn saturated(reading: u128) -> u64 {
    if reading > u64::MAX {
        u64::MAX
    } else {
        reading as u64
    }
}

/// A reading of the clock in milliseconds as the engine keeps it, see
/// [`saturated`].
pub fn saturate_millis(reading: u128) -> (ms: u64)
    ensures
        ms == saturated(reading),
{
    if reading > 0xffff_ffff_ffff_ffffu128 {
        u64::MAX
    } else {
        reading as u64
    }
}

} // verus!
