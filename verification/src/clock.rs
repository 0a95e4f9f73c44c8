//! The monotonic clock that poll accounting reads.

use vstd::prelude::*;
use std::time::Duration;
use std::time::Instant;

verus! {

/// A point in time on the monotonic clock of std. Nothing is known of one but
/// that it can be carried along and asked how long ago it was.
#[verifier::external_type_specification]
#[verifier::external_body]
pub struct ExInstant(Instant);

/// `Instant::now` reads the clock. Nothing is claimed of the value: two calls
/// may give any two points.
pub assume_specification[ Instant::now ]() -> (now: Instant);

/// `Instant::elapsed` measures the time since the instant. Nothing is claimed
/// of the length measured.
pub assume_specification[ Instant::elapsed ](start: &Instant) -> (elapsed: Duration);

/// `Duration::as_nanos` gives the length in whole nanoseconds. Nothing is
/// claimed of the number, since nothing is known of the length.
pub assume_specification[ Duration::as_nanos ](d: &Duration) -> (nanos: u128);

/// The nanoseconds that have passed since `start`, cut off at the largest
/// `u64`. The clock decides the value.
pub(crate) fn elapsed_nanos(start: &Instant) -> (nanos: u64) {
    let measured = start.elapsed();
    let nanos: u128 = measured.as_nanos();
    if nanos > u64::MAX as u128 {
        u64::MAX
    } else {
        nanos as u64
    }
}

} // verus!
