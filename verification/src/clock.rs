//! The monotonic clock the timing harness reads.
//!
//! When a reading is taken, and how much time a benchmark takes, depend on
//! the machine and the moment, so nothing is promised of these results: the
//! timed loop's own guarantees (how many passes run, and that every
//! invocation checks out) are proved independently of what the clock says.

use vstd::prelude::*;

verus! {

/// A reading of std's monotonic clock, carried through opaquely.
#[verifier::external_type_specification]
#[verifier::external_body]
pub struct ExInstant(std::time::Instant);

/// Relies on std::time::Instant::now: a reading of the monotonic clock.
/// When it is taken depends on the moment of the call, so nothing is
/// promised of it.
#[verifier::external_body]
pub(crate) fn monotonic_now() -> std::time::Instant {
    std::time::Instant::now()
}

/// Relies on std::time::Instant::elapsed and std::time::Duration::as_nanos:
/// the whole number of nanoseconds between the reading and now. It depends
/// on the clock, so nothing is promised of it.
#[verifier::external_body]
pub(crate) fn nanos_since(start: &std::time::Instant) -> u128 {
    start.elapsed().as_nanos()
}

} // verus!
