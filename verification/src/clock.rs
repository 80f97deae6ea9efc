//! Access to the monotonic clock of the machine.
//!
//! Every reading of the clock depends on when it is made, so nothing here
//! promises a particular value: the timer logic takes what comes back as an
//! argument and is verified for every value of it.
use vstd::prelude::*;
use std::time::Duration;
use std::time::Instant;

verus! {

/// A point on the monotonic clock; Verus sees nothing inside it.
#[verifier::external_type_specification]
#[verifier::external_body]
pub struct ExInstant(Instant);

/// Calls `std::time::Instant::now`. What it returns depends on the moment of
/// the call, so the contract states nothing about it.
#[verifier::external_body]
pub(crate) fn instant_now() -> (now: Instant) {
    Instant::now()
}

/// Calls `Sub<Instant> for Instant`, the time that passed from `earlier` to
/// `later` (zero when `later` is the earlier one: std saturates here). An
/// `Instant` has no view, so the contract cannot relate the result to its
/// arguments and states nothing.
#[verifier::external_body]
pub(crate) fn elapsed_between(earlier: &Instant, later: &Instant) -> (elapsed: Duration) {
    *later - *earlier
}

/// Calls `Duration::as_nanos`, the whole length of a duration in nanoseconds.
/// A `Duration` has no view here, so the contract states nothing about the
/// number.
#[verifier::external_body]
pub(crate) fn duration_nanos(d: &Duration) -> (nanos: u128) {
    d.as_nanos()
}

} // verus!
