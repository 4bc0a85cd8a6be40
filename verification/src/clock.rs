//! The monotonic clock that the state machine reads. Every reading depends
//! on the time at which it is taken, so nothing is promised of its value.
use vstd::prelude::*;

verus! {

/// `std::time::Instant` is carried through opaquely: the library only keeps
/// the instant at which a machine was created and measures from it.
#[verifier::external_type_specification]
#[verifier::external_body]
pub struct ExInstant(std::time::Instant);

/// Takes a clock reading with `std::time::Instant::now`. The reading
/// depends on the time, so no clause states anything of it.
#[verifier::external_body]
pub(crate) fn clock_now() -> std::time::Instant {
    std::time::Instant::now()
}

/// Nanoseconds that have passed since `origin`, by
/// `std::time::Instant::elapsed`, the `Duration` converted with
/// `Duration::as_nanos`. It depends on the time of the call, so no clause
/// states anything of it (not even that a later reading is larger, which the
/// documentation of `Instant` promises across calls).
#[verifier::external_body]
pub(crate) fn nanos_since(origin: &std::time::Instant) -> u128 {
    origin.elapsed().as_nanos()
}

} // verus!
