//! The monotonic clock behind the animations.

use vstd::prelude::*;

use std::time::{Duration, Instant};

verus! {

#[verifier::external_type_specification]
#[verifier::external_body]
pub struct ExInstant(std::time::Instant);

/// What `Duration::from_millis` returns for `ms`.
pub uninterp spec fn millis_duration(ms: u64) -> Duration;

/// The whole number of nanoseconds in `d`, as `Duration::as_nanos` gives it.
pub uninterp spec fn duration_nanos(d: Duration) -> nat;

/// `Duration::from_millis`: the contract names its result, which depends on
/// `ms` alone, and states what the documentation gives of it: it spans `ms`
/// milliseconds.
#[verifier::external_body]
pub(crate) fn duration_from_millis(ms: u64) -> (d: Duration)
    ensures
        d == millis_duration(ms),
        duration_nanos(d) == ms * 1_000_000,
{
    Duration::from_millis(ms)
}

/// `Instant::now`. Nothing is stated of the reading: it depends on the time.
#[verifier::external_body]
pub(crate) fn now() -> Instant {
    Instant::now()
}

/// `Instant::elapsed`. Nothing is stated of the result: it depends on the
/// time.
#[verifier::external_body]
pub(crate) fn elapsed_since(start: &Instant) -> Duration {
    start.elapsed()
}

/// `Duration::as_nanos`: the total number of whole nanoseconds in `d`. The
/// value of a duration is that number, so durations compare as it does.
#[verifier::external_body]
pub(crate) fn nanos_of(d: &Duration) -> (n: u128)
    ensures
        n == duration_nanos(*d),
{
    d.as_nanos()
}

} // verus!
