//! The monotonic clock, read through `std::time::Instant`.
//!
//! Nothing is promised of a reading: the library's verified functions take
//! the readings as arguments and are proved for every value of them.

use std::time::{Duration, Instant};
use vstd::prelude::*;

verus! {

/// `std::time::Instant`, carried through the library as an opaque value.
#[verifier::external_type_specification]
#[verifier::external_body]
pub struct ExInstant(Instant);

/// `Instant` is `Copy`: its `clone` returns the same instant.
pub assume_specification[ <Instant as Clone>::clone ](i: &Instant) -> (r: Instant)
    ensures
        r == *i,
;

/// `Duration` is `Copy`: its `clone` returns the same duration.
pub assume_specification[ <Duration as Clone>::clone ](d: &Duration) -> (r: Duration)
    ensures
        r == *d,
;

/// Calls `Instant::now`. The reading depends on the machine's clock, so no
/// clause states anything of it.
#[verifier::external_body]
pub(crate) fn instant_now() -> Instant {
    Instant::now()
}

/// Calls `Instant::elapsed` on `origin`. The result depends on the time of
/// the call, so no clause states anything of it.
#[verifier::external_body]
pub(crate) fn instant_elapsed(origin: &Instant) -> Duration {
    origin.elapsed()
}

/// Calls `Duration::as_nanos`. A `Duration` carries no model in this library, so no clause
/// relates the number to the duration.
#[verifier::external_body]
pub(crate) fn duration_as_nanos(d: &Duration) -> u128 {
    d.as_nanos()
}

/// Calls `Duration::from_secs`. A `Duration` carries no model in this library, so no clause
/// relates the result to `secs`.
#[verifier::external_body]
pub(crate) fn duration_from_secs(secs: u64) -> Duration {
    Duration::from_secs(secs)
}

/// Calls `Duration::as_micros`. A `Duration` carries no model in this library, so no clause
/// relates the number to the duration.
#[verifier::external_body]
pub(crate) fn duration_as_micros(d: &Duration) -> u128 {
    d.as_micros()
}

} // verus!
