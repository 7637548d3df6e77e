//! What the library takes for granted of `std::time::Duration`.
//!
//! A duration is a whole number of nanoseconds. Nothing else of it is
//! visible to the contracts of this library.
use std::time::Duration;
use vstd::prelude::*;

verus! {

/// The number of nanoseconds in a millisecond.
pub const NANOS_PER_MILLI: u64 = 1_000_000;

/// The number of nanoseconds in a second.
pub const NANOS_PER_SEC: u64 = 1_000_000_000;

/// The length of a duration, in nanoseconds.
pub uninterp spec fn duration_nanos(d: Duration) -> nat;

/// `Duration::from_millis` gives the duration of that many milliseconds.
pub assume_specification[ Duration::from_millis ](millis: u64) -> (d: Duration)
    ensures
        duration_nanos(d) == millis * NANOS_PER_MILLI,
;

/// `Duration::from_secs` gives the duration of that many seconds.
pub assume_specification[ Duration::from_secs ](secs: u64) -> (d: Duration)
    ensures
        duration_nanos(d) == secs * NANOS_PER_SEC,
;

/// `Duration::as_nanos` gives the whole length of the duration in
/// nanoseconds.
pub assume_specification[ Duration::as_nanos ](d: &Duration) -> (nanos: u128)
    ensures
        nanos == duration_nanos(*d),
;

/// `Duration::is_zero` tells whether the duration has no length.
pub assume_specification[ Duration::is_zero ](d: &Duration) -> (zero: bool)
    ensures
        zero == (duration_nanos(*d) == 0),
;

/// Divides a duration by two with the operator `/` of `Duration` and `u32`,
/// which divides the length in nanoseconds and rounds down.
#[verifier::external_body]
pub(crate) fn halved(d: Duration) -> (half: Duration)
    ensures
        duration_nanos(half) == duration_nanos(d) / 2,
{
    d / 2
}

} // verus!
