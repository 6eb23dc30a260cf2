//! Lengths of time, as the library reads them from [`std::time::Duration`].

use std::time::Duration;
use vstd::prelude::*;

verus! {

/// Nanoseconds in a second.
pub const NANOS_PER_SEC: u64 = 1_000_000_000;

/// The whole number of nanoseconds in a duration, as [`Duration::as_nanos`] gives it.
pub uninterp spec fn duration_nanos(d: Duration) -> u128;

/// [`Duration::as_nanos`] gives the total number of nanoseconds. A duration has at most
/// `u64::MAX` whole seconds.
pub assume_specification[ Duration::as_nanos ](d: &Duration) -> (nanos: u128)
    ensures
        nanos == duration_nanos(*d),
        nanos < (u64::MAX + 1) * NANOS_PER_SEC,
;

/// [`Duration::from_secs`] makes a duration of that many whole seconds.
pub assume_specification[ Duration::from_secs ](secs: u64) -> (d: Duration)
    ensures
        duration_nanos(d) == secs * NANOS_PER_SEC,
;

/// [`Duration::as_secs`] gives the number of whole seconds, without the fractional part.
pub assume_specification[ Duration::as_secs ](d: &Duration) -> (secs: u64)
    ensures
        secs as int == duration_nanos(*d) as int / NANOS_PER_SEC as int,
;

/// A cache lifetime in nanoseconds; without one, objects do not expire.
pub open spec fn lifetime_nanos(lifetime: Option<Duration>) -> Option<u128> {
    match lifetime {
        Some(d) => Some(duration_nanos(d)),
        None => None,
    }
}

/// Finds a lifetime in nanoseconds. The times that a [`Duration`] can hold are small enough to be
/// added to one another.
pub(crate) fn lifetime_in_nanos(lifetime: Option<Duration>) -> (r: Option<u128>)
    ensures
        r == lifetime_nanos(lifetime),
        r matches Some(nanos) ==> nanos < (u64::MAX + 1) * NANOS_PER_SEC,
{
    match lifetime {
        Some(duration) => Some(duration.as_nanos()),
        None => None,
    }
}

} // verus!
