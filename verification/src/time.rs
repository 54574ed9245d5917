//! The calls into `std::time::Duration` that the library makes.

use std::time::Duration;
use vstd::prelude::*;

verus! {

/// `Duration::clone`: `Duration` is `Copy`, so a clone is the same value.
pub assume_specification[ <std::time::Duration as Clone>::clone ](d: &std::time::Duration) -> (r: std::time::Duration)
    ensures
        r == *d,
;

/// What `Duration::as_secs` gives: the whole seconds of `d`.
pub uninterp spec fn duration_secs(d: Duration) -> u64;

/// The duration that `Duration::from_secs` makes of `secs` seconds.
pub uninterp spec fn secs_duration(secs: u64) -> Duration;

/// The duration that `Duration::from_millis` makes of `millis` milliseconds.
pub uninterp spec fn millis_duration(millis: u64) -> Duration;

/// `Duration::as_secs`: the number of whole seconds.
#[verifier::external_body]
pub(crate) fn whole_secs(d: &Duration) -> (r: u64)
    ensures
        r == duration_secs(*d),
{
    d.as_secs()
}

/// `Duration::from_secs`: a duration of `secs` whole seconds.
#[verifier::external_body]
pub(crate) fn from_secs(secs: u64) -> (r: Duration)
    ensures
        r == secs_duration(secs),
        duration_secs(r) == secs,
{
    Duration::from_secs(secs)
}

/// `Duration::from_millis`: a duration of `millis` milliseconds.
#[verifier::external_body]
pub(crate) fn from_millis(millis: u64) -> (r: Duration)
    ensures
        r == millis_duration(millis),
        duration_secs(r) == millis / 1000,
{
    Duration::from_millis(millis)
}

} // verus!
