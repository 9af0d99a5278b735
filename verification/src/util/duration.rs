//! Spans of time.

use std::time::Duration;
use vstd::prelude::*;

verus! {

/// The whole milliseconds that a span of time holds.
pub uninterp spec fn millis_of(d: Duration) -> nat;

/// `Duration::from_millis`: the span of that many milliseconds.
#[verifier::external_body]
pub(crate) fn duration_from_millis(ms: u64) -> (d: Duration)
    ensures
        millis_of(d) == ms,
{
    Duration::from_millis(ms)
}

/// `Duration::from_secs`: the span of that many seconds.
#[verifier::external_body]
pub(crate) fn duration_from_secs(secs: u64) -> (d: Duration)
    ensures
        millis_of(d) == secs * 1000,
{
    Duration::from_secs(secs)
}

/// `Duration::as_millis`: the whole milliseconds of the span.
#[verifier::external_body]
pub(crate) fn duration_as_millis(d: &Duration) -> (ms: u128)
    ensures
        ms == millis_of(*d),
{
    d.as_millis()
}

/// `Duration::as_secs`: the whole seconds of the span.
#[verifier::external_body]
pub(crate) fn duration_as_secs(d: &Duration) -> (secs: u64)
    ensures
        secs == millis_of(*d) / 1000,
{
    d.as_secs()
}

/// The whole milliseconds of a span, at most the greatest `u64`.
pub fn millis(d: &Duration) -> (ms: u64)
    ensures
        ms == (if millis_of(*d) > u64::MAX {
            u64::MAX as nat
        } else {
            millis_of(*d)
        }),
{
    let ms: u128 = duration_as_millis(d);
    if ms > u64::MAX as u128 {
        u64::MAX
    } else {
        ms as u64
    }
}

} // verus!
