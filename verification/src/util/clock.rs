//! The wall clock.

use std::time::{Duration, SystemTime, UNIX_EPOCH};
use vstd::prelude::*;

use super::duration::{duration_as_secs, millis, millis_of};

verus! {

/// `std::time::SystemTime`: a reading of the machine's clock, carried as it
/// is.
#[verifier::external_type_specification]
#[verifier::external_body]
pub struct ExSystemTime(std::time::SystemTime);

/// `SystemTime::now`: the machine's clock now. Nothing is known of the
/// reading.
#[verifier::external_body]
pub(crate) fn clock_now() -> SystemTime {
    SystemTime::now()
}

/// `SystemTime::duration_since` with the Unix epoch: the span from 1970 to
/// the reading; nothing for a reading before 1970.
#[verifier::external_body]
pub(crate) fn since_epoch(t: &SystemTime) -> Option<Duration> {
    t.duration_since(UNIX_EPOCH).ok()
}

/// The whole seconds of the span from 1970 to a reading of the clock, at
/// most the greatest 64-bit number; 0 where there is no span, the reading
/// standing before 1970.
pub open spec fn secs_since(span: Option<Duration>) -> i64 {
    match span {
        Some(d) => if millis_of(d) / 1000 > i64::MAX {
            i64::MAX
        } else {
            (millis_of(d) / 1000) as i64
        },
        None => 0,
    }
}

/// The whole milliseconds of the span from 1970 to a reading of the clock,
/// at most the greatest 64-bit number; 0 where there is no span, the
/// reading standing before 1970.
pub open spec fn millis_since(span: Option<Duration>) -> i64 {
    match span {
        Some(d) => if millis_of(d) > i64::MAX {
            i64::MAX
        } else {
            millis_of(d) as i64
        },
        None => 0,
    }
}

/// Turns the span from 1970 to a reading of the clock into whole seconds.
pub fn seconds_of(span: Option<Duration>) -> (secs: i64)
    ensures
        secs == secs_since(span),
{
    match span {
        Some(d) => {
            let secs: u64 = duration_as_secs(&d);
            if secs > i64::MAX as u64 {
                i64::MAX
            } else {
                secs as i64
            }
        },
        None => 0,
    }
}

/// Turns the span from 1970 to a reading of the clock into whole
/// milliseconds.
pub fn milliseconds_of(span: Option<Duration>) -> (ms: i64)
    ensures
        ms == millis_since(span),
{
    match span {
        Some(d) => {
            let ms: u64 = millis(&d);
            if ms > i64::MAX as u64 {
                i64::MAX
            } else {
                ms as i64
            }
        },
        None => 0,
    }
}

/// The seconds since 1970 on the machine's clock; 0 for a clock that stands
/// before 1970. The clock is read once, and the result is the whole seconds
/// of the span that it gave.
pub fn now_secs() -> (now: i64)
    ensures
        now >= 0,
        exists|span: Option<Duration>| now == #[trigger] secs_since(span),
{
    let span = since_epoch(&clock_now());
    seconds_of(span)
}

/// The milliseconds since 1970 on the machine's clock; 0 for a clock that
/// stands before 1970. The clock is read once, and the result is the whole
/// milliseconds of the span that it gave.
pub fn now_millis() -> (now: i64)
    ensures
        now >= 0,
        exists|span: Option<Duration>| now == #[trigger] millis_since(span),
{
    let span = since_epoch(&clock_now());
    milliseconds_of(span)
}

/// Whether at least `interval` seconds lie between `since` and `now`.
pub open spec fn elapsed_at_least(now: i64, since: i64, interval: int) -> bool {
    now - since >= interval
}

/// Whether at least `interval` seconds lie between `since` and `now`; the
/// difference is taken exactly, whatever the two numbers are.
pub fn has_elapsed(now: i64, since: i64, interval: i64) -> (r: bool)
    ensures
        r == elapsed_at_least(now, since, interval as int),
{
    let diff: i128 = now as i128 - since as i128;
    diff >= interval as i128
}

} // verus!
