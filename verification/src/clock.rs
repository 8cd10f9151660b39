//! The host clock.

use crate::time::{representable, Span, VTime};
use std::time::{Duration, SystemTime, SystemTimeError};
use vstd::prelude::*;

verus! {

#[verifier::external_type_specification]
#[verifier::external_body]
pub struct ExSystemTime(SystemTime);

#[verifier::external_type_specification]
#[verifier::external_body]
pub struct ExSystemTimeError(SystemTimeError);

/// `std::time::SystemTime::now`: whatever the host clock says. Nothing is
/// claimed of the reading.
pub assume_specification[ SystemTime::now ]() -> SystemTime;

/// `std::time::SystemTime::duration_since`: the distance to an earlier instant,
/// or an error that carries the distance where the other instant is later.
/// Nothing is claimed of the distance.
pub assume_specification[ SystemTime::duration_since ](
    t: &SystemTime,
    earlier: SystemTime,
) -> Result<Duration, SystemTimeError>;

/// `std::time::SystemTimeError::duration`: the distance by which the other
/// instant is later. Nothing is claimed of it.
pub assume_specification[ SystemTimeError::duration ](e: &SystemTimeError) -> Duration;

/// `std::time::Duration::as_secs`: the whole seconds of a duration. Nothing is
/// claimed of them.
pub assume_specification[ Duration::as_secs ](d: &Duration) -> u64;

/// `std::time::Duration::subsec_nanos`: the fractional part of a duration in
/// nanoseconds, documented to be always below one second.
pub assume_specification[ Duration::subsec_nanos ](d: &Duration) -> (r: u32)
    ensures
        r < 1_000_000_000,
;

/// `std::time::UNIX_EPOCH`: the instant that distances are taken from.
#[verifier::external_body]
fn unix_epoch() -> SystemTime {
    std::time::UNIX_EPOCH
}

/// The nanoseconds since the epoch that a clock reading stands for: `Ok` is a
/// distance after the epoch, `Err` one before it. A reading out of the range of
/// [`VTime`] counts as the epoch.
pub open spec fn reading_nanos(reading: Result<Span, Span>) -> int {
    let nanos = match reading {
        Ok(d) => d.nanoseconds(),
        Err(d) => -d.nanoseconds(),
    };
    if representable(nanos) {
        nanos
    } else {
        0
    }
}

/// The instant that a clock reading stands for.
pub fn instant_of_reading(reading: Result<Span, Span>) -> (r: VTime)
    requires
        match reading {
            Ok(d) => d.normal(),
            Err(d) => d.normal(),
        },
    ensures
        r.well_formed(),
        r.nanos() == reading_nanos(reading),
{
    let t = match reading {
        Ok(d) => VTime::after_epoch(d),
        Err(d) => VTime::before_epoch(d),
    };
    match t {
        Some(t) => t,
        None => VTime::epoch(),
    }
}

/// `span` is what a duration says of itself.
pub open spec fn says(d: Duration, span: Span) -> bool {
    &&& call_ensures(Duration::as_secs, (&d,), span.secs)
    &&& call_ensures(Duration::subsec_nanos, (&d,), span.nanos)
}

/// `reading` is the distance of the instant `t` from `epoch`, as the host
/// measures it.
pub open spec fn measured(
    t: SystemTime,
    epoch: SystemTime,
    reading: Result<Span, Span>,
) -> bool {
    exists|d: Result<Duration, SystemTimeError>| #[trigger]
        call_ensures(SystemTime::duration_since, (&t, epoch), d) && (match d {
            Ok(after) => reading matches Ok(span) && says(after, span),
            Err(e) => exists|before: Duration| #[trigger]
                call_ensures(SystemTimeError::duration, (&e,), before) && (
                reading matches Err(span) && says(before, span)),
        })
}

/// `t` is what a reading of the host clock stands for.
pub closed spec fn is_now(t: VTime) -> bool {
    exists|now: SystemTime, epoch: SystemTime, reading: Result<Span, Span>|
        {
            &&& call_ensures(SystemTime::now, (), now)
            &&& call_ensures(unix_epoch, (), epoch)
            &&& #[trigger] measured(now, epoch, reading)
            &&& t.nanos() == reading_nanos(reading)
        }
}

/// The current wall-clock time: what one reading of the host clock stands for.
pub fn current_time() -> (r: VTime)
    ensures
        r.well_formed(),
        is_now(r),
{
    let now = SystemTime::now();
    let epoch = unix_epoch();
    let d = now.duration_since(epoch);
    let reading = match d {
        Ok(after) => Ok(Span { secs: after.as_secs(), nanos: after.subsec_nanos() }),
        Err(e) => {
            let before = e.duration();
            Err(Span { secs: before.as_secs(), nanos: before.subsec_nanos() })
        },
    };
    assert(measured(now, epoch, reading));
    instant_of_reading(reading)
}

/// The current time is as far from the epoch as the clock of the host says, and on that
/// side of it.
pub proof fn the_time_is_read_from_the_clock(t: VTime)
    requires
        call_ensures(current_time, (), t),
    ensures
        exists|now: SystemTime, epoch: SystemTime, d: Result<Duration, SystemTimeError>|
            {
                &&& call_ensures(SystemTime::now, (), now)
                &&& #[trigger] call_ensures(SystemTime::duration_since, (&now, epoch), d)
                &&& match d {
                    Ok(after) => exists|secs: u64, nanos: u32|
                        {
                            &&& #[trigger] call_ensures(Duration::as_secs, (&after,), secs)
                            &&& #[trigger] call_ensures(Duration::subsec_nanos, (&after,), nanos)
                            &&& secs <= i64::MAX && nanos < 1_000_000_000 ==> t.nanos() == secs
                                * 1_000_000_000 + nanos
                        },
                    Err(e) => exists|before: Duration, secs: u64, nanos: u32|
                        {
                            &&& #[trigger] call_ensures(SystemTimeError::duration, (&e,), before)
                            &&& #[trigger] call_ensures(Duration::as_secs, (&before,), secs)
                            &&& #[trigger] call_ensures(Duration::subsec_nanos, (&before,), nanos)
                            &&& secs <= i64::MAX && nanos < 1_000_000_000 ==> t.nanos() == -(secs
                                * 1_000_000_000 + nanos)
                        },
                }
            },
{
    let (now, epoch, reading) = choose|
        now: SystemTime,
        epoch: SystemTime,
        reading: Result<Span, Span>,
    |
        {
            &&& call_ensures(SystemTime::now, (), now)
            &&& call_ensures(unix_epoch, (), epoch)
            &&& #[trigger] measured(now, epoch, reading)
            &&& t.nanos() == reading_nanos(reading)
        };
    let d = choose|d: Result<Duration, SystemTimeError>| #[trigger]
        call_ensures(SystemTime::duration_since, (&now, epoch), d) && (match d {
            Ok(after) => reading matches Ok(span) && says(after, span),
            Err(e) => exists|before: Duration| #[trigger]
                call_ensures(SystemTimeError::duration, (&e,), before) && (
                reading matches Err(span) && says(before, span)),
        });
    assert(call_ensures(SystemTime::duration_since, (&now, epoch), d));
}

/// The seconds and nanoseconds that `stat` reports for an instant: an instant
/// before the epoch is reported as the epoch.
pub open spec fn stat_time(t: VTime) -> (i64, i64) {
    if t.nanos() < 0 {
        (0, 0)
    } else {
        ((t.nanos() / 1_000_000_000) as i64, (t.nanos() % 1_000_000_000) as i64)
    }
}

/// Split an instant into the seconds and nanoseconds that `stat` reports.
pub fn instant_parts(t: VTime) -> (r: (i64, i64))
    ensures
        r == stat_time(t),
        0 <= r.0,
        0 <= r.1 < 1_000_000_000,
{
    match t.since_epoch() {
        Ok(d) => (d.secs as i64, d.nanos as i64),
        Err(_) => (0, 0),
    }
}

/// Current wall-clock time as seconds and nanoseconds.
pub fn current_timespec() -> (r: (i64, i64))
    ensures
        exists|now: VTime| #[trigger] is_now(now) && r == stat_time(now),
        0 <= r.0,
        0 <= r.1 < 1_000_000_000,
{
    let now = current_time();
    assert(is_now(now));
    instant_parts(now)
}

/// Split an optional instant into seconds and nanoseconds, defaulting to now.
pub fn time_parts(t: Option<VTime>) -> (r: (i64, i64))
    ensures
        match t {
            Some(t) => r == stat_time(t),
            None => exists|now: VTime| #[trigger] is_now(now) && r == stat_time(now),
        },
{
    match t {
        Some(t) => instant_parts(t),
        None => current_timespec(),
    }
}

} // verus!
