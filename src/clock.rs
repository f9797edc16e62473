//! Wall-clock readings and conversions of `Duration`, as plain milliseconds.

use std::time::{Duration, Instant, SystemTime};
use vstd::prelude::*;

verus! {

#[verifier::external_type_specification]
#[verifier::external_body]
pub struct ExSystemTime(SystemTime);

/// Relies on `SystemTime`'s `Clone`, which copies the value.
pub assume_specification[ <SystemTime as Clone>::clone ](t: &SystemTime) -> (r: SystemTime)
    ensures
        r == *t,
;

/// Relies on `SystemTime::now`; nothing is promised of its value.
#[verifier::external_body]
pub fn system_now() -> (r: SystemTime) {
    SystemTime::now()
}

/// Relies on `Duration`'s `Clone`, which copies the value.
pub assume_specification[ <Duration as Clone>::clone ](d: &Duration) -> (r: Duration)
    ensures
        r == *d,
;

#[verifier::external_type_specification]
#[verifier::external_body]
pub struct ExInstant(Instant);

/// Relies on `Instant::now`: a reading of the monotonic clock.
#[verifier::external_body]
fn instant_now() -> (r: Instant) {
    Instant::now()
}

/// Relies on `Instant::elapsed`: the time since `start` on the monotonic
/// clock; nothing is promised of its value.
#[verifier::external_body]
fn instant_elapsed(start: &Instant) -> (r: Duration) {
    start.elapsed()
}

/// Milliseconds on a monotonic clock, counted from when it was started.
#[derive(Debug, Clone, Copy)]
pub struct MonotonicClock {
    origin: Instant,
}

impl MonotonicClock {
    pub fn start() -> (r: Self) {
        MonotonicClock { origin: instant_now() }
    }

    /// Whole milliseconds since the clock started (`u64::MAX` beyond what
    /// fits).
    pub fn now_ms(&self) -> (r: u64) {
        let d = instant_elapsed(&self.origin);
        let ms = duration_millis(&d);
        if ms > u64::MAX as u128 {
            u64::MAX
        } else {
            ms as u64
        }
    }
}

/// The whole seconds of a duration, as `Duration::as_secs` gives them.
pub uninterp spec fn secs_of(d: Duration) -> u64;

/// The milliseconds past the whole seconds, as `Duration::subsec_millis`
/// gives them.
pub uninterp spec fn subsec_ms_of(d: Duration) -> u32;

/// The whole milliseconds of a duration, as `Duration::as_millis` gives them.
pub uninterp spec fn millis_of(d: Duration) -> u128;

/// Relies on `Duration::as_millis`: the whole milliseconds of `d`, that is
/// its seconds times a thousand plus the milliseconds past them.
#[verifier::external_body]
pub fn duration_millis(d: &Duration) -> (r: u128)
    ensures
        r == millis_of(*d),
        r == secs_of(*d) as u128 * 1000 + subsec_ms_of(*d) as u128,
{
    d.as_millis()
}

/// Relies on `Duration::from_millis`: `ms` milliseconds, split into whole
/// seconds and the milliseconds past them.
#[verifier::external_body]
pub fn duration_from_millis(ms: u64) -> (r: Duration)
    ensures
        millis_of(r) == ms as u128,
        secs_of(r) == ms / 1000,
        subsec_ms_of(r) == ms % 1000,
{
    Duration::from_millis(ms)
}

/// Relies on `Duration::from_secs`: whole seconds, no fraction.
#[verifier::external_body]
pub fn duration_from_secs(secs: u64) -> (r: Duration)
    ensures
        secs_of(r) == secs,
        subsec_ms_of(r) == 0,
        millis_of(r) == secs as u128 * 1000,
{
    Duration::from_secs(secs)
}

/// Relies on `Duration::as_secs`: the whole seconds of `d`.
#[verifier::external_body]
pub fn duration_secs(d: &Duration) -> (r: u64)
    ensures
        r == secs_of(*d),
{
    d.as_secs()
}

/// Relies on `Duration::subsec_millis`: the milliseconds past the whole
/// seconds, which its documentation bounds below one thousand.
#[verifier::external_body]
pub fn duration_subsec_millis(d: &Duration) -> (r: u32)
    ensures
        r == subsec_ms_of(*d),
        r < 1000,
{
    d.subsec_millis()
}

} // verus!
