//! Readings of the system clocks, and a clock that only moves forward.

use vstd::prelude::*;
use std::time::{Duration, Instant, SystemTime};

verus! {

/// `std::time::Instant`, carried as an opaque value.
#[verifier::external_type_specification]
#[verifier::external_body]
pub struct ExInstant(Instant);

/// `std::time::SystemTime`, carried as an opaque value.
#[verifier::external_type_specification]
#[verifier::external_body]
pub struct ExSystemTime(SystemTime);

/// The duration of `ms` milliseconds, as `Duration::from_millis` builds it.
pub uninterp spec fn duration_of_millis(ms: u64) -> Duration;

/// `Duration::from_millis`: the duration of `ms` milliseconds. Its result is
/// named `duration_of_millis(ms)`; nothing more is stated of it here.
#[verifier::external_body]
pub(crate) fn duration_from_millis(ms: u64) -> (d: Duration)
    ensures
        d == duration_of_millis(ms),
{
    Duration::from_millis(ms)
}

/// `Instant::now`: the current reading of the monotonic clock. Nothing is
/// stated of the value; it depends on when the call is made.
#[verifier::external_body]
pub(crate) fn instant_now() -> Instant {
    Instant::now()
}

/// `Instant::elapsed`, in whole milliseconds (truncated to 64 bits). Nothing is
/// stated of the value; it depends on when the call is made.
#[verifier::external_body]
pub(crate) fn instant_elapsed_ms(t: &Instant) -> u64 {
    t.elapsed().as_millis() as u64
}

/// `Instant::elapsed`, in whole microseconds (truncated to 64 bits). Nothing is
/// stated of the value; it depends on when the call is made.
#[verifier::external_body]
pub(crate) fn instant_elapsed_us(t: &Instant) -> u64 {
    t.elapsed().as_micros() as u64
}

/// `SystemTime::now`: the current wall-clock time. Nothing is stated of the value.
#[verifier::external_body]
pub(crate) fn system_now() -> SystemTime {
    SystemTime::now()
}

/// `SystemTime::duration_since(UNIX_EPOCH)` in whole milliseconds (truncated to
/// 64 bits), or `None` when the time lies before the epoch. Nothing is stated of
/// the value; the time is opaque here.
#[verifier::external_body]
pub(crate) fn millis_since_epoch(t: &SystemTime) -> Option<u64> {
    match t.duration_since(SystemTime::UNIX_EPOCH) {
        Ok(d) => Some(d.as_millis() as u64),
        Err(_) => None,
    }
}

/// `SystemTime::duration_since(UNIX_EPOCH)` in whole seconds, or `None` when
/// the time lies before the epoch. Nothing is stated of the value.
#[verifier::external_body]
pub(crate) fn secs_since_epoch(t: &SystemTime) -> Option<u64> {
    match t.duration_since(SystemTime::UNIX_EPOCH) {
        Ok(d) => Some(d.as_secs()),
        Err(_) => None,
    }
}

/// `SystemTime::elapsed` in whole milliseconds, or `None` when the clock went
/// backwards past `t`. Nothing is stated of the value; it depends on when the
/// call is made.
#[verifier::external_body]
pub(crate) fn system_elapsed_ms(t: &SystemTime) -> Option<u128> {
    match t.elapsed() {
        Ok(d) => Some(d.as_millis()),
        Err(_) => None,
    }
}

/// A millisecond clock whose readings strictly increase.
///
/// Each reading is the wall-clock time, or the next value of a fallback
/// counter when the wall clock is unreadable, raised to one more than the
/// previous reading when needed.
#[derive(Debug)]
pub struct MonotonicClock {
    last: u64,
    fallback: u64,
}

/// One more than `x`, staying at `u64::MAX`.
pub open spec fn succ_sat(x: u64) -> u64 {
    if x == u64::MAX { x } else { (x + 1) as u64 }
}

impl MonotonicClock {
    /// The last reading issued (0 before the first).
    pub closed spec fn last_spec(&self) -> u64 {
        self.last
    }

    /// The next value the fallback counter hands out.
    pub closed spec fn fallback_spec(&self) -> u64 {
        self.fallback
    }

    /// A clock that has issued nothing; the fallback counter starts at 1.
    pub fn new() -> (c: Self)
        ensures
            c.last_spec() == 0,
            c.fallback_spec() == 1,
    {
        MonotonicClock { last: 0, fallback: 1 }
    }

    /// The last reading issued.
    pub fn last(&self) -> (r: u64)
        ensures
            r == self.last_spec(),
    {
        self.last
    }

    /// The next value the fallback counter hands out.
    pub fn fallback(&self) -> (r: u64)
        ensures
            r == self.fallback_spec(),
    {
        self.fallback
    }

    /// Hands out the fallback counter's value and increments it (wrapping).
    pub fn next_fallback(&mut self) -> (r: u64)
        ensures
            r == old(self).fallback_spec(),
            final(self).fallback_spec() == if r == u64::MAX { 0 } else { (r + 1) as u64 },
            final(self).last_spec() == old(self).last_spec(),
    {
        let r = self.fallback;
        self.fallback = self.fallback.wrapping_add(1);
        r
    }

    /// The reading for a wall-clock value `system_ms` (`None`: unreadable):
    /// the larger of that value (or the next fallback value) and one more
    /// than the previous reading.
    pub fn advance(&mut self, system_ms: Option<u64>) -> (r: u64)
        ensures
            r == final(self).last_spec(),
            r >= succ_sat(old(self).last_spec()),
            match system_ms {
                Some(t) => {
                    &&& r == if t > succ_sat(old(self).last_spec()) { t } else { succ_sat(old(self).last_spec()) }
                    &&& final(self).fallback_spec() == old(self).fallback_spec()
                },
                None => {
                    let f = old(self).fallback_spec();
                    &&& r == if f > succ_sat(old(self).last_spec()) { f } else { succ_sat(old(self).last_spec()) }
                    &&& final(self).fallback_spec() == if f == u64::MAX { 0 } else { (f + 1) as u64 }
                },
            },
    {
        let base = match system_ms {
            Some(t) => t,
            None => self.next_fallback(),
        };
        let floor = if self.last == u64::MAX { u64::MAX } else { self.last + 1 };
        let r = if base > floor { base } else { floor };
        self.last = r;
        r
    }
}

/// A strictly increasing timestamp in milliseconds: reads the wall clock and
/// advances `clock` with the reading.
pub fn get_monotonic_timestamp(clock: &mut MonotonicClock) -> (r: u64)
    ensures
        r == final(clock).last_spec(),
        r >= succ_sat(old(clock).last_spec()),
{
    let now = system_now();
    let ms = millis_since_epoch(&now);
    clock.advance(ms)
}

} // verus!
