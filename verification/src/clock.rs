//! A monotonic clock whose readings are plain numbers of nanoseconds.

use std::time::Instant;
use vstd::prelude::*;

verus! {

/// Nanoseconds in one second.
pub const NANOS_PER_SEC: u128 = 1_000_000_000;

/// The longest span that the standard library can measure, in nanoseconds:
/// `u64::MAX` seconds and 999 999 999 nanoseconds.
pub const MAX_NANOS: u128 = 18_446_744_073_709_551_615_999_999_999;

/// Calls `Instant::now`. Nothing is claimed of the instant.
#[verifier::external_body]
fn instant_now() -> Instant {
    Instant::now()
}

/// A monotonic clock. A reading is the number of nanoseconds since the clock
/// was started.
#[derive(Debug, Clone, Copy)]
pub struct Clock {
    origin: Instant,
}

/// The nanoseconds from the start of one clock to the start of another, none if
/// the other was not started later.
pub uninterp spec fn nanos_between(clock: Clock, other: Clock) -> u128;

/// Calls `Instant::saturating_duration_since` on the instants at which two
/// clocks were started, and takes the span's nanoseconds: the span depends on
/// the two instants alone, and holds whole seconds in a `u64` and less than one
/// second of nanoseconds.
#[verifier::external_body]
fn span_nanos(clock: &Clock, other: &Clock) -> (nanos: u128)
    ensures
        nanos == nanos_between(*clock, *other),
        nanos <= MAX_NANOS,
{
    other.origin.saturating_duration_since(clock.origin).as_nanos()
}

impl Clock {
    /// Whether the clock may show a reading: at some moment, at which another
    /// clock could be started, that many nanoseconds have passed since this one
    /// was.
    pub open spec fn reads(self, nanos: u128) -> bool {
        &&& nanos <= MAX_NANOS
        &&& exists|moment: Clock| nanos == #[trigger] nanos_between(self, moment)
    }

    /// Starts a clock. When that is, is up to the machine.
    pub fn start() -> Clock {
        Clock { origin: instant_now() }
    }

    /// What the clock read when another was started.
    pub fn reading_at(&self, moment: &Clock) -> (nanos: u128)
        ensures
            nanos == nanos_between(*self, *moment),
            self.reads(nanos),
    {
        span_nanos(self, moment)
    }

    /// Reads the clock: the nanoseconds from its start to the moment of the
    /// call.
    pub fn now(&self) -> (nanos: u128)
        ensures
            self.reads(nanos),
    {
        self.reading_at(&Clock::start())
    }
}

/// Nanoseconds from `then` to `now`, none if `then` lies ahead.
pub open spec fn nanos_since(then: u128, now: u128) -> int {
    if then <= now {
        now - then
    } else {
        0
    }
}

/// Nanoseconds from `then` to `now`, none if `then` lies ahead.
pub fn since(then: u128, now: u128) -> (nanos: u128)
    ensures
        nanos == nanos_since(then, now),
{
    if then <= now {
        now - then
    } else {
        0
    }
}

/// The whole seconds in a number of nanoseconds.
pub fn whole_secs(nanos: u128) -> (secs: u64)
    requires
        nanos <= MAX_NANOS,
    ensures
        secs == nanos / NANOS_PER_SEC,
        secs * 1_000_000_000 <= nanos < (secs + 1) * 1_000_000_000,
{
    (nanos / NANOS_PER_SEC) as u64
}

/// A second is a billion nanoseconds, and the longest span falls one nanosecond
/// short of `u64::MAX` and one seconds.
pub proof fn law_units_of_time()
    ensures
        NANOS_PER_SEC == 1_000_000_000,
        MAX_NANOS + 1 == (u64::MAX + 1) * 1_000_000_000,
{
}

/// The time since a reading leads from that reading to the present one, and
/// never back.
pub proof fn law_time_since_leads_to_now(then: u128, now: u128)
    ensures
        then <= now ==> then + nanos_since(then, now) == now,
        now <= then ==> nanos_since(then, now) == 0,
{
}

/// A reading is the time from the start of the clock to some moment, and fits
/// the longest span.
pub proof fn law_what_a_reading_is(clock: Clock, nanos: u128)
    ensures
        clock.reads(nanos) <==> nanos <= MAX_NANOS && exists|moment: Clock|
            nanos == #[trigger] nanos_between(clock, moment),
{
}

} // verus!
