//! Durations and points in time, counted in nanoseconds.

use vstd::prelude::*;

verus! {

/// The largest duration std can hold, in nanoseconds: `u64::MAX` seconds
/// and 999_999_999 nanoseconds.
pub const MAX_NANOS: u128 = 18_446_744_073_709_551_615_999_999_999u128;

/// A span of time.
#[derive(Clone, Copy, Debug, PartialEq, Eq, PartialOrd, Ord, Structural)]
pub struct Duration {
    pub nanos: u128,
}

/// A point in time: nanoseconds since the Unix epoch on the system clock.
#[derive(Clone, Copy, Debug, PartialEq, Eq, PartialOrd, Ord, Structural)]
pub struct Instant {
    pub nanos: u128,
}

/// The system clock's reading: the time since the Unix epoch, in
/// nanoseconds, via `std::time::SystemTime::elapsed` on `UNIX_EPOCH`.
///
/// Trusted: the reading is some duration std can hold (at most
/// `MAX_NANOS`). Which reading comes back depends on the clock, and nothing
/// more is stated of it; a clock set before the epoch reads as zero.
#[verifier::external_body]
fn clock_nanos() -> (n: u128)
    ensures
        n <= MAX_NANOS,
{
    std::time::UNIX_EPOCH.elapsed().unwrap_or_default().as_nanos()
}

impl Duration {
    /// `secs` seconds and `nanos` nanoseconds.
    pub fn new(secs: u64, nanos: u32) -> (d: Duration)
        requires
            secs as int * 1_000_000_000 + nanos <= MAX_NANOS,
        ensures
            d.nanos == secs as int * 1_000_000_000 + nanos,
    {
        Duration { nanos: secs as u128 * 1_000_000_000 + nanos as u128 }
    }

    pub fn from_secs(secs: u64) -> (d: Duration)
        ensures
            d.nanos == secs as int * 1_000_000_000,
            d.nanos <= MAX_NANOS,
    {
        Duration { nanos: secs as u128 * 1_000_000_000 }
    }

    pub fn from_millis(millis: u64) -> (d: Duration)
        ensures
            d.nanos == millis as int * 1_000_000,
            d.nanos <= MAX_NANOS,
    {
        Duration { nanos: millis as u128 * 1_000_000 }
    }

    pub fn from_nanos(nanos: u64) -> (d: Duration)
        ensures
            d.nanos == nanos,
            d.nanos <= MAX_NANOS,
    {
        Duration { nanos: nanos as u128 }
    }

    /// Whole milliseconds, rounded down.
    pub fn as_millis(&self) -> (m: u128)
        ensures
            m == self.nanos / 1_000_000,
    {
        self.nanos / 1_000_000
    }

    pub fn as_nanos(&self) -> (n: u128)
        ensures
            n == self.nanos,
    {
        self.nanos
    }

    /// The difference of two durations; `None` where `other` is longer.
    pub fn checked_sub(&self, other: Duration) -> (d: Option<Duration>)
        ensures
            d matches Some(r) <==> other.nanos <= self.nanos,
            d matches Some(r) ==> r.nanos == self.nanos - other.nanos,
    {
        if other.nanos <= self.nanos {
            Some(Duration { nanos: self.nanos - other.nanos })
        } else {
            None
        }
    }
}

impl Instant {
    /// The current time on the system clock.
    pub fn now() -> (i: Instant)
        ensures
            i.nanos <= MAX_NANOS,
    {
        Instant { nanos: clock_nanos() }
    }

    /// The time `d` after this one; `None` where it cannot be counted.
    pub fn checked_add(&self, d: Duration) -> (r: Option<Instant>)
        ensures
            r matches Some(i) <==> self.nanos + d.nanos <= u128::MAX,
            r matches Some(i) ==> i.nanos == self.nanos + d.nanos,
    {
        if d.nanos <= u128::MAX - self.nanos {
            Some(Instant { nanos: self.nanos + d.nanos })
        } else {
            None
        }
    }

    /// The time from `earlier` to this one; zero where `earlier` is later.
    pub fn duration_since(&self, earlier: Instant) -> (d: Duration)
        ensures
            d.nanos == (if earlier.nanos <= self.nanos { self.nanos - earlier.nanos } else { 0 }),
    {
        if earlier.nanos <= self.nanos {
            Duration { nanos: self.nanos - earlier.nanos }
        } else {
            Duration { nanos: 0 }
        }
    }
}

} // verus!
