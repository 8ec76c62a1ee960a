//! Points in time, and the clock.

use vstd::prelude::*;

verus! {

/// A point in time: whole seconds since the Unix epoch and the nanoseconds
/// into that second.
#[derive(Debug, Clone, Copy, PartialEq, Eq, Structural)]
pub struct Timestamp {
    pub secs: i64,
    pub nanos: u32,
}

/// A bound on the seconds that the clock can report, before or after the
/// epoch.
pub const CLOCK_SECS_LIMIT: i64 = 281_474_976_710_656;

/// The longest session duration, in seconds, that is supported, and the
/// longest negative one.
pub const MAX_DURATION_SECS: i64 = 9_223_372_036_854_775;

/// Whether `secs` is a supported duration.
pub open spec fn duration_in_range(secs: i64) -> bool {
    -MAX_DURATION_SECS <= secs <= MAX_DURATION_SECS
}

/// Whether `secs` is a supported duration.
pub fn supports_duration(secs: i64) -> (r: bool)
    ensures
        r == duration_in_range(secs),
{
    -MAX_DURATION_SECS <= secs && secs <= MAX_DURATION_SECS
}

impl Timestamp {
    /// Whether `self` is strictly later than `other`.
    pub open spec fn is_after(self, other: Timestamp) -> bool {
        self.secs > other.secs || (self.secs == other.secs && self.nanos > other.nanos)
    }

    /// Whether the clock can have reported `self`.
    pub open spec fn in_clock_range(self) -> bool {
        -CLOCK_SECS_LIMIT < self.secs < CLOCK_SECS_LIMIT
    }

    /// Whether `self` moved by `secs` seconds is still a timestamp.
    pub open spec fn can_shift(self, secs: i64) -> bool {
        i64::MIN <= self.secs + secs <= i64::MAX
    }

    /// `self` moved by `secs` seconds.
    pub open spec fn shifted(self, secs: i64) -> Timestamp
        recommends
            self.can_shift(secs),
    {
        Timestamp { secs: (self.secs + secs) as i64, nanos: self.nanos }
    }

    /// Whether `self` is strictly later than `other`.
    pub fn later_than(&self, other: &Timestamp) -> (r: bool)
        ensures
            r == self.is_after(*other),
    {
        self.secs > other.secs || (self.secs == other.secs && self.nanos > other.nanos)
    }

    /// `self` moved by `secs` seconds.
    pub fn plus_seconds(&self, secs: i64) -> (r: Timestamp)
        requires
            self.can_shift(secs),
        ensures
            r == self.shifted(secs),
    {
        Timestamp { secs: self.secs + secs, nanos: self.nanos }
    }
}

/// The current time from `chrono::Utc::now`, as the seconds and nanoseconds
/// that `DateTime::timestamp` and `DateTime::timestamp_subsec_nanos` give.
///
/// Taken on trust. The call reads the system clock, so only a range is
/// claimed: `chrono` counts days in an `i32` and computes the seconds as
/// days times 86400 plus the second of the day, which stays below 2^48
/// either way.
#[verifier::external_body]
pub(crate) fn now() -> (t: Timestamp)
    ensures
        t.in_clock_range(),
{
    let t = chrono::Utc::now();
    Timestamp { secs: t.timestamp(), nanos: t.timestamp_subsec_nanos() }
}

/// A clock reading moved by a supported duration is still a timestamp.
pub proof fn lemma_clock_shift(t: Timestamp, secs: i64)
    requires
        t.in_clock_range(),
        duration_in_range(secs),
    ensures
        t.can_shift(secs),
{
}

} // verus!
