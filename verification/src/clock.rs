//! Instants on the UTC time line, as seconds and nanoseconds since the Unix
//! epoch, and the few calendar facts the session history needs: which
//! instant is earlier, how many days back one lies, and on which civil day
//! one falls for a clock that runs ahead of or behind UTC.

use vstd::prelude::*;

verus! {

/// Seconds in one civil day.
pub const SECONDS_PER_DAY: i64 = 86_400;

/// Whether `offset`, in seconds east of UTC, is one a zone can have: less
/// than a day either way.
pub open spec fn valid_offset(offset: i32) -> bool {
    -SECONDS_PER_DAY < offset < SECONDS_PER_DAY
}

/// An instant: whole non-leap seconds since 1970-01-01T00:00:00Z and the
/// nanoseconds into that second. Instants are ordered by seconds, then by
/// nanoseconds.
#[derive(Clone, Copy, Debug, PartialEq, Eq, Structural)]
pub struct Timestamp {
    pub secs: i64,
    pub nanos: u32,
}

impl Timestamp {
    /// `self` lies strictly earlier than `other`.
    pub open spec fn before(self, other: Timestamp) -> bool {
        self.secs < other.secs || (self.secs == other.secs && self.nanos < other.nanos)
    }

    /// The civil day that holds this instant on a clock `offset` seconds
    /// ahead of UTC, counted from 1970-01-01 (day 0); days before it are
    /// negative.
    pub open spec fn day(self, offset: i32) -> int {
        (self.secs + offset) / SECONDS_PER_DAY as int
    }

    /// `self` is not older than `days` days before `now`.
    pub open spec fn within_days_of(self, now: Timestamp, days: u32) -> bool {
        let shifted = self.secs + days * SECONDS_PER_DAY;
        shifted > now.secs || (shifted == now.secs && self.nanos >= now.nanos)
    }

    /// Whether this instant lies strictly earlier than `other`.
    pub fn is_before(&self, other: &Timestamp) -> (b: bool)
        ensures
            b == self.before(*other),
    {
        self.secs < other.secs || (self.secs == other.secs && self.nanos < other.nanos)
    }

    /// The civil day that holds this instant on a clock `offset` seconds
    /// ahead of UTC.
    pub fn day_number(&self, offset: i32) -> (d: i64)
        ensures
            d == self.day(offset),
    {
        let local: i128 = self.secs as i128 + offset as i128;
        let day: i128 = if local >= 0 {
            local / 86_400
        } else {
            let back: i128 = -(local + 1);
            -(back / 86_400) - 1
        };
        day as i64
    }

    /// Whether this instant is not older than `days` days before `now`.
    pub fn is_within_days_of(&self, now: &Timestamp, days: u32) -> (b: bool)
        ensures
            b == self.within_days_of(*now, days),
    {
        let span: i128 = (days as i128) * 86_400;
        let shifted: i128 = self.secs as i128 + span;
        let limit: i128 = now.secs as i128;
        shifted > limit || (shifted == limit && self.nanos >= now.nanos)
    }
}

/// The present instant, read from the system clock by `chrono::Utc::now`
/// and taken apart by `DateTime::timestamp` and
/// `DateTime::timestamp_subsec_nanos`. `Utc::now` measures the time since
/// the Unix epoch, so the reading is not before it and its nanoseconds fill
/// less than a second. Nothing else is claimed: two calls may return
/// readings in any order.
#[verifier::external_body]
pub(crate) fn utc_now() -> (now: Timestamp)
    ensures
        now.secs >= 0,
        now.nanos < 1_000_000_000,
{
    let now = chrono::Utc::now();
    Timestamp { secs: now.timestamp(), nanos: now.timestamp_subsec_nanos() }
}

/// The present instant and the offset of local time from UTC at it, in
/// seconds east, read by `chrono::Local::now` and taken apart by
/// `DateTime::timestamp`, `DateTime::timestamp_subsec_nanos`,
/// `DateTime::offset` and `FixedOffset::local_minus_utc`. A `FixedOffset`
/// holds less than a day either way; that is all that is claimed. The
/// offset is the machine's: it depends on its time zone and on the instant.
#[verifier::external_body]
pub(crate) fn local_now() -> (reading: (Timestamp, i32))
    ensures
        valid_offset(reading.1),
{
    let now = chrono::Local::now();
    (
        Timestamp { secs: now.timestamp(), nanos: now.timestamp_subsec_nanos() },
        now.offset().local_minus_utc(),
    )
}

} // verus!
