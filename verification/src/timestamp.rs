//! Instants in time, as the dump and the command line give them.
use vstd::prelude::*;

verus! {

/// The earliest second that a timestamp can hold.
pub const MIN_SECOND: i64 = -377_705_023_201i64;

/// The latest second that a timestamp can hold.
pub const MAX_SECOND: i64 = 253_402_207_200i64;

/// Whether `second` and `nanosecond` are a timestamp as jiff's
/// `Timestamp::new` accepts one: whole seconds from `MIN_SECOND` to
/// `MAX_SECOND` (`-009999-01-02T01:59:59Z` to `9999-12-30T22:00:00Z`), a
/// fractional part of less than one second either way, and no negative
/// fraction at the earliest second.
pub open spec fn in_range(second: i64, nanosecond: i32) -> bool {
    &&& MIN_SECOND <= second <= MAX_SECOND
    &&& -999_999_999 <= nanosecond <= 999_999_999
    &&& !(second == MIN_SECOND && nanosecond < 0)
}

/// The calendar day, `YYYY-MM-DD`, on which an instant falls in UTC.
pub uninterp spec fn utc_day(second: i64, nanosecond: i32) -> Seq<char>;

/// The calendar day on which the instant falls in UTC, as text.
///
/// Builds a `jiff::Timestamp` with `Timestamp::new`, which accepts exactly
/// the pairs that `in_range` admits (it checks the seconds, then the
/// fraction, then rejects a negative fraction at the earliest second), places
/// it in UTC with `to_zoned(TimeZone::UTC)` and
/// writes the date of the result with its `Display`. The contract names the
/// result.
#[verifier::external_body]
fn utc_day_text(second: i64, nanosecond: i32) -> (day: String)
    requires
        in_range(second, nanosecond),
    ensures
        day@ == utc_day(second, nanosecond),
{
    let timestamp = jiff::Timestamp::new(second, nanosecond).unwrap();
    timestamp.to_zoned(jiff::tz::TimeZone::UTC).date().to_string()
}

/// An instant in time, counted from the Unix epoch in UTC.
///
/// Timestamps are made by the parsers of this crate; they are ordered by the
/// number of nanoseconds since the epoch that they stand for.
#[derive(Debug, Clone, Copy, PartialEq, Eq, Hash)]
pub struct Timestamp {
    second: i64,
    nanosecond: i32,
}

impl View for Timestamp {
    /// The number of nanoseconds since the Unix epoch.
    type V = int;

    closed spec fn view(&self) -> int {
        self.second * 1_000_000_000 + self.nanosecond
    }
}

impl Timestamp {
    /// A timestamp always lies in the supported range.
    #[verifier::type_invariant]
    pub closed spec fn wf(&self) -> bool {
        in_range(self.second, self.nanosecond)
    }

    /// The whole seconds of this timestamp.
    pub closed spec fn seconds(&self) -> i64 {
        self.second
    }

    /// The fractional second of this timestamp, in nanoseconds.
    pub closed spec fn nanoseconds(&self) -> i32 {
        self.nanosecond
    }

    /// The timestamp made of `second` and `nanosecond`, when they are in range.
    pub fn from_parts(second: i64, nanosecond: i32) -> (timestamp: Option<Timestamp>)
        ensures
            timestamp is Some <==> in_range(second, nanosecond),
            timestamp matches Some(t) ==> t.seconds() == second && t.nanoseconds() == nanosecond
                && t@ == second * 1_000_000_000 + nanosecond,
    {
        if MIN_SECOND <= second && second <= MAX_SECOND && -999_999_999 <= nanosecond
            && nanosecond <= 999_999_999 && !(second == MIN_SECOND && nanosecond < 0) {
            return Some(Timestamp { second, nanosecond });
        }
        None
    }

    /// Returns the whole seconds since the Unix epoch.
    pub fn as_second(&self) -> (second: i64)
        ensures
            second == self.seconds(),
    {
        self.second
    }

    /// Returns the fractional second in nanoseconds.
    pub fn subsec_nanosecond(&self) -> (nanosecond: i32)
        ensures
            nanosecond == self.nanoseconds(),
    {
        self.nanosecond
    }

    /// The calendar day on which this instant falls in UTC, as `YYYY-MM-DD`.
    pub fn day(&self) -> (day: String)
        ensures
            day@ == utc_day(self.seconds(), self.nanoseconds()),
    {
        proof {
            use_type_invariant(self);
        }
        utc_day_text(self.second, self.nanosecond)
    }

    /// Whether this instant comes strictly before `other`.
    pub fn is_before(&self, other: &Timestamp) -> (before: bool)
        ensures
            before == (self@ < other@),
    {
        let this = (self.second as i128) * 1_000_000_000i128 + (self.nanosecond as i128);
        let that = (other.second as i128) * 1_000_000_000i128 + (other.nanosecond as i128);
        this < that
    }
}

} // verus!
