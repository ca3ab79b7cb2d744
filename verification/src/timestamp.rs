//! Plain-value calendar timestamps.
//!
//! A timestamp is held as exactly the fields the conversion logic reads:
//! the year, the 1-based ordinal day within the year, whole seconds since
//! midnight, and the sub-second part in nanoseconds. The surrounding
//! application fills these from its clock or calendar library and turns
//! them back into whatever richer type it uses.

use vstd::prelude::*;
use crate::calendar::valid_year_ordinal;

verus! {

/// Number of seconds in one full day.
pub const SECS_PER_DAY: u32 = 86_400;

/// Number of nanoseconds in one second.
pub const NANOS_PER_SEC: u32 = 1_000_000_000;

/// A calendar timestamp with no attached time zone ("local naive" time).
#[derive(Debug, Clone, Copy, PartialEq, Eq, Structural)]
pub struct NaiveTimestamp {
    /// Full calendar year; may be negative for pre-epoch years.
    pub year: i32,
    /// 1-based ordinal day within `year`.
    pub day_of_year: u32,
    /// Whole seconds elapsed since local midnight.
    pub secs_from_midnight: u32,
    /// Sub-second part, in nanoseconds.
    pub nanos: u32,
}

impl NaiveTimestamp {
    /// Field ranges that every real timestamp satisfies.
    pub open spec fn wf(self) -> bool {
        &&& 1 <= self.day_of_year <= 366
        &&& self.secs_from_midnight < SECS_PER_DAY
        &&& self.nanos < NANOS_PER_SEC
    }

    /// The timestamp's (year, day-of-year) pair names a real calendar date.
    pub open spec fn on_calendar(self) -> bool {
        valid_year_ordinal(self.year as int, self.day_of_year as int)
    }

    /// Microseconds elapsed since midnight; sub-microsecond detail is
    /// truncated, never rounded.
    pub open spec fn micros_of_day(self) -> int {
        self.secs_from_midnight * 1_000_000 + self.nanos / 1_000
    }

    /// The timestamp carries microsecond-or-coarser precision.
    pub open spec fn micro_precise(self) -> bool {
        self.nanos % 1_000 == 0
    }

    /// `self` falls strictly earlier in its day than `other`.
    pub open spec fn before_in_day(self, other: Self) -> bool {
        ||| self.secs_from_midnight < other.secs_from_midnight
        ||| (self.secs_from_midnight == other.secs_from_midnight && self.nanos < other.nanos)
    }
}

/// A timestamp anchored to UTC with zero offset. No offset conversion is
/// ever performed: the naive fields are read as UTC wall-clock values.
#[derive(Debug, Clone, Copy, PartialEq, Eq, Structural)]
pub struct UtcTimestamp {
    /// The UTC wall-clock reading.
    pub naive: NaiveTimestamp,
}

impl UtcTimestamp {
    /// Field ranges that every real timestamp satisfies.
    pub open spec fn wf(self) -> bool {
        self.naive.wf()
    }
}

} // verus!
