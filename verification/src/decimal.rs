//! The decimal-time value and its conversions.
//!
//! A `DecimalTime` keeps a conventional year and ordinal day-of-year and
//! expresses the time of day as a fraction of the full day. The fraction
//! is stored exactly, as a count of elapsed microseconds (`day_micros`)
//! out of `MICROS_PER_DAY`, so conversions to and from timestamps are
//! lossless at microsecond precision.

use vstd::prelude::*;
use vstd::arithmetic::div_mod::{
    lemma_fundamental_div_mod,
    lemma_fundamental_div_mod_converse,
    lemma_div_is_ordered,
};
use crate::calendar::{valid_year_ordinal, year_ordinal_exists};
use crate::timestamp::{NaiveTimestamp, UtcTimestamp};

verus! {

/// Number of microseconds in one full day.
pub const MICROS_PER_DAY: u64 = 86_400_000_000;

/// Number of microseconds in one second.
pub const MICROS_PER_SEC: u64 = 1_000_000;

/// Everything that can go wrong when building a `DecimalTime` or turning
/// one back into a calendar timestamp.
#[derive(Debug, Clone, Copy, PartialEq, Eq, Structural)]
pub enum DecimalTimeError {
    /// Construction: `day_of_year` lies outside `[1, 366]`.
    InvalidDayOfYear,
    /// Construction: the day fraction does not lie in `[0, 1)`, that is,
    /// `day_micros` is not below `MICROS_PER_DAY`.
    InvalidDecimalFraction,
    /// Reverse conversion: the (year, day-of-year) pair names no real
    /// calendar date, e.g. day 366 of a common year.
    InvalidCalendarDate,
    /// Reverse conversion: adding the time of day to midnight would leave
    /// the representable timestamp range. The verified conversion proves
    /// this cannot arise; the variant is kept for callers that perform
    /// their own calendar additions on the result.
    TimestampOverflow,
}

/// A moment in "decimal time": a calendar day plus the fraction of that
/// day already elapsed. Values are immutable and compare structurally.
#[derive(Debug, Clone, Copy, PartialEq, Eq, Structural)]
pub struct DecimalTime {
    /// Full calendar year; may be negative for pre-epoch years.
    pub year: i32,
    /// 1-based ordinal day within `year`, in `[1, 366]`. Whether the day
    /// really exists in `year` (leap years) is checked only when the value
    /// is turned back into a calendar timestamp.
    pub day_of_year: u32,
    /// Numerator of the elapsed-day fraction, in microseconds: the value
    /// denotes the fraction `day_micros / MICROS_PER_DAY`, so midnight is
    /// 0 and noon is `MICROS_PER_DAY / 2`.
    pub day_micros: u64,
}

/// The decimal-time value a timestamp converts to: same year and day,
/// with the time of day reduced to microseconds since midnight.
pub open spec fn spec_from_naive(ts: NaiveTimestamp) -> DecimalTime {
    DecimalTime {
        year: ts.year,
        day_of_year: ts.day_of_year,
        day_micros: ts.micros_of_day() as u64,
    }
}

/// The timestamp a decimal-time value converts back to: defined exactly
/// when its date really exists on the calendar; the elapsed microseconds
/// split into whole seconds and a sub-second remainder.
pub open spec fn spec_to_naive(dt: DecimalTime) -> Result<NaiveTimestamp, DecimalTimeError> {
    if valid_year_ordinal(dt.year as int, dt.day_of_year as int) {
        Ok(
            NaiveTimestamp {
                year: dt.year,
                day_of_year: dt.day_of_year,
                secs_from_midnight: (dt.day_micros / MICROS_PER_SEC) as u32,
                nanos: ((dt.day_micros % MICROS_PER_SEC) * 1_000) as u32,
            },
        )
    } else {
        Err(DecimalTimeError::InvalidCalendarDate)
    }
}

impl DecimalTime {
    /// Range invariant established at construction: the day ordinal is in
    /// `[1, 366]` and the fraction numerator is below one full day.
    pub open spec fn wf(self) -> bool {
        &&& 1 <= self.day_of_year <= 366
        &&& self.day_micros < MICROS_PER_DAY
    }

    /// Builds a `DecimalTime` from raw parts, validating ranges only.
    ///
    /// The fraction is rejected first, then the day ordinal; whether the
    /// day exists in the given year is deliberately not checked here.
    pub fn new(year: i32, day_of_year: u32, day_micros: u64) -> (r: Result<
        DecimalTime,
        DecimalTimeError,
    >)
        ensures
            day_micros >= MICROS_PER_DAY ==> r == Err::<DecimalTime, _>(
                DecimalTimeError::InvalidDecimalFraction,
            ),
            day_micros < MICROS_PER_DAY && !(1 <= day_of_year <= 366) ==> r == Err::<
                DecimalTime,
                _,
            >(DecimalTimeError::InvalidDayOfYear),
            day_micros < MICROS_PER_DAY && 1 <= day_of_year <= 366 ==> r == Ok::<
                _,
                DecimalTimeError,
            >(DecimalTime { year, day_of_year, day_micros }),
            r is Ok <==> (day_micros < MICROS_PER_DAY && 1 <= day_of_year <= 366),
            r is Ok ==> r->Ok_0.wf(),
    {
        if day_micros >= MICROS_PER_DAY {
            Err(DecimalTimeError::InvalidDecimalFraction)
        } else if day_of_year < 1 || day_of_year > 366 {
            Err(DecimalTimeError::InvalidDayOfYear)
        } else {
            Ok(DecimalTime { year, day_of_year, day_micros })
        }
    }

    /// Converts a local naive timestamp to decimal time: same year and
    /// day, the time of day reduced to microseconds since midnight
    /// (sub-microsecond detail truncated). Construction cannot fail on
    /// this path, because the computed parts are always in range.
    pub fn from_naive_datetime(ts: NaiveTimestamp) -> (r: DecimalTime)
        requires
            ts.wf(),
        ensures
            r == spec_from_naive(ts),
            r.wf(),
    {
        proof {
            lemma_fundamental_div_mod(ts.nanos as int, 1_000);
        }
        let micros: u64 = (ts.secs_from_midnight as u64) * 1_000_000 + (ts.nanos / 1_000) as u64;
        DecimalTime::new(ts.year, ts.day_of_year, micros).unwrap()
    }

    /// Converts a UTC timestamp to decimal time by reading its wall-clock
    /// fields; no offset conversion is involved.
    pub fn from_datetime_utc(ts: UtcTimestamp) -> (r: DecimalTime)
        requires
            ts.wf(),
        ensures
            r == spec_from_naive(ts.naive),
            r.wf(),
    {
        DecimalTime::from_naive_datetime(ts.naive)
    }

    /// Converts back to a local naive timestamp.
    ///
    /// This is where calendar realizability is checked: the date is
    /// rebuilt from (year, day-of-year) by the calendar collaborator, and
    /// a pair it cannot realize — day 366 of a common year, or a year out
    /// of range — is rejected as `InvalidCalendarDate`. The elapsed
    /// microseconds split into whole seconds and a remainder, both proved
    /// in range, so `TimestampOverflow` can never be returned.
    pub fn to_naive_datetime(&self) -> (r: Result<NaiveTimestamp, DecimalTimeError>)
        requires
            self.wf(),
        ensures
            r == spec_to_naive(*self),
            r is Ok <==> valid_year_ordinal(self.year as int, self.day_of_year as int),
            r is Ok ==> r->Ok_0.wf() && r->Ok_0.on_calendar() && r->Ok_0.micro_precise(),
    {
        if !year_ordinal_exists(self.year, self.day_of_year) {
            return Err(DecimalTimeError::InvalidCalendarDate);
        }
        let secs: u64 = self.day_micros / MICROS_PER_SEC;
        let micros_rem: u64 = self.day_micros % MICROS_PER_SEC;
        proof {
            lemma_div_is_ordered(self.day_micros as int, MICROS_PER_DAY as int - 1, MICROS_PER_SEC as int);
        }
        Ok(
            NaiveTimestamp {
                year: self.year,
                day_of_year: self.day_of_year,
                secs_from_midnight: secs as u32,
                nanos: (micros_rem as u32) * 1_000,
            },
        )
    }

    /// Converts back to a UTC timestamp: the naive result with a UTC
    /// marker attached, zero offset.
    pub fn to_datetime_utc(&self) -> (r: Result<UtcTimestamp, DecimalTimeError>)
        requires
            self.wf(),
        ensures
            r is Ok <==> spec_to_naive(*self) is Ok,
            r is Ok ==> r->Ok_0 == (UtcTimestamp { naive: spec_to_naive(*self)->Ok_0 }),
            r is Err ==> r->Err_0 == spec_to_naive(*self)->Err_0,
    {
        match self.to_naive_datetime() {
            Ok(ts) => Ok(UtcTimestamp { naive: ts }),
            Err(e) => Err(e),
        }
    }
}

/// Round-trip law: a timestamp of microsecond-or-coarser precision whose
/// date really exists converts to decimal time and back to exactly itself.
pub proof fn lemma_round_trip(ts: NaiveTimestamp)
    requires
        ts.wf(),
        ts.on_calendar(),
        ts.micro_precise(),
    ensures
        spec_to_naive(spec_from_naive(ts)) == Ok::<NaiveTimestamp, DecimalTimeError>(ts),
{
    let q = ts.nanos as int / 1_000;
    lemma_fundamental_div_mod(ts.nanos as int, 1_000);
    let m = ts.secs_from_midnight * 1_000_000 + q;
    lemma_fundamental_div_mod_converse(m, 1_000_000, ts.secs_from_midnight as int, q);
    assert(spec_to_naive(spec_from_naive(ts))->Ok_0 == ts);
}

/// Monotonicity law: of two timestamps on the same calendar day, both at
/// microsecond-or-coarser precision, the earlier one converts to the
/// strictly smaller day fraction.
pub proof fn lemma_same_day_monotonic(t1: NaiveTimestamp, t2: NaiveTimestamp)
    requires
        t1.wf(),
        t2.wf(),
        t1.year == t2.year,
        t1.day_of_year == t2.day_of_year,
        t1.micro_precise(),
        t2.micro_precise(),
        t1.before_in_day(t2),
    ensures
        spec_from_naive(t1).day_micros < spec_from_naive(t2).day_micros,
{
    lemma_fundamental_div_mod(t1.nanos as int, 1_000);
    lemma_fundamental_div_mod(t2.nanos as int, 1_000);
}

/// Boundary law, lower end: midnight converts to fraction zero exactly.
pub proof fn lemma_midnight_is_zero(ts: NaiveTimestamp)
    requires
        ts.wf(),
        ts.secs_from_midnight == 0,
        ts.nanos == 0,
    ensures
        spec_from_naive(ts).day_micros == 0,
{
}

/// Boundary law, upper end: the last representable microsecond of a day
/// converts to `MICROS_PER_DAY - 1`, one microsecond-fraction short of a
/// full day and strictly below it.
pub proof fn lemma_last_microsecond(ts: NaiveTimestamp)
    requires
        ts.wf(),
        ts.secs_from_midnight == 86_399,
        ts.nanos >= 999_999_000,
    ensures
        spec_from_naive(ts).day_micros == MICROS_PER_DAY - 1,
        spec_from_naive(ts).day_micros < MICROS_PER_DAY,
{
    lemma_div_is_ordered(999_999_000, ts.nanos as int, 1_000);
    lemma_fundamental_div_mod(ts.nanos as int, 1_000);
}

} // verus!
