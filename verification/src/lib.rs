//! Decimal time: a date/time representation that keeps a conventional year
//! and ordinal day-of-year but expresses the time of day as a fraction of a
//! full day instead of hours, minutes and seconds.
//!
//! The fraction is held exactly, as a count of microseconds since midnight,
//! so conversions to and from ordinary timestamps are lossless at
//! microsecond precision. Calendar realizability (leap years, the year
//! range) is delegated to the `chrono` crate and checked only when a value
//! is turned back into a timestamp.

mod calendar;
mod decimal;
mod render;
mod timestamp;

pub use calendar::{
    days_in_year, is_leap_year, valid_year_ordinal, MAX_CALENDAR_YEAR, MIN_CALENDAR_YEAR,
};
pub use decimal::{
    lemma_last_microsecond, lemma_midnight_is_zero, lemma_round_trip, lemma_same_day_monotonic,
    spec_from_naive, spec_to_naive, DecimalTime, DecimalTimeError, MICROS_PER_DAY, MICROS_PER_SEC,
};
pub use render::{
    spec_digit_char, spec_format, spec_fraction_chars, spec_frac_digits, spec_int_chars,
    spec_nat_chars, spec_substitute, spec_trim_zeros, FRAC_DIGIT_CAP,
};
pub use timestamp::{NaiveTimestamp, UtcTimestamp, NANOS_PER_SEC, SECS_PER_DAY};
