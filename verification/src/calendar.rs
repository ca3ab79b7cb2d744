//! Calendar facts: which (year, ordinal day) pairs name a real date.
//!
//! Leap-year determination and date construction are delegated to the
//! `chrono` crate; this module states exactly when that construction
//! succeeds, so that the conversion logic can reason about it.

use vstd::prelude::*;

verus! {

/// Smallest year the calendar collaborator can represent.
pub const MIN_CALENDAR_YEAR: i32 = -262_143;

/// Largest year the calendar collaborator can represent.
pub const MAX_CALENDAR_YEAR: i32 = 262_142;

/// Proleptic Gregorian leap-year rule, with astronomical year numbering
/// (year 0 exists and is a leap year).
pub open spec fn is_leap_year(y: int) -> bool {
    (y % 4 == 0 && y % 100 != 0) || y % 400 == 0
}

/// Number of days in calendar year `y`.
pub open spec fn days_in_year(y: int) -> int {
    if is_leap_year(y) {
        366
    } else {
        365
    }
}

/// Whether `(y, d)` names a real calendar date: `d` is a 1-based ordinal
/// day that exists in year `y`, and `y` lies in the representable range.
pub open spec fn valid_year_ordinal(y: int, d: int) -> bool {
    &&& MIN_CALENDAR_YEAR <= y <= MAX_CALENDAR_YEAR
    &&& 1 <= d <= days_in_year(y)
}

/// Relies on `chrono::NaiveDate::from_yo_opt`: it returns `Some` exactly
/// when `year` lies in chrono's representable range (`MIN_YEAR ..= MAX_YEAR`,
/// that is -262143 ..= 262142) and `ordinal` is in `[1, 366]`, with 366
/// admitted only when the year is a proleptic Gregorian leap year.
#[verifier::external_body]
pub(crate) fn year_ordinal_exists(year: i32, ordinal: u32) -> (r: bool)
    ensures
        r == valid_year_ordinal(year as int, ordinal as int),
{
    chrono::NaiveDate::from_yo_opt(year, ordinal).is_some()
}

} // verus!
