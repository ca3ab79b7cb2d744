use chrono::{DateTime, Datelike, NaiveDate, NaiveDateTime, TimeZone, Timelike, Utc};
use decimal_time::{
    DecimalTime, DecimalTimeError, NaiveTimestamp, UtcTimestamp, MICROS_PER_DAY,
};

/// Reads the fields the library works on out of a chrono naive datetime.
fn stamp_of_naive(dt: NaiveDateTime) -> NaiveTimestamp {
    NaiveTimestamp {
        year: dt.year(),
        day_of_year: dt.ordinal(),
        secs_from_midnight: dt.num_seconds_from_midnight(),
        nanos: dt.nanosecond(),
    }
}

/// Rebuilds the chrono naive datetime a timestamp stands for.
fn naive_of_stamp(ts: NaiveTimestamp) -> NaiveDateTime {
    NaiveDate::from_yo_opt(ts.year, ts.day_of_year)
        .unwrap()
        .and_hms_opt(0, 0, 0)
        .unwrap()
        .checked_add_signed(chrono::Duration::seconds(ts.secs_from_midnight as i64))
        .unwrap()
        .checked_add_signed(chrono::Duration::nanoseconds(ts.nanos as i64))
        .unwrap()
}

/// The day fraction as a floating-point value in [0, 1).
fn fraction(dt: &DecimalTime) -> f64 {
    dt.day_micros as f64 / MICROS_PER_DAY as f64
}

/// Microsecond count for a fractional day given as a float.
fn micros_of_fraction(f: f64) -> u64 {
    (f * MICROS_PER_DAY as f64).round() as u64
}

#[test]
fn lib_test_new_valid() {
    let dec = DecimalTime::new(2025, 100, micros_of_fraction(0.25)).unwrap();
    assert_eq!(dec.year, 2025);
    assert_eq!(dec.day_of_year, 100);
    assert!((fraction(&dec) - 0.25).abs() < f64::EPSILON);
}

#[test]
#[should_panic]
fn test_new_day_of_year_0() {
    // day_of_year = 0 is rejected
    let _ = DecimalTime::new(2025, 0, micros_of_fraction(0.2)).unwrap();
}

#[test]
#[should_panic]
fn test_new_decimal_day_out_of_range() {
    // a fraction of 1.0 is invalid
    let _ = DecimalTime::new(2025, 10, MICROS_PER_DAY).unwrap();
}

#[test]
fn test_from_to_naive_datetime() {
    let dt = NaiveDate::from_ymd_opt(2025, 3, 14)
        .unwrap()
        .and_hms_micro_opt(15, 9, 26, 535_897)
        .unwrap();

    let dec = DecimalTime::from_naive_datetime(stamp_of_naive(dt));
    let back = dec.to_naive_datetime().unwrap();
    assert_eq!(dt, naive_of_stamp(back));
}

#[test]
fn test_from_to_utc() {
    let utc_dt = Utc
        .with_ymd_and_hms(2025, 3, 14, 15, 9, 26)
        .unwrap()
        .with_nanosecond(535_897_000)
        .unwrap();
    let dec = DecimalTime::from_datetime_utc(UtcTimestamp {
        naive: stamp_of_naive(utc_dt.naive_utc()),
    });
    let back = dec.to_datetime_utc().unwrap();
    let back_utc: DateTime<Utc> =
        DateTime::<Utc>::from_naive_utc_and_offset(naive_of_stamp(back.naive), Utc);
    assert_eq!(utc_dt, back_utc);
}

#[test]
fn lib_test_format() {
    let dec = DecimalTime::new(2025, 5, micros_of_fraction(0.5)).unwrap();
    let formatted = dec.format("Date => %Y-%d frac:%f");
    assert_eq!("Date => 2025-5 frac:.5", formatted);
}

#[test]
fn decimaltime_tests_test_new_valid() {
    let dec = DecimalTime::new(2025, 100, micros_of_fraction(0.25)).unwrap();
    assert_eq!(dec.year, 2025);
    assert_eq!(dec.day_of_year, 100);
    assert!((fraction(&dec) - 0.25).abs() < f64::EPSILON);
}

#[test]
#[should_panic]
fn test_invalid_decimal_day_too_high() {
    let _ = DecimalTime::new(2025, 50, MICROS_PER_DAY).unwrap();
}

#[test]
#[should_panic]
fn test_invalid_day_zero() {
    let _ = DecimalTime::new(2025, 0, micros_of_fraction(0.5)).unwrap();
}

#[test]
#[should_panic]
fn test_invalid_day_too_high() {
    let _ = DecimalTime::new(2025, 367, micros_of_fraction(0.5)).unwrap();
}

#[test]
fn test_leap_year_valid_366() {
    // 2024 is a leap year, so day 366 is accepted and realizable
    let _ = DecimalTime::new(2024, 366, micros_of_fraction(0.5)).unwrap();
}

#[test]
fn test_from_naive_datetime() {
    let dt = NaiveDate::from_ymd_opt(2025, 3, 14)
        .unwrap()
        .and_hms_micro_opt(12, 0, 0, 0)
        .unwrap();

    let dec = DecimalTime::from_naive_datetime(stamp_of_naive(dt));

    assert_eq!(dec.year, 2025);
    assert_eq!(dec.day_of_year, 73); // March 14 is day 73
    assert!((fraction(&dec) - 0.5).abs() < f64::EPSILON); // 12:00:00 is halfway
}

#[test]
fn test_from_datetime_utc() {
    let dt = Utc.with_ymd_and_hms(2025, 3, 14, 6, 0, 0).unwrap();
    let dec = DecimalTime::from_datetime_utc(UtcTimestamp {
        naive: stamp_of_naive(dt.naive_utc()),
    });

    assert_eq!(dec.year, 2025);
    assert_eq!(dec.day_of_year, 73);
    assert!((fraction(&dec) - 0.25).abs() < f64::EPSILON); // 06:00 is 0.25 of the day
}

#[test]
fn test_to_naive_datetime() {
    let dec = DecimalTime::new(2025, 73, micros_of_fraction(0.5)).unwrap();
    let dt = naive_of_stamp(dec.to_naive_datetime().unwrap());

    assert_eq!(dt.date(), NaiveDate::from_ymd_opt(2025, 3, 14).unwrap());
    assert_eq!(dt.hour(), 12);
    assert_eq!(dt.minute(), 0);
    assert_eq!(dt.second(), 0);
}

#[test]
fn test_to_datetime_utc() {
    let dec = DecimalTime::new(2025, 73, micros_of_fraction(0.75)).unwrap();
    let ts = dec.to_datetime_utc().unwrap();
    let dt: DateTime<Utc> =
        DateTime::<Utc>::from_naive_utc_and_offset(naive_of_stamp(ts.naive), Utc);

    assert_eq!(dt.year(), 2025);
    assert_eq!(dt.ordinal(), 73);
    assert_eq!(dt.hour(), 18);
    assert_eq!(dt.minute(), 0);
    assert_eq!(dt.second(), 0);
}

#[test]
fn decimaltime_tests_test_format() {
    let dec = DecimalTime::new(2025, 100, micros_of_fraction(0.123456)).unwrap();
    let formatted = dec.format("Year=%Y Day=%d Fraction=%f");

    assert_eq!(formatted, "Year=2025 Day=100 Fraction=.123456");
}

#[test]
fn test_round_trip_consistency() {
    let dt = Utc.with_ymd_and_hms(2025, 12, 31, 23, 59, 59).unwrap();
    let stamp = UtcTimestamp {
        naive: stamp_of_naive(dt.naive_utc()),
    };
    let dec = DecimalTime::from_datetime_utc(stamp);
    let back = dec.to_datetime_utc().unwrap();

    assert_eq!(stamp, back, "Round-trip conversion failed");
}

#[test]
fn test_midnight() {
    let dt = Utc.with_ymd_and_hms(2025, 1, 1, 0, 0, 0).unwrap();
    let dec = DecimalTime::from_datetime_utc(UtcTimestamp {
        naive: stamp_of_naive(dt.naive_utc()),
    });

    assert_eq!(fraction(&dec), 0.0);
}

#[test]
fn test_end_of_day() {
    let dt = Utc.with_ymd_and_hms(2025, 1, 1, 23, 59, 59).unwrap();
    let dec = DecimalTime::from_datetime_utc(UtcTimestamp {
        naive: stamp_of_naive(dt.naive_utc()),
    });

    assert!(fraction(&dec) < 1.0, "decimal_day should always be < 1.0");
    assert!((fraction(&dec) - 0.99999).abs() < 0.0001);
}

#[test]
fn test_time_fraction_consistency() {
    let dt1 = Utc.with_ymd_and_hms(2025, 1, 1, 0, 0, 0).unwrap();
    let dt2 = Utc.with_ymd_and_hms(2025, 1, 1, 12, 0, 0).unwrap();

    let dec1 = DecimalTime::from_datetime_utc(UtcTimestamp {
        naive: stamp_of_naive(dt1.naive_utc()),
    });
    let dec2 = DecimalTime::from_datetime_utc(UtcTimestamp {
        naive: stamp_of_naive(dt2.naive_utc()),
    });

    assert!((fraction(&dec2) - fraction(&dec1) - 0.5).abs() < f64::EPSILON);
}

#[test]
fn test_seconds_accuracy() {
    let dt1 = Utc.with_ymd_and_hms(2025, 1, 1, 12, 0, 0).unwrap();
    let dt2 = Utc.with_ymd_and_hms(2025, 1, 1, 12, 0, 1).unwrap(); // One second later

    let dec1 = DecimalTime::from_datetime_utc(UtcTimestamp {
        naive: stamp_of_naive(dt1.naive_utc()),
    });
    let dec2 = DecimalTime::from_datetime_utc(UtcTimestamp {
        naive: stamp_of_naive(dt2.naive_utc()),
    });

    let diff = fraction(&dec2) - fraction(&dec1);
    let expected_diff = 1.0 / 86_400.0; // One second in decimal day

    assert!((diff - expected_diff).abs() < f64::EPSILON, "1 second shift failed");
}

#[test]
fn test_construction_error_kinds() {
    // fraction out of range
    assert_eq!(
        DecimalTime::new(2025, 100, MICROS_PER_DAY),
        Err(DecimalTimeError::InvalidDecimalFraction)
    );
    assert_eq!(
        DecimalTime::new(2025, 100, u64::MAX),
        Err(DecimalTimeError::InvalidDecimalFraction)
    );
    // day out of range
    assert_eq!(
        DecimalTime::new(2025, 0, 0),
        Err(DecimalTimeError::InvalidDayOfYear)
    );
    assert_eq!(
        DecimalTime::new(2025, 367, 0),
        Err(DecimalTimeError::InvalidDayOfYear)
    );
    // when both are out of range, the fraction is reported first
    assert_eq!(
        DecimalTime::new(2025, 0, MICROS_PER_DAY),
        Err(DecimalTimeError::InvalidDecimalFraction)
    );
    // boundary successes
    assert!(DecimalTime::new(2025, 1, 0).is_ok());
    assert!(DecimalTime::new(2025, 366, MICROS_PER_DAY - 1).is_ok());
}

#[test]
fn test_invalid_calendar_date() {
    // day 366 of a common year constructs, but cannot be materialized
    let dec = DecimalTime::new(2025, 366, micros_of_fraction(0.5)).unwrap();
    assert_eq!(
        dec.to_naive_datetime(),
        Err(DecimalTimeError::InvalidCalendarDate)
    );
    // century rule: 1900 is common, 2000 is leap
    let dec_1900 = DecimalTime::new(1900, 366, 0).unwrap();
    assert_eq!(
        dec_1900.to_naive_datetime(),
        Err(DecimalTimeError::InvalidCalendarDate)
    );
    let dec_2000 = DecimalTime::new(2000, 366, 0).unwrap();
    assert!(dec_2000.to_naive_datetime().is_ok());
    // a year the calendar collaborator cannot represent
    let far = DecimalTime::new(400_000, 1, 0).unwrap();
    assert_eq!(
        far.to_naive_datetime(),
        Err(DecimalTimeError::InvalidCalendarDate)
    );
}

#[test]
fn test_format_spec_case() {
    let dec = DecimalTime::new(2025, 100, micros_of_fraction(0.5)).unwrap();
    assert_eq!(
        dec.format("Year=%Y Day=%d Fraction=%f"),
        "Year=2025 Day=100 Fraction=.5"
    );
}

#[test]
fn test_format_leaves_unrecognized_text() {
    let dec = DecimalTime::new(2025, 7, micros_of_fraction(0.25)).unwrap();
    assert_eq!(dec.format(""), "");
    assert_eq!(dec.format("no placeholders"), "no placeholders");
    assert_eq!(dec.format("%q %Y%"), "%q 2025%");
    assert_eq!(dec.format("%%d"), "%7");
    assert_eq!(dec.format("%Y%Y"), "20252025");
}

#[test]
fn test_format_midnight_fraction() {
    // at midnight the fraction renders as "0", and stripping leading
    // zeros leaves the empty string
    let dec = DecimalTime::new(2025, 1, 0).unwrap();
    assert_eq!(dec.format("f:%f"), "f:");
}

#[test]
fn test_format_negative_year() {
    let dec = DecimalTime::new(-44, 74, 0).unwrap();
    assert_eq!(dec.format("%Y/%d"), "-44/74");
}

#[test]
fn test_format_nonterminating_fraction() {
    // one second past midnight: 1/86400 has no finite decimal expansion,
    // so it is truncated after 16 digits
    let dec = DecimalTime::new(2025, 1, 1_000_000).unwrap();
    assert_eq!(dec.format("%f"), ".0000115740740740");
}

#[test]
fn test_monotonic_within_day() {
    let mut prev = DecimalTime::from_naive_datetime(NaiveTimestamp {
        year: 2025,
        day_of_year: 40,
        secs_from_midnight: 0,
        nanos: 0,
    });
    for secs in [1u32, 600, 43_200, 86_399] {
        let next = DecimalTime::from_naive_datetime(NaiveTimestamp {
            year: 2025,
            day_of_year: 40,
            secs_from_midnight: secs,
            nanos: 0,
        });
        assert!(prev.day_micros < next.day_micros);
        assert!(fraction(&prev) < fraction(&next));
        prev = next;
    }
}

#[test]
fn test_last_microsecond_of_day() {
    let dec = DecimalTime::from_naive_datetime(NaiveTimestamp {
        year: 2025,
        day_of_year: 1,
        secs_from_midnight: 86_399,
        nanos: 999_999_000,
    });
    assert_eq!(dec.day_micros, MICROS_PER_DAY - 1);
    assert!(fraction(&dec) < 1.0);
    assert!(1.0 - fraction(&dec) <= 1.0 / MICROS_PER_DAY as f64 + f64::EPSILON);
}

#[test]
fn test_subsecond_truncation() {
    // sub-microsecond detail is truncated, never rounded
    let dec = DecimalTime::from_naive_datetime(NaiveTimestamp {
        year: 2025,
        day_of_year: 1,
        secs_from_midnight: 10,
        nanos: 123_456_789,
    });
    assert_eq!(dec.day_micros, 10_123_456);
}
