use code_rust::time::date::Date;
use code_rust::time::date::Month;
use code_rust::time::error::TimeError;
use code_rust::time::period::Period;
use code_rust::time::time_unit::TimeUnit;

fn date(day: i32, month: Month, year: i32) -> Date {
    Date::new(day, month, year).unwrap()
}

#[test]
fn add_then_subtract_returns_original_date_correctly() {
    let cases: [(Date, i32, &str); 6] = [
        (date(12, Month::November, 1989), 40, "mid example"),
        (date(25, Month::January, 2024), 10, "cross month"),
        (date(31, Month::December, 2023), 5, "cross new year"),
        (date(29, Month::February, 2020), 10, "leap Feb 29"),
        (date(28, Month::February, 2021), 10, "non-leap Feb 28"),
        (date(10, Month::March, 2022), -15, "subtract first, then add"),
    ];

    for (start, delta, label) in cases {
        let forward: Date = start.add(delta).unwrap();
        let round_trip: Date = forward.sub(delta).unwrap();

        assert_eq!(
            round_trip, start,
            "Round-trip failed: {} | start={:?}, delta={}",
            label, start, delta
        );
    }
}

#[test]
fn date_and_period_month_ends() {
    let cases: [(Date, Period, Date, &str); 9] = [
        (
            date(31, Month::January, 2024),
            Period::new(1, TimeUnit::Months),
            date(29, Month::February, 2024),
            "Jan 31 -> Feb end (leap year)",
        ),
        (
            date(31, Month::January, 2023),
            Period::new(2, TimeUnit::Months),
            date(31, Month::March, 2023),
            "Jan 31 -> Mar 31 (non-leap)",
        ),
        (
            date(30, Month::November, 2023),
            Period::new(1, TimeUnit::Months),
            date(30, Month::December, 2023),
            "Nov 30 -> Dec 30",
        ),
        (
            date(25, Month::January, 2024),
            Period::new(1, TimeUnit::Weeks),
            date(1, Month::February, 2024),
            "Jan 25 + 1 Week -> Feb 1",
        ),
        (
            date(27, Month::December, 2023),
            Period::new(1, TimeUnit::Weeks),
            date(3, Month::January, 2024),
            "Dec 27 + 1 Week -> Jan 3 (next year)",
        ),
        (
            date(29, Month::December, 2024),
            Period::new(2, TimeUnit::Weeks),
            date(12, Month::January, 2025),
            "Dec 29 + 2 Weeks -> Jan 12 (crossing year boundary, leap start)",
        ),
        (
            date(31, Month::December, 2023),
            Period::new(1, TimeUnit::Days),
            date(1, Month::January, 2024),
            "Dec 31 + 1 Day -> Jan 1 (next year)",
        ),
        (
            date(1, Month::January, 2024),
            Period::new(-1, TimeUnit::Days),
            date(31, Month::December, 2023),
            "Jan 1 - 1 Day -> Dec 31 (previous year)",
        ),
        (
            date(29, Month::February, 2020),
            Period::new(1, TimeUnit::Years),
            date(28, Month::February, 2021),
            "Leap Feb 29 + 1 Year -> Feb 28 (non-leap)",
        ),
    ];

    for (start, period, expected, label) in cases {
        let result: Date = start.add_period(period).unwrap();
        assert_eq!(
            result, expected,
            "Failed case: {} | start={:?} + period={:?}",
            label, start, period
        );
    }
}

#[test]
fn period_normalization_and_date_advance_consistency() {
    let cases: [(Date, Period, Period, Date, &str); 8] = [
        (
            date(1, Month::March, 2024),
            Period::new(7, TimeUnit::Days),
            Period::new(1, TimeUnit::Weeks),
            date(8, Month::March, 2024),
            "7 Days == 1 Week",
        ),
        (
            date(10, Month::March, 2024),
            Period::new(14, TimeUnit::Days),
            Period::new(2, TimeUnit::Weeks),
            date(24, Month::March, 2024),
            "14 Days == 2 Weeks",
        ),
        (
            date(1, Month::February, 2024),
            Period::new(28, TimeUnit::Days),
            Period::new(4, TimeUnit::Weeks),
            date(29, Month::February, 2024),
            "28 Days == 4 Weeks (leap year Feb)",
        ),
        (
            date(15, Month::January, 2020),
            Period::new(12, TimeUnit::Months),
            Period::new(1, TimeUnit::Years),
            date(15, Month::January, 2021),
            "12 Months == 1 Year",
        ),
        (
            date(7, Month::February, 2024),
            Period::new(24, TimeUnit::Months),
            Period::new(2, TimeUnit::Years),
            date(7, Month::February, 2026),
            "24 Months == 2 Years",
        ),
        (
            date(1, Month::March, 2020),
            Period::new(36, TimeUnit::Months),
            Period::new(3, TimeUnit::Years),
            date(1, Month::March, 2023),
            "36 Months == 3 Years",
        ),
        (
            date(10, Month::June, 2020),
            Period::new(60, TimeUnit::Months),
            Period::new(5, TimeUnit::Years),
            date(10, Month::June, 2025),
            "60 Months == 5 Years",
        ),
        (
            date(15, Month::January, 2020),
            Period::new(-12, TimeUnit::Months),
            Period::new(-1, TimeUnit::Years),
            date(15, Month::January, 2019),
            "-12 Months == -1 Year",
        ),
    ];

    for (start, period_days_weeks, period_equivalent, expected, label) in cases {
        let result_a: Date = start.add_period(period_days_weeks.normalized()).unwrap();
        let result_b: Date = start.add_period(period_equivalent.normalized()).unwrap();

        assert_eq!(
            (result_a, result_b),
            (expected, expected),
            "Failed case: {} | start={:?}, a={:?}, b={:?}",
            label,
            start,
            period_days_weeks,
            period_equivalent
        );
    }
}

#[test]
fn add_period_month_arithmetic_at_the_edges() {
    let cases: [(Date, Period, Result<Date, TimeError>); 10] = [
        (date(31, Month::December, 2023), Period::new(2, TimeUnit::Months), Ok(date(29, Month::February, 2024))),
        (date(31, Month::March, 2023), Period::new(-1, TimeUnit::Months), Ok(date(28, Month::February, 2023))),
        (date(15, Month::January, 2023), Period::new(-1, TimeUnit::Months), Ok(date(15, Month::December, 2022))),
        (date(15, Month::January, 2023), Period::new(-13, TimeUnit::Months), Ok(date(15, Month::December, 2021))),
        (date(15, Month::December, 2023), Period::new(1, TimeUnit::Months), Ok(date(15, Month::January, 2024))),
        (date(15, Month::December, 2023), Period::new(0, TimeUnit::Months), Ok(date(15, Month::December, 2023))),
        (date(1, Month::January, 1901), Period::new(-1, TimeUnit::Months), Err(TimeError::YearOutOfRange)),
        (date(31, Month::December, 2199), Period::new(1, TimeUnit::Years), Err(TimeError::YearOutOfRange)),
        (date(31, Month::December, 2199), Period::new(1, TimeUnit::Days), Err(TimeError::SerialOutOfRange)),
        (date(1, Month::January, 1901), Period::new(i32::MIN, TimeUnit::Weeks), Err(TimeError::SerialOutOfRange)),
    ];
    for (start, period, expected) in cases {
        assert_eq!(start.add_period(period), expected, "start={:?} period={:?}", start, period);
    }
    assert_eq!(
        date(1, Month::January, 1901).add_period(Period::new(i32::MAX, TimeUnit::Months)),
        Err(TimeError::YearOutOfRange)
    );
    assert_eq!(
        date(1, Month::January, 1901).add_period(Period::new(298 * 12 + 11, TimeUnit::Months)),
        Ok(date(1, Month::December, 2199))
    );
}
