use code_rust::time::date::{Date, Month};
use code_rust::time::error::TimeError;
use code_rust::time::frequency::Frequency;
use code_rust::time::period::Period;
use code_rust::time::time_unit::TimeUnit;
use code_rust::time::weekday::Weekday;

#[test]
fn forty_days_after_the_first_of_may() {
    let start = Date::new(1, Month::May, 1989).unwrap();
    assert_eq!(start.add(40), Date::new(10, Month::June, 1989));
}

#[test]
fn the_last_day_of_a_year_is_one_day_before_the_next() {
    let last = Date::new(31, Month::December, 1989).unwrap();
    let first = Date::new(1, Month::January, 1990).unwrap();
    assert_eq!(last - first, -1);
    assert_eq!(first - last, 1);
}

#[test]
fn a_quarter_is_three_months() {
    assert_eq!(Period::from_frequency(Frequency::Quarterly), Ok(Period::new(3, TimeUnit::Months)));
    assert_eq!(Period::new(3, TimeUnit::Months).frequency(), Frequency::Quarterly);
}

#[test]
fn twelve_months_are_a_year_and_seven_days_a_week() {
    assert_eq!(Period::new(12, TimeUnit::Months).normalized(), Period::new(1, TimeUnit::Years));
    assert_eq!(Period::new(7, TimeUnit::Days).normalized(), Period::new(1, TimeUnit::Weeks));
}

#[test]
fn a_month_and_thirty_days_do_not_compare() {
    let month = Period::new(1, TimeUnit::Months);
    let days = Period::new(30, TimeUnit::Days);
    assert_eq!(month.partial_cmp(&days), Err(TimeError::UndecidableComparison));
    assert_eq!(days.partial_cmp(&month), Err(TimeError::UndecidableComparison));
}

#[test]
fn the_third_friday_of_september_2024() {
    assert_eq!(
        Date::nth_weekday(3, Weekday::Friday, Month::September, 2024),
        Date::new(20, Month::September, 2024)
    );
}
