//! The calendar model: the mathematical functions that every contract of the
//! date codec is stated over, and the lemmas that relate them.
//!
//! Serial number 1 is 1 January 1900, and 1900 counts as a leap year, so that
//! serial numbers agree with the day counts of common spreadsheets.

use vstd::prelude::*;

verus! {

/// The first year for which day offsets are defined.
pub const EPOCH_YEAR: i32 = 1900;

/// The last year for which day offsets are defined.
pub const LIMIT_YEAR: i32 = 2200;

/// The first year in which a date can lie.
pub const MIN_YEAR: i32 = 1901;

/// The last year in which a date can lie.
pub const MAX_YEAR: i32 = 2199;

/// The serial number of 1 January 1901.
pub const MIN_SERIAL: i32 = 367;

/// The serial number of 31 December 2199.
pub const MAX_SERIAL: i32 = 109574;

/// The Gregorian rule, with 1900 counted as a leap year.
pub open spec fn is_leap_year(year: int) -> bool {
    year == 1900 || (year % 4 == 0 && (year % 100 != 0 || year % 400 == 0))
}

/// The leap years are those of the Gregorian rule, and 1900.
pub proof fn lemma_leap_rule(year: int)
    ensures
        is_leap_year(1900),
        year != 1900 ==> (is_leap_year(year) <==> year % 4 == 0 && (year % 100 != 0 || year % 400
            == 0)),
{
}

/// The number of days of a year.
pub open spec fn days_in_year(year: int) -> int {
    if is_leap_year(year) {
        366
    } else {
        365
    }
}

/// The number of days from 1 January 1900 up to, and not including, 1 January
/// of `year`: the sum of the lengths of the years in between.
pub open spec fn days_before_year(year: int) -> int
    decreases year - 1900,
{
    if year <= 1900 {
        0
    } else {
        days_before_year(year - 1) + days_in_year(year - 1)
    }
}

/// The number of days of a month, given by its ordinal in `1..=12`.
pub open spec fn days_in_month(month: int, leap: bool) -> int {
    if month == 2 {
        if leap {
            29
        } else {
            28
        }
    } else if month == 4 || month == 6 || month == 9 || month == 11 {
        30
    } else {
        31
    }
}

/// The number of days from 1 January up to, and not including, the first day
/// of `month`: the sum of the lengths of the months before it. Month 13 stands
/// for the January that follows.
pub open spec fn days_before_month(month: int, leap: bool) -> int
    decreases month,
{
    if month <= 1 {
        0
    } else {
        days_before_month(month - 1, leap) + days_in_month(month - 1, leap)
    }
}

/// The number of leap years of the plain Gregorian rule among the years
/// `1..=year`.
pub open spec fn gregorian_leaps_through(year: int) -> int {
    year / 4 - year / 100 + year / 400
}

/// `days_before_year` in closed form: 365 days for each year since 1900, one
/// day for the leap year 1900, and one for each leap year of the plain rule
/// after it.
pub open spec fn days_before_year_closed(year: int) -> int {
    if year <= 1900 {
        0
    } else {
        365 * (year - 1900) + 1 + gregorian_leaps_through(year - 1) - gregorian_leaps_through(
            1900,
        )
    }
}

/// The sum of the year lengths equals the closed form.
pub proof fn lemma_days_before_year_closed(year: int)
    ensures
        days_before_year(year) == days_before_year_closed(year),
    decreases year - 1900,
{
    if year > 1900 {
        lemma_days_before_year_closed(year - 1);
    }
}

/// The offsets of the years never decrease.
pub proof fn lemma_days_before_year_monotonic(earlier: int, later: int)
    requires
        earlier <= later,
    ensures
        days_before_year(earlier) <= days_before_year(later),
    decreases later - earlier,
{
    if earlier < later {
        lemma_days_before_year_monotonic(earlier, later - 1);
    }
}

/// The offsets of the months, one by one.
pub proof fn lemma_days_before_month_table(leap: bool)
    ensures
        days_before_month(1, leap) == 0,
        days_before_month(2, leap) == 31,
        days_before_month(3, leap) == 59 + if leap { 1int } else { 0int },
        days_before_month(4, leap) == 90 + if leap { 1int } else { 0int },
        days_before_month(5, leap) == 120 + if leap { 1int } else { 0int },
        days_before_month(6, leap) == 151 + if leap { 1int } else { 0int },
        days_before_month(7, leap) == 181 + if leap { 1int } else { 0int },
        days_before_month(8, leap) == 212 + if leap { 1int } else { 0int },
        days_before_month(9, leap) == 243 + if leap { 1int } else { 0int },
        days_before_month(10, leap) == 273 + if leap { 1int } else { 0int },
        days_before_month(11, leap) == 304 + if leap { 1int } else { 0int },
        days_before_month(12, leap) == 334 + if leap { 1int } else { 0int },
        days_before_month(13, leap) == 365 + if leap { 1int } else { 0int },
{
    reveal_with_fuel(days_before_month, 14);
}

/// Whether `serial` is a day of `year`.
pub open spec fn serial_in_year(serial: int, year: int) -> bool {
    days_before_year(year) < serial <= days_before_year(year + 1)
}

/// Whether the day numbered `ordinal` within its year is a day of `month`.
pub open spec fn ordinal_in_month(ordinal: int, month: int, leap: bool) -> bool {
    days_before_month(month, leap) < ordinal <= days_before_month(month + 1, leap)
}

/// The year in which the day numbered `serial` lies.
pub open spec fn year_of(serial: int) -> int {
    choose|year: int| 1900 <= year && serial_in_year(serial, year)
}

/// The number of the day `serial` within its year, from 1.
pub open spec fn day_of_year(serial: int) -> int {
    serial - days_before_year(year_of(serial))
}

/// The month that holds the day numbered `ordinal` within a year.
pub open spec fn month_of_ordinal(ordinal: int, leap: bool) -> int {
    choose|month: int| 1 <= month <= 12 && ordinal_in_month(ordinal, month, leap)
}

/// The ordinal of the month in which the day numbered `serial` lies.
pub open spec fn month_of(serial: int) -> int {
    month_of_ordinal(day_of_year(serial), is_leap_year(year_of(serial)))
}

/// The day of the month of the day numbered `serial`.
pub open spec fn day_of(serial: int) -> int {
    day_of_year(serial) - days_before_month(month_of(serial), is_leap_year(year_of(serial)))
}

/// The ordinal of the weekday of the day numbered `serial`: 1 for Sunday up
/// to 7 for Saturday.
pub open spec fn weekday_of(serial: int) -> int {
    if serial % 7 == 0 {
        7
    } else {
        serial % 7
    }
}

/// Whether day `day` of month `month` of `year` is a date of the supported
/// range.
pub open spec fn is_calendar_date(day: int, month: int, year: int) -> bool {
    &&& MIN_YEAR <= year <= MAX_YEAR
    &&& 1 <= month <= 12
    &&& 1 <= day <= days_in_month(month, is_leap_year(year))
}

/// The serial number of day `day` of month `month` of `year`.
pub open spec fn serial_of(day: int, month: int, year: int) -> int {
    days_before_year(year) + days_before_month(month, is_leap_year(year)) + day
}

/// A serial number lies in one year only.
pub proof fn lemma_year_of_unique(serial: int, year: int)
    requires
        1900 <= year,
        serial_in_year(serial, year),
    ensures
        year_of(serial) == year,
{
    let chosen = year_of(serial);
    if chosen < year {
        lemma_days_before_year_monotonic(chosen + 1, year);
    }
    if year < chosen {
        lemma_days_before_year_monotonic(year + 1, chosen);
    }
}

/// A day of the year lies in one month only.
pub proof fn lemma_month_of_ordinal_unique(ordinal: int, month: int, leap: bool)
    requires
        1 <= month <= 12,
        ordinal_in_month(ordinal, month, leap),
    ensures
        month_of_ordinal(ordinal, leap) == month,
{
    lemma_days_before_month_table(leap);
}

/// Every supported serial number lies in a year of the supported range.
pub proof fn lemma_year_of_in_range(serial: int)
    requires
        MIN_SERIAL <= serial <= MAX_SERIAL,
    ensures
        MIN_YEAR <= year_of(serial) <= MAX_YEAR,
        serial_in_year(serial, year_of(serial)),
{
    let guess = 1900 + serial / 365;
    lemma_days_before_year_closed(guess - 1);
    lemma_days_before_year_closed(guess);
    lemma_days_before_year_closed(guess + 1);
    let year = if serial <= days_before_year(guess) {
        guess - 1
    } else {
        guess
    };
    lemma_year_of_unique(serial, year);
    lemma_days_before_year_closed(1901);
    lemma_days_before_year_closed(2200);
    if year < 1901 {
        lemma_days_before_year_monotonic(year + 1, 1901);
    }
    if year > 2199 {
        lemma_days_before_year_monotonic(2200, year);
    }
}

/// Every day of a year lies in one of its twelve months.
pub proof fn lemma_month_of_ordinal_in_range(ordinal: int, leap: bool)
    requires
        1 <= ordinal <= days_before_month(13, leap),
    ensures
        1 <= month_of_ordinal(ordinal, leap) <= 12,
        ordinal_in_month(ordinal, month_of_ordinal(ordinal, leap), leap),
{
    lemma_days_before_month_table(leap);
    let month: int = if ordinal <= days_before_month(2, leap) {
        1
    } else if ordinal <= days_before_month(3, leap) {
        2
    } else if ordinal <= days_before_month(4, leap) {
        3
    } else if ordinal <= days_before_month(5, leap) {
        4
    } else if ordinal <= days_before_month(6, leap) {
        5
    } else if ordinal <= days_before_month(7, leap) {
        6
    } else if ordinal <= days_before_month(8, leap) {
        7
    } else if ordinal <= days_before_month(9, leap) {
        8
    } else if ordinal <= days_before_month(10, leap) {
        9
    } else if ordinal <= days_before_month(11, leap) {
        10
    } else if ordinal <= days_before_month(12, leap) {
        11
    } else {
        12
    };
    assert(ordinal_in_month(ordinal, month, leap));
}

/// Decoding inverts encoding: the serial number of a calendar date lies in
/// the supported range and decodes to the day, month and year it was made of.
pub proof fn lemma_decode_encode(day: int, month: int, year: int)
    requires
        is_calendar_date(day, month, year),
    ensures
        MIN_SERIAL <= serial_of(day, month, year) <= MAX_SERIAL,
        year_of(serial_of(day, month, year)) == year,
        month_of(serial_of(day, month, year)) == month,
        day_of(serial_of(day, month, year)) == day,
{
    let leap = is_leap_year(year);
    let serial = serial_of(day, month, year);
    lemma_days_before_month_table(leap);
    lemma_year_of_unique(serial, year);
    lemma_month_of_ordinal_unique(day_of_year(serial), month, leap);
    lemma_days_before_year_closed(1901);
    lemma_days_before_year_closed(2200);
    lemma_days_before_year_monotonic(1901, year);
    lemma_days_before_year_monotonic(year + 1, 2200);
}

/// Encoding inverts decoding: a supported serial number decodes to a calendar
/// date whose serial number it is.
pub proof fn lemma_encode_decode(serial: int)
    requires
        MIN_SERIAL <= serial <= MAX_SERIAL,
    ensures
        is_calendar_date(day_of(serial), month_of(serial), year_of(serial)),
        serial_of(day_of(serial), month_of(serial), year_of(serial)) == serial,
{
    lemma_year_of_in_range(serial);
    let year = year_of(serial);
    let leap = is_leap_year(year);
    lemma_days_before_month_table(leap);
    lemma_month_of_ordinal_in_range(day_of_year(serial), leap);
}

} // verus!
