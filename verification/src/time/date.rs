//! Dates as serial day numbers, and their decomposition into day, month and
//! year.

use crate::time::calendar::{
    day_of, day_of_year, days_before_month, days_before_year, days_in_month, days_in_year,
    is_calendar_date, is_leap_year, lemma_days_before_month_table, lemma_days_before_year_closed,
    lemma_decode_encode, lemma_encode_decode, lemma_month_of_ordinal_unique,
    lemma_year_of_in_range, lemma_year_of_unique, month_of, ordinal_in_month, serial_of,
    weekday_of, year_of, EPOCH_YEAR, LIMIT_YEAR, MAX_SERIAL, MAX_YEAR, MIN_SERIAL, MIN_YEAR,
};
use crate::time::error::TimeError;
use crate::time::host::{strftime, strftime_text, text_of};
use crate::time::period::{order_of, Period, PeriodView};
use crate::time::time_unit::TimeUnit;
use crate::time::weekday::Weekday;
use crate::utilities::dateformatter::{ordinal, ordinal_text};
use crate::utilities::decimal::{append_decimal, append_zero_padded, decimal, zero_padded};
use std::cmp::Ordering;
use vstd::prelude::*;
use vstd::std_specs::cmp::PartialOrdSpec;
use vstd::std_specs::ops::SubSpec;

verus! {

/// A day of a month.
pub type Day = i32;

/// A year of the calendar.
pub type Year = i32;

/// The ordinal of a month, from 1 for January to 12 for December.
pub type MonthIndex = usize;

/// A count of days from the day before 1 January 1900.
pub type SerialType = i32;

/// The days from 1 January to the first of each month of a common year; the
/// last entry stands for the January that follows.
const MONTH_OFFSET: [i32; 14] = [0, 0, 31, 59, 90, 120, 151, 181, 212, 243, 273, 304, 334, 365];

/// The days from 1 January to the first of each month of a leap year.
const MONTH_LEAP_OFFSET: [i32; 14] = [
    0, 0, 31, 60, 91, 121, 152, 182, 213, 244, 274, 305, 335, 366,
];

/// The days of each month of a common year.
const MONTH_LENGTH: [i32; 13] = [0, 31, 28, 31, 30, 31, 30, 31, 31, 30, 31, 30, 31];

/// The days of each month of a leap year.
const MONTH_LEAP_LENGTH: [i32; 13] = [0, 31, 29, 31, 30, 31, 30, 31, 31, 30, 31, 30, 31];

/// A month of the year.
#[derive(Clone, Copy, PartialEq, Eq, Structural, PartialOrd, Ord, Debug)]
pub enum Month {
    January,
    February,
    March,
    April,
    May,
    June,
    July,
    August,
    September,
    October,
    November,
    December,
}

impl Month {
    /// The ordinal of the month: 1 for January up to 12 for December.
    pub open spec fn ordinal(self) -> int {
        match self {
            Month::January => 1,
            Month::February => 2,
            Month::March => 3,
            Month::April => 4,
            Month::May => 5,
            Month::June => 6,
            Month::July => 7,
            Month::August => 8,
            Month::September => 9,
            Month::October => 10,
            Month::November => 11,
            Month::December => 12,
        }
    }

    /// The month with the given ordinal; December stands for every ordinal
    /// that no month has.
    pub open spec fn of_ordinal(ordinal: int) -> Month {
        if ordinal == 1 {
            Month::January
        } else if ordinal == 2 {
            Month::February
        } else if ordinal == 3 {
            Month::March
        } else if ordinal == 4 {
            Month::April
        } else if ordinal == 5 {
            Month::May
        } else if ordinal == 6 {
            Month::June
        } else if ordinal == 7 {
            Month::July
        } else if ordinal == 8 {
            Month::August
        } else if ordinal == 9 {
            Month::September
        } else if ordinal == 10 {
            Month::October
        } else if ordinal == 11 {
            Month::November
        } else {
            Month::December
        }
    }

    /// The English name of the month.
    pub open spec fn name(self) -> Seq<char> {
        match self {
            Month::January => "January"@,
            Month::February => "February"@,
            Month::March => "March"@,
            Month::April => "April"@,
            Month::May => "May"@,
            Month::June => "June"@,
            Month::July => "July"@,
            Month::August => "August"@,
            Month::September => "September"@,
            Month::October => "October"@,
            Month::November => "November"@,
            Month::December => "December"@,
        }
    }

    /// The ordinal of the month.
    pub fn index(self) -> (index: MonthIndex)
        ensures
            index == self.ordinal(),
            1 <= index <= 12,
    {
        match self {
            Month::January => 1,
            Month::February => 2,
            Month::March => 3,
            Month::April => 4,
            Month::May => 5,
            Month::June => 6,
            Month::July => 7,
            Month::August => 8,
            Month::September => 9,
            Month::October => 10,
            Month::November => 11,
            Month::December => 12,
        }
    }

    /// The month with ordinal `number`, which must lie in `1..=12`.
    pub fn from_index(number: MonthIndex) -> (result: Result<Month, TimeError>)
        ensures
            1 <= number <= 12 ==> result == Ok::<Month, TimeError>(
                Month::of_ordinal(number as int),
            ),
            !(1 <= number <= 12) ==> result == Err::<Month, TimeError>(
                TimeError::MonthOutOfRange,
            ),
            result matches Ok(month) ==> month.ordinal() == number,
    {
        match number {
            1 => Ok(Month::January),
            2 => Ok(Month::February),
            3 => Ok(Month::March),
            4 => Ok(Month::April),
            5 => Ok(Month::May),
            6 => Ok(Month::June),
            7 => Ok(Month::July),
            8 => Ok(Month::August),
            9 => Ok(Month::September),
            10 => Ok(Month::October),
            11 => Ok(Month::November),
            12 => Ok(Month::December),
            _ => Err(TimeError::MonthOutOfRange),
        }
    }

    /// The month with ordinal `number`, if there is one.
    pub fn from_i32(number: i32) -> (result: Option<Month>)
        ensures
            1 <= number <= 12 ==> result == Some(Month::of_ordinal(number as int)),
            !(1 <= number <= 12) ==> result.is_none(),
            result matches Some(month) ==> month.ordinal() == number,
    {
        if 1 <= number && number <= 12 {
            match Month::from_index(number as usize) {
                Ok(month) => Some(month),
                Err(_) => None,
            }
        } else {
            None
        }
    }

    /// The text that stands for the month when it is printed: its name.
    pub fn to_string(&self) -> (text: String)
        ensures
            text@ == self.name(),
    {
        String::from_str(self.name_text())
    }

    /// The English name of the month.
    fn name_text(&self) -> (name: &'static str)
        ensures
            name@ == self.name(),
    {
        match self {
            Month::January => "January",
            Month::February => "February",
            Month::March => "March",
            Month::April => "April",
            Month::May => "May",
            Month::June => "June",
            Month::July => "July",
            Month::August => "August",
            Month::September => "September",
            Month::October => "October",
            Month::November => "November",
            Month::December => "December",
        }
    }
}

/// The ordinals and the months correspond one to one.
pub proof fn lemma_month_ordinal(month: Month, ordinal: int)
    ensures
        1 <= month.ordinal() <= 12,
        Month::of_ordinal(month.ordinal()) == month,
        1 <= ordinal <= 12 ==> Month::of_ordinal(ordinal).ordinal() == ordinal,
{
}

/// A day of the calendar, held as its serial number. The dates that can be
/// made run from 1 January 1901 to 31 December 2199. The default value is the
/// null date, which is no day of the calendar.
#[derive(Copy, Clone, PartialEq, Eq, Structural, Ord, Debug)]
pub struct Date {
    serial_number: SerialType,
}

impl View for Date {
    type V = int;

    /// The serial number.
    closed spec fn view(&self) -> int {
        self.serial_number as int
    }
}

/// Why day `day` of month `month` of `year` is no date, if it is none: the
/// year is looked at first.
pub open spec fn date_error(day: int, month: int, year: int) -> Option<TimeError> {
    if !(MIN_YEAR <= year <= MAX_YEAR) {
        Some(TimeError::YearOutOfRange)
    } else if !(1 <= day <= days_in_month(month, is_leap_year(year))) {
        Some(TimeError::DayOutOfRange)
    } else {
        None
    }
}

/// Whether a date was moved in place as `outcome` asks: it is now the date
/// computed, or it is as it was and the error is returned.
pub open spec fn moves(
    before: Date,
    after: Date,
    result: Result<(), TimeError>,
    outcome: Result<Date, TimeError>,
) -> bool {
    match outcome {
        Ok(date) => result.is_ok() && after == date,
        Err(error) => result == Err::<(), TimeError>(error) && after == before,
    }
}

/// Whether `serial` numbers a day of the supported range.
pub open spec fn is_serial(serial: int) -> bool {
    MIN_SERIAL <= serial <= MAX_SERIAL
}

/// The number of days from a day with weekday ordinal `current` forward to
/// the next day with weekday ordinal `target`: 0 where the two are the same.
pub open spec fn days_until(current: int, target: int) -> int {
    if current > target {
        7 - current + target
    } else {
        target - current
    }
}

/// The day of the month on which the weekday with ordinal `weekday` falls
/// for the `nth` time in month `month` of `year`. The month may be too short
/// to have that day.
pub open spec fn nth_weekday_day(nth: int, weekday: int, month: int, year: int) -> int {
    1 + days_until(weekday_of(serial_of(1, month, year)), weekday) + 7 * (nth - 1)
}

/// Whether `year` is a leap year; 1900 counts as one.
fn leap(year: Year) -> (answer: bool)
    requires
        EPOCH_YEAR <= year <= LIMIT_YEAR,
    ensures
        answer == is_leap_year(year as int),
{
    year == 1900 || (year % 4 == 0 && (year % 100 != 0 || year % 400 == 0))
}

/// The days from 1 January 1900 to 1 January of `year`: 365 for each year,
/// one for 1900, and one for each leap year after it, of which the plain rule
/// counts 460 up to 1900.
fn offset_of_year(year: Year) -> (offset: i32)
    requires
        EPOCH_YEAR <= year <= LIMIT_YEAR,
    ensures
        offset == days_before_year(year as int),
        0 <= offset <= MAX_SERIAL,
{
    proof {
        lemma_days_before_year_closed(year as int);
    }
    if year == 1900 {
        0
    } else {
        let years = year - 1900;
        let before = year - 1;
        365 * years + 1 + (before / 4 - before / 100 + before / 400) - 460
    }
}

/// The days from 1 January to the first of the month with ordinal
/// `month_index`.
fn offset_of_month(month_index: MonthIndex, is_leap: bool) -> (offset: i32)
    requires
        1 <= month_index <= 13,
    ensures
        offset == days_before_month(month_index as int, is_leap),
        0 <= offset <= 366,
{
    proof {
        lemma_days_before_month_table(is_leap);
    }
    if is_leap {
        MONTH_LEAP_OFFSET[month_index]
    } else {
        MONTH_OFFSET[month_index]
    }
}

/// The days of the month with ordinal `month_index`.
fn length_of_month(month_index: MonthIndex, is_leap: bool) -> (length: i32)
    requires
        1 <= month_index <= 12,
    ensures
        length == days_in_month(month_index as int, is_leap),
        28 <= length <= 31,
{
    if is_leap {
        MONTH_LEAP_LENGTH[month_index]
    } else {
        MONTH_LENGTH[month_index]
    }
}

impl Date {
    /// The serial number of the first date, 1 January 1901.
    pub const MIN_SERIAL: SerialType = 367;

    /// The serial number of the last date, 31 December 2199.
    pub const MAX_SERIAL: SerialType = 109574;

    /// Whether the value is a day of the supported range.
    pub open spec fn is_valid(&self) -> bool {
        is_serial(self@)
    }

    /// The value with serial number `serial`.
    pub closed spec fn of_serial(serial: int) -> Date {
        Date { serial_number: serial as SerialType }
    }

    /// The date with serial number `serial`, where there is one.
    pub open spec fn checked(serial: int) -> Result<Date, TimeError> {
        if is_serial(serial) {
            Ok(Date::of_serial(serial))
        } else {
            Err(TimeError::SerialOutOfRange)
        }
    }

    /// Day `day` of month `month` of `year`, where there is such a date.
    pub open spec fn of_parts(day: int, month: int, year: int) -> Result<Date, TimeError> {
        match date_error(day, month, year) {
            Some(error) => Err(error),
            None => Ok(Date::of_serial(serial_of(day, month, year))),
        }
    }

    /// The date `days` days after this one, where there is one.
    pub open spec fn shifted(self, days: int) -> Result<Date, TimeError> {
        Date::checked(self@ + days)
    }

    /// The `nth` day of month `month` of `year` that falls on the weekday
    /// with ordinal `weekday`, where there is one. The count is looked at
    /// first, then the year, then the length of the month.
    pub open spec fn nth_of(nth: int, weekday: int, month: int, year: int) -> Result<
        Date,
        TimeError,
    > {
        if !(1 <= nth <= 5) {
            Err(TimeError::OccurrenceOutOfRange)
        } else {
            Date::of_parts(nth_weekday_day(nth, weekday, month, year), month, year)
        }
    }

    /// The date that lies `period` after this one, where there is one. Days
    /// and weeks are counted off. Months and years move the month and the
    /// year, months counted from the year 0 on, twelve to a year.
    pub open spec fn advanced(self, period: PeriodView) -> Result<Date, TimeError> {
        match period.units {
            TimeUnit::Days => self.shifted(period.length),
            TimeUnit::Weeks => self.shifted(7 * period.length),
            TimeUnit::Months => {
                let months = year_of(self@) * 12 + (month_of(self@) - 1) + period.length;
                Date::landed(day_of(self@), months % 12 + 1, months / 12)
            },
            TimeUnit::Years => Date::landed(
                day_of(self@),
                month_of(self@),
                year_of(self@) + period.length,
            ),
        }
    }

    /// Day `day` of month `month` of `year`, with the last day of the month
    /// in place of a day that the month does not have.
    pub open spec fn landed(day: int, month: int, year: int) -> Result<Date, TimeError> {
        if day > days_in_month(month, is_leap_year(year)) {
            Date::of_parts(days_in_month(month, is_leap_year(year)), month, year)
        } else {
            Date::of_parts(day, month, year)
        }
    }

    /// Whether the value is the null date.
    pub open spec fn is_null(&self) -> bool {
        self@ == 0
    }

    /// Day `day` of `month` of `year`. The year must lie in 1901 to 2199 and
    /// the day in the month.
    pub fn new(day: Day, month: Month, year: Year) -> (result: Result<Date, TimeError>)
        ensures
            result == Date::of_parts(day as int, month.ordinal(), year as int),
            result matches Ok(date) ==> date.is_valid() && date@ == serial_of(
                day as int,
                month.ordinal(),
                year as int,
            ) && year_of(date@) == year && month_of(date@) == month.ordinal() && day_of(date@)
                == day,
    {
        if year < MIN_YEAR || year > MAX_YEAR {
            return Err(TimeError::YearOutOfRange);
        }
        let is_leap: bool = leap(year);
        let month_length: i32 = length_of_month(month.index(), is_leap);
        let month_offset: i32 = offset_of_month(month.index(), is_leap);
        let year_offset: i32 = offset_of_year(year);
        if day <= 0 || day > month_length {
            return Err(TimeError::DayOutOfRange);
        }
        proof {
            lemma_decode_encode(day as int, month.ordinal(), year as int);
        }
        let serial_number: SerialType = day + month_offset + year_offset;
        Ok(Date { serial_number })
    }

    /// The date with serial number `serial_number`, which must lie in the
    /// supported range.
    pub fn from_serial_number(serial_number: SerialType) -> (result: Result<Date, TimeError>)
        ensures
            result == Date::checked(serial_number as int),
            result matches Ok(date) ==> date@ == serial_number,
    {
        match Date::check_serial_number(serial_number) {
            Ok(()) => Ok(Date { serial_number }),
            Err(error) => Err(error),
        }
    }

    /// The days from 1 January 1900 to 1 January of `year`, for the years
    /// 1900 to 2200.
    pub fn year_offset(year: Year) -> (result: Result<i32, TimeError>)
        ensures
            EPOCH_YEAR <= year <= LIMIT_YEAR ==> result == Ok::<i32, TimeError>(
                days_before_year(year as int) as i32,
            ) && 0 <= days_before_year(year as int) <= MAX_SERIAL,
            !(EPOCH_YEAR <= year <= LIMIT_YEAR) ==> result == Err::<i32, TimeError>(
                TimeError::YearOutOfRange,
            ),
    {
        if year < EPOCH_YEAR || year > LIMIT_YEAR {
            Err(TimeError::YearOutOfRange)
        } else {
            Ok(offset_of_year(year))
        }
    }

    /// The number of days of `year`, for the years 1900 to 2200.
    pub fn year_length(year: Year) -> (result: Result<i32, TimeError>)
        ensures
            EPOCH_YEAR <= year <= LIMIT_YEAR ==> result == Ok::<i32, TimeError>(
                days_in_year(year as int) as i32,
            ),
            !(EPOCH_YEAR <= year <= LIMIT_YEAR) ==> result == Err::<i32, TimeError>(
                TimeError::YearOutOfRange,
            ),
    {
        match Date::is_leap(year) {
            Ok(is_leap) => Ok(
                if is_leap {
                    366
                } else {
                    365
                },
            ),
            Err(error) => Err(error),
        }
    }

    /// The days from 1 January to the first of the month with ordinal
    /// `month_index`, where 13 stands for the January that follows.
    pub fn month_offset(month_index: MonthIndex, is_leap: bool) -> (result: Result<i32, TimeError>)
        ensures
            1 <= month_index <= 13 ==> result == Ok::<i32, TimeError>(
                days_before_month(month_index as int, is_leap) as i32,
            ) && 0 <= days_before_month(month_index as int, is_leap) <= 366,
            !(1 <= month_index <= 13) ==> result == Err::<i32, TimeError>(
                TimeError::MonthOutOfRange,
            ),
    {
        if month_index < 1 || month_index > 13 {
            Err(TimeError::MonthOutOfRange)
        } else {
            Ok(offset_of_month(month_index, is_leap))
        }
    }

    /// The number of days of the month with ordinal `month_index`.
    pub fn month_length(month_index: MonthIndex, is_leap: bool) -> (result: Result<i32, TimeError>)
        ensures
            1 <= month_index <= 12 ==> result == Ok::<i32, TimeError>(
                days_in_month(month_index as int, is_leap) as i32,
            ),
            !(1 <= month_index <= 12) ==> result == Err::<i32, TimeError>(
                TimeError::MonthOutOfRange,
            ),
    {
        if month_index < 1 || month_index > 12 {
            Err(TimeError::MonthOutOfRange)
        } else {
            Ok(length_of_month(month_index, is_leap))
        }
    }

    /// Whether `year` is a leap year, for the years 1900 to 2200; 1900 counts
    /// as one.
    pub fn is_leap(year: Year) -> (result: Result<bool, TimeError>)
        ensures
            EPOCH_YEAR <= year <= LIMIT_YEAR ==> result == Ok::<bool, TimeError>(
                is_leap_year(year as int),
            ),
            !(EPOCH_YEAR <= year <= LIMIT_YEAR) ==> result == Err::<bool, TimeError>(
                TimeError::YearOutOfRange,
            ),
    {
        if year < EPOCH_YEAR || year > LIMIT_YEAR {
            Err(TimeError::YearOutOfRange)
        } else {
            Ok(leap(year))
        }
    }

    /// The number of days of `month` in `year`, for the years 1900 to 2200.
    pub fn days_in_month(month: Month, year: Year) -> (result: Result<i32, TimeError>)
        ensures
            EPOCH_YEAR <= year <= LIMIT_YEAR ==> result == Ok::<i32, TimeError>(
                days_in_month(month.ordinal(), is_leap_year(year as int)) as i32,
            ),
            !(EPOCH_YEAR <= year <= LIMIT_YEAR) ==> result == Err::<i32, TimeError>(
                TimeError::YearOutOfRange,
            ),
    {
        match Date::is_leap(year) {
            Ok(is_leap) => Ok(length_of_month(month.index(), is_leap)),
            Err(error) => Err(error),
        }
    }

    /// Accepts the serial numbers of the supported range.
    pub fn check_serial_number(serial_number: SerialType) -> (result: Result<(), TimeError>)
        ensures
            is_serial(serial_number as int) ==> result.is_ok(),
            !is_serial(serial_number as int) ==> result == Err::<(), TimeError>(
                TimeError::SerialOutOfRange,
            ),
    {
        if serial_number < Date::MIN_SERIAL || serial_number > Date::MAX_SERIAL {
            Err(TimeError::SerialOutOfRange)
        } else {
            Ok(())
        }
    }

    /// The day of the month.
    pub fn day_of_month(&self) -> (day: Day)
        requires
            self.is_valid(),
        ensures
            day == day_of(self@),
            1 <= day <= days_in_month(month_of(self@), is_leap_year(year_of(self@))),
    {
        let year: Year = self.year();
        let is_leap: bool = leap(year);
        let month_index: MonthIndex = self.month().index();
        proof {
            lemma_encode_decode(self@);
        }
        self.serial_number - offset_of_year(year) - offset_of_month(month_index, is_leap)
    }

    /// The number of the day within its year, from 1.
    pub fn day_of_year(&self) -> (day: Day)
        requires
            self.is_valid(),
        ensures
            day == day_of_year(self@),
            1 <= day <= days_in_year(year_of(self@)),
    {
        let year = self.year();
        proof {
            lemma_year_of_in_range(self@);
        }
        self.serial_number - offset_of_year(year)
    }

    /// The year.
    pub fn year(&self) -> (year: Year)
        requires
            self.is_valid(),
        ensures
            year == year_of(self@),
            MIN_YEAR <= year <= MAX_YEAR,
    {
        let mut year: Year = (self.serial_number / 365) + 1900;
        proof {
            lemma_days_before_year_closed(year as int);
            lemma_days_before_year_closed(year - 1);
            lemma_days_before_year_closed(year + 1);
        }
        if self.serial_number <= offset_of_year(year) {
            year -= 1;
        }
        proof {
            lemma_year_of_unique(self@, year as int);
            lemma_year_of_in_range(self@);
        }
        year
    }

    /// The month.
    pub fn month(&self) -> (month: Month)
        requires
            self.is_valid(),
        ensures
            month.ordinal() == month_of(self@),
            month == Month::of_ordinal(month_of(self@)),
    {
        let day_of_year: Day = self.day_of_year();
        let year: Year = self.year();
        let is_leap: bool = leap(year);
        proof {
            lemma_days_before_month_table(is_leap);
        }
        let mut month_index: MonthIndex = (day_of_year / 30 + 1) as MonthIndex;
        while day_of_year <= offset_of_month(month_index, is_leap)
            invariant
                1 <= month_index <= 13,
                1 <= day_of_year <= days_before_month(13, is_leap),
            decreases month_index,
        {
            month_index -= 1;
        }
        while day_of_year > offset_of_month(month_index + 1, is_leap)
            invariant
                1 <= month_index <= 12,
                days_before_month(month_index as int, is_leap) < day_of_year <= days_before_month(
                    13,
                    is_leap,
                ),
            decreases 12 - month_index,
        {
            month_index += 1;
        }
        proof {
            lemma_month_of_ordinal_unique(day_of_year as int, month_index as int, is_leap);
        }
        match Month::from_index(month_index) {
            Ok(month) => month,
            Err(_) => unreached(),
        }
    }

    /// The day of the month.
    pub fn day(&self) -> (day: Day)
        requires
            self.is_valid(),
        ensures
            day == day_of(self@),
            1 <= day <= days_in_month(month_of(self@), is_leap_year(year_of(self@))),
    {
        self.day_of_month()
    }

    /// The serial number.
    pub fn to_serial_number(&self) -> (serial_number: SerialType)
        ensures
            serial_number == self@,
    {
        self.serial_number
    }

    /// The first date, 1 January 1901.
    pub fn min_date() -> (date: Date)
        ensures
            date@ == MIN_SERIAL,
            date.is_valid(),
    {
        Date { serial_number: Date::MIN_SERIAL }
    }

    /// The last date, 31 December 2199.
    pub fn max_date() -> (date: Date)
        ensures
            date@ == MAX_SERIAL,
            date.is_valid(),
    {
        Date { serial_number: Date::MAX_SERIAL }
    }

    /// Whether the date is the last day of its month.
    pub fn is_end_of_month(&self) -> (answer: bool)
        requires
            self.is_valid(),
        ensures
            answer == (day_of(self@) == days_in_month(
                month_of(self@),
                is_leap_year(year_of(self@)),
            )),
    {
        self.day() == length_of_month(self.month().index(), leap(self.year()))
    }

    /// The last day of the month of the date.
    pub fn end_of_month(&self) -> (date: Date)
        requires
            self.is_valid(),
        ensures
            Ok::<Date, TimeError>(date) == Date::of_parts(
                days_in_month(month_of(self@), is_leap_year(year_of(self@))),
                month_of(self@),
                year_of(self@),
            ),
            date.is_valid(),
            year_of(date@) == year_of(self@),
            month_of(date@) == month_of(self@),
            day_of(date@) == days_in_month(month_of(self@), is_leap_year(year_of(self@))),
            date@ >= self@,
    {
        let month: Month = self.month();
        let year: Year = self.year();
        proof {
            lemma_encode_decode(self@);
        }
        match Date::new(length_of_month(month.index(), leap(year)), month, year) {
            Ok(date) => date,
            Err(_) => unreached(),
        }
    }

    /// The day of the week.
    pub fn weekday(&self) -> (weekday: Weekday)
        requires
            self.is_valid(),
        ensures
            weekday.ordinal() == weekday_of(self@),
            weekday == Weekday::of_ordinal(weekday_of(self@)),
    {
        let day_mask: SerialType = self.serial_number % 7;
        let day_of_week: usize = if day_mask == 0 {
            7
        } else {
            day_mask as usize
        };
        match Weekday::from_index(day_of_week) {
            Ok(weekday) => weekday,
            Err(_) => unreached(),
        }
    }

    /// The first day from this date on that falls on `target_day_of_week`:
    /// the date itself where it falls on that weekday. Refused where that day
    /// lies past the last date.
    pub fn next_weekday(&self, target_day_of_week: Weekday) -> (result: Result<Date, TimeError>)
        requires
            self.is_valid(),
        ensures
            result == self.shifted(days_until(weekday_of(self@), target_day_of_week.ordinal())),
            result matches Ok(date) ==> date.is_valid() && weekday_of(date@)
                == target_day_of_week.ordinal() && self@ <= date@ <= self@ + 6,
    {
        let current: Day = self.weekday().index() as Day;
        let target: Day = target_day_of_week.index() as Day;
        let diff: Day = if current > target {
            7
        } else {
            0
        } - current + target;
        self.add(diff)
    }

    /// The `nth` day of `month` of `year` that falls on `day_of_week`.
    /// Refused where `nth` lies outside 1 to 5, where the year lies outside
    /// 1901 to 2199, and where the month has fewer than `nth` such days.
    pub fn nth_weekday(nth: usize, day_of_week: Weekday, month: Month, year: Year) -> (result:
        Result<Date, TimeError>)
        ensures
            result == Date::nth_of(nth as int, day_of_week.ordinal(), month.ordinal(), year as int),
            result matches Ok(date) ==> date.is_valid() && year_of(date@) == year && month_of(date@)
                == month.ordinal() && weekday_of(date@) == day_of_week.ordinal() && 7 * (nth - 1)
                < day_of(date@) <= 7 * nth,
    {
        if nth < 1 || nth > 5 {
            return Err(TimeError::OccurrenceOutOfRange);
        }
        let first = match Date::new(1, month, year) {
            Ok(first) => first,
            Err(error) => {
                return Err(error);
            },
        };
        let day_of_week: Day = day_of_week.index() as Day;
        let first_day_of_week: Day = first.weekday().index() as Day;
        let skip: Day = nth as Day - if day_of_week >= first_day_of_week {
            1
        } else {
            0
        };
        Date::new(1 + day_of_week + skip * 7 - first_day_of_week, month, year)
    }

    /// Moves the date to the next day; refused, with the date unchanged, at
    /// the last date.
    pub fn increment(&mut self) -> (result: Result<(), TimeError>)
        ensures
            moves(*old(self), *final(self), result, old(self).shifted(1)),
            result.is_ok() ==> final(self)@ == old(self)@ + 1,
    {
        self.add_assign(1)
    }

    /// Moves the date to the day before; refused, with the date unchanged, at
    /// the first date.
    pub fn decrement(&mut self) -> (result: Result<(), TimeError>)
        ensures
            moves(*old(self), *final(self), result, old(self).shifted(-1)),
            result.is_ok() ==> final(self)@ == old(self)@ - 1,
    {
        self.sub_assign(1)
    }

    /// The date `days` days later, or earlier where `days` is negative;
    /// refused where that day lies outside the supported range.
    pub fn add(self, days: Day) -> (result: Result<Date, TimeError>)
        ensures
            result == self.shifted(days as int),
            result matches Ok(date) ==> date@ == self@ + days,
    {
        Date::at(self.serial_number as i64 + days as i64)
    }

    /// The date `days` days earlier, or later where `days` is negative;
    /// refused where that day lies outside the supported range.
    pub fn sub(self, days: Day) -> (result: Result<Date, TimeError>)
        ensures
            result == self.shifted(-days),
            result matches Ok(date) ==> date@ == self@ - days,
    {
        Date::at(self.serial_number as i64 - days as i64)
    }

    /// Moves the date `days` days on; refused, with the date unchanged, where
    /// that day lies outside the supported range.
    pub fn add_assign(&mut self, days: Day) -> (result: Result<(), TimeError>)
        ensures
            moves(*old(self), *final(self), result, old(self).shifted(days as int)),
            result.is_ok() ==> final(self)@ == old(self)@ + days,
    {
        match self.add(days) {
            Ok(date) => {
                *self = date;
                Ok(())
            },
            Err(error) => Err(error),
        }
    }

    /// Moves the date `days` days back; refused, with the date unchanged,
    /// where that day lies outside the supported range.
    pub fn sub_assign(&mut self, days: Day) -> (result: Result<(), TimeError>)
        ensures
            moves(*old(self), *final(self), result, old(self).shifted(-days)),
            result.is_ok() ==> final(self)@ == old(self)@ - days,
    {
        match self.sub(days) {
            Ok(date) => {
                *self = date;
                Ok(())
            },
            Err(error) => Err(error),
        }
    }

    /// The date that lies `period` after this one. Days and weeks are counted
    /// off. Months and years move the month and the year and keep the day of
    /// the month, or take the last day of the month where it is shorter.
    pub fn add_period(self, period: Period) -> (result: Result<Date, TimeError>)
        requires
            self.is_valid(),
        ensures
            result == self.advanced(period@),
            result matches Ok(date) ==> date.is_valid(),
    {
        let length = period.length() as i64;
        match period.units() {
            TimeUnit::Days => Date::at(self.serial_number as i64 + length),
            TimeUnit::Weeks => Date::at(self.serial_number as i64 + 7 * length),
            TimeUnit::Months => {
                let months = self.year() as i64 * 12 + (self.month().index() as i64 - 1) + length;
                if months < 1901 * 12 || months > 2199 * 12 + 11 {
                    return Err(TimeError::YearOutOfRange);
                }
                Date::landing(self.day(), (months % 12 + 1) as MonthIndex, (months / 12) as Year)
            },
            TimeUnit::Years => {
                let year = self.year() as i64 + length;
                if year < 1901 || year > 2199 {
                    return Err(TimeError::YearOutOfRange);
                }
                Date::landing(self.day(), self.month().index(), year as Year)
            },
        }
    }

    /// Day `day` of a month, or the last day of the month where it has fewer
    /// days.
    fn landing(day: Day, month_index: MonthIndex, year: Year) -> (result: Result<Date, TimeError>)
        requires
            1 <= day <= 31,
            1 <= month_index <= 12,
            MIN_YEAR <= year <= MAX_YEAR,
        ensures
            result == Date::landed(day as int, month_index as int, year as int),
            result matches Ok(date) && date.is_valid(),
    {
        let length = length_of_month(month_index, leap(year));
        let day = if day > length {
            length
        } else {
            day
        };
        let month = match Month::from_index(month_index) {
            Ok(month) => month,
            Err(_) => unreached(),
        };
        match Date::new(day, month, year) {
            Ok(date) => Ok(date),
            Err(_) => unreached(),
        }
    }

    /// Day `day` of the month with ordinal `month` of `year`, all three as a
    /// clock gives them: the month is looked at first, then the year, then
    /// the day.
    pub fn from_ymd(year: Year, month: u32, day: u32) -> (result: Result<Date, TimeError>)
        ensures
            !(1 <= month <= 12) ==> result == Err::<Date, TimeError>(TimeError::MonthOutOfRange),
            1 <= month <= 12 ==> result == Date::of_parts(day as int, month as int, year as int),
            result matches Ok(date) ==> date.is_valid() && date@ == serial_of(
                day as int,
                month as int,
                year as int,
            ),
    {
        let month: Month = match Month::from_index(month as MonthIndex) {
            Ok(month) => month,
            Err(error) => {
                return Err(error);
            },
        };
        if day > 31 {
            if year < MIN_YEAR || year > MAX_YEAR {
                return Err(TimeError::YearOutOfRange);
            }
            return Err(TimeError::DayOutOfRange);
        }
        Date::new(day as Day, month, year)
    }

    /// The text that stands for the date when it is printed: its long form.
    pub fn to_string(&self) -> (text: String)
        requires
            self.is_valid(),
        ensures
            text@ == long_date_text(self@),
    {
        long_date(self)
    }

    /// The date with serial number `serial`, where it is one.
    fn at(serial: i64) -> (result: Result<Date, TimeError>)
        ensures
            result == Date::checked(serial as int),
            result matches Ok(date) ==> date@ == serial,
    {
        if serial < Date::MIN_SERIAL as i64 || serial > Date::MAX_SERIAL as i64 {
            Err(TimeError::SerialOutOfRange)
        } else {
            Ok(Date { serial_number: serial as SerialType })
        }
    }
}

impl Default for Date {
    /// The null date.
    fn default() -> (date: Date)
        ensures
            date.is_null(),
    {
        Date { serial_number: 0 }
    }
}

impl std::ops::Sub<Date> for Date {
    type Output = SerialType;

    /// The number of days from `right_hand_side` to this date.
    fn sub(self, right_hand_side: Date) -> (days: SerialType) {
        self.serial_number - right_hand_side.serial_number
    }
}

impl vstd::std_specs::ops::SubSpecImpl<Date> for Date {
    open spec fn obeys_sub_spec() -> bool {
        true
    }

    open spec fn sub_req(self, right_hand_side: Date) -> bool {
        (self.is_valid() || self.is_null()) && (right_hand_side.is_valid()
            || right_hand_side.is_null())
    }

    open spec fn sub_spec(self, right_hand_side: Date) -> SerialType {
        (self@ - right_hand_side@) as SerialType
    }
}

/// The long form of the date with serial number `serial`: the name of the
/// month, the day as an ordinal, and the year, as in "January 1st, 1901".
pub open spec fn long_date_text(serial: int) -> Seq<char> {
    Month::of_ordinal(month_of(serial)).name() + " "@ + ordinal_text(day_of(serial) as nat)
        + ", "@ + decimal(year_of(serial))
}

/// The short form of the date with serial number `serial`: month, day and
/// year in digits, as in "01/31/1901".
pub open spec fn short_date_text(serial: int) -> Seq<char> {
    zero_padded(month_of(serial) as nat, 2) + "/"@ + zero_padded(day_of(serial) as nat, 2)
        + "/"@ + decimal(year_of(serial))
}

/// The ISO form of the date with serial number `serial`: year, month and day
/// in digits, as in "1901-01-31".
pub open spec fn iso_date_text(serial: int) -> Seq<char> {
    zero_padded(year_of(serial) as nat, 4) + "-"@ + zero_padded(month_of(serial) as nat, 2)
        + "-"@ + zero_padded(day_of(serial) as nat, 2)
}

/// What a rendering by the host becomes: its text, or a refusal of the
/// format.
pub open spec fn rendered_text(rendered: Option<Seq<char>>) -> Result<Seq<char>, TimeError> {
    match rendered {
        Some(text) => Ok(text),
        None => Err(TimeError::UnsupportedFormat),
    }
}

/// The date with serial number `serial` under the strftime-style `format`.
/// The null date has a text of its own, and no other value outside the
/// supported range has one.
pub open spec fn formatted_date_text(serial: int, format: Seq<char>) -> Result<
    Seq<char>,
    TimeError,
> {
    if serial == 0 {
        Ok("null date"@)
    } else if !is_serial(serial) {
        Err(TimeError::SerialOutOfRange)
    } else {
        rendered_text(strftime_text(year_of(serial), month_of(serial), day_of(serial), format))
    }
}

/// Whether `result` gives the text, or the error, that `outcome` asks for.
pub open spec fn shows(
    result: Result<String, TimeError>,
    outcome: Result<Seq<char>, TimeError>,
) -> bool {
    match outcome {
        Ok(text) => result matches Ok(shown) && shown@ == text,
        Err(error) => result == Err::<String, TimeError>(error),
    }
}

/// The long form of a date, as in "January 1st, 1901".
pub fn long_date(d: &Date) -> (text: String)
    requires
        d.is_valid(),
    ensures
        text@ == long_date_text(d@),
{
    let mut text = d.month().to_string();
    text.append(" ");
    text.append(ordinal(d.day() as usize).as_str());
    text.append(", ");
    append_decimal(&mut text, d.year() as i64);
    text
}

/// The short form of a date, as in "01/31/1901".
pub fn short_date(d: &Date) -> (text: String)
    requires
        d.is_valid(),
    ensures
        text@ == short_date_text(d@),
{
    let mut text = String::new();
    append_zero_padded(&mut text, d.month().index() as u64, 2);
    text.append("/");
    append_zero_padded(&mut text, d.day() as u64, 2);
    text.append("/");
    append_decimal(&mut text, d.year() as i64);
    text
}

/// The ISO form of a date, as in "1901-01-31".
pub fn iso_date(d: &Date) -> (text: String)
    requires
        d.is_valid(),
    ensures
        text@ == iso_date_text(d@),
{
    let mut text = String::new();
    append_zero_padded(&mut text, d.year() as u64, 4);
    text.append("-");
    append_zero_padded(&mut text, d.month().index() as u64, 2);
    text.append("-");
    append_zero_padded(&mut text, d.day() as u64, 2);
    text
}

/// What a rendering by the host becomes: its text, or a refusal of the
/// format.
pub fn formatted_or_refused(rendered: Option<String>) -> (result: Result<String, TimeError>)
    ensures
        shows(result, rendered_text(text_of(rendered))),
{
    match rendered {
        Some(text) => Ok(text),
        None => Err(TimeError::UnsupportedFormat),
    }
}

/// A date under a strftime-style format. The null date gives "null date".
pub fn formatted_date(d: &Date, format: &str) -> (result: Result<String, TimeError>)
    ensures
        shows(result, formatted_date_text(d@, format@)),
{
    if d.serial_number == 0 {
        return Ok(String::from_str("null date"));
    }
    if d.serial_number < Date::MIN_SERIAL || d.serial_number > Date::MAX_SERIAL {
        return Err(TimeError::SerialOutOfRange);
    }
    formatted_or_refused(strftime(d.year(), d.month().index() as u32, d.day() as u32, format))
}

/// Two dates with one serial number are one date.
pub proof fn lemma_same_serial(left: Date, right: Date)
    requires
        left@ == right@,
    ensures
        left == right,
{
}

/// The date made of a serial number has that serial number, and every date
/// is the date made of its serial number.
pub proof fn lemma_of_serial(serial: int, date: Date)
    ensures
        i32::MIN <= serial <= i32::MAX ==> Date::of_serial(serial)@ == serial,
        Date::of_serial(date@) == date,
{
}

/// A date made of a day, a month and a year gives the three back.
pub proof fn lemma_new_round_trip(day: int, month: Month, year: int)
    requires
        is_calendar_date(day, month.ordinal(), year),
    ensures
        Date::of_parts(day, month.ordinal(), year) matches Ok(date) && date.is_valid() && day_of(
            date@,
        ) == day && Month::of_ordinal(month_of(date@)) == month && year_of(date@) == year,
{
    lemma_decode_encode(day, month.ordinal(), year);
}

/// A date made of a serial number of the supported range gives the number
/// back, and is the date of the day, month and year that it decodes to.
pub proof fn lemma_serial_round_trip(serial: int)
    requires
        is_serial(serial),
    ensures
        Date::checked(serial) matches Ok(date) && date@ == serial && Date::of_parts(
            day_of(serial),
            month_of(serial),
            year_of(serial),
        ) == Ok::<Date, TimeError>(date),
{
    lemma_encode_decode(serial);
}

/// Dates are ordered as their serial numbers are.
pub proof fn lemma_order_preserved(left: Date, right: Date)
    ensures
        left.partial_cmp_spec(&right) == Some(Ordering::Less) <==> left@ < right@,
        left.partial_cmp_spec(&right) == Some(Ordering::Greater) <==> left@ > right@,
        left.partial_cmp_spec(&right) == Some(Ordering::Equal) <==> left == right,
{
}

/// Going `days` days on and then `days` days back ends where it began.
pub proof fn lemma_add_then_sub(date: Date, days: int)
    requires
        date.is_valid(),
        is_serial(date@ + days),
    ensures
        date.shifted(days) matches Ok(forward) && forward.shifted(-days) == Ok::<Date, TimeError>(
            date,
        ),
{
}

/// The days from one date to another are the negative of the days back.
pub proof fn lemma_difference_antisymmetric(left: Date, right: Date)
    requires
        left.sub_req(right),
    ensures
        right.sub_req(left),
        left.sub_spec(right) == -right.sub_spec(left),
        left.sub_spec(right) == left@ - right@,
{
}

impl PartialOrd for Date {
    /// Dates are ordered as their serial numbers are.
    fn partial_cmp(&self, other: &Date) -> (result: Option<Ordering>) {
        if self.serial_number < other.serial_number {
            Some(Ordering::Less)
        } else if self.serial_number > other.serial_number {
            Some(Ordering::Greater)
        } else {
            Some(Ordering::Equal)
        }
    }
}

impl vstd::std_specs::cmp::PartialOrdSpecImpl for Date {
    open spec fn obeys_partial_cmp_spec() -> bool {
        true
    }

    open spec fn partial_cmp_spec(&self, other: &Date) -> Option<Ordering> {
        Some(order_of(self@, other@))
    }
}

} // verus!
