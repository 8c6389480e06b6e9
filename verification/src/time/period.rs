//! Calendar-relative lengths of time.
//!
//! A period is a signed count of a calendar unit. It is no fixed number of
//! days: a month has 28 to 31 of them. Lengths convert exactly between days
//! and weeks and between months and years, and in no other way.

use crate::time::error::TimeError;
use crate::time::frequency::Frequency;
use crate::time::time_unit::TimeUnit;
use crate::utilities::decimal::{append_decimal, decimal};
use std::cmp::Ordering;
use vstd::arithmetic::div_mod::{
    lemma_div_multiples_vanish, lemma_fundamental_div_mod, lemma_mod_multiples_basic,
};
use vstd::prelude::*;

verus! {

/// A signed count of a calendar unit.
#[derive(Copy, Clone, PartialEq, Eq, Structural, Debug)]
pub struct Period {
    length: i32,
    units: TimeUnit,
}

/// The mathematical period that a [`Period`] stands for: its length is an
/// unbounded integer.
pub struct PeriodView {
    pub length: int,
    pub units: TimeUnit,
}

/// An exact quotient of two integers.
#[derive(Copy, Clone, PartialEq, Eq, Structural, Debug)]
pub struct Fraction {
    pub numerator: i64,
    pub denominator: i64,
}

/// The absolute value of an integer.
pub open spec fn magnitude(number: int) -> int {
    if number < 0 {
        -number
    } else {
        number
    }
}

/// Whether `number` is a whole multiple of `divider`.
pub open spec fn is_multiple(number: int, divider: int) -> bool {
    divider != 0 && magnitude(number) % magnitude(divider) == 0
}

/// The quotient of `number` by `divider`, where the first is a multiple of
/// the second.
pub open spec fn quotient(number: int, divider: int) -> int {
    if (number < 0) == (divider < 0) {
        magnitude(number) / magnitude(divider)
    } else {
        -(magnitude(number) / magnitude(divider))
    }
}

/// How two integers compare.
pub open spec fn order_of(left: int, right: int) -> Ordering {
    if left < right {
        Ordering::Less
    } else if left > right {
        Ordering::Greater
    } else {
        Ordering::Equal
    }
}

/// The period that a frequency names; `OtherFrequency` names none.
pub open spec fn period_of(frequency: Frequency) -> Result<PeriodView, TimeError> {
    match frequency {
        Frequency::NoFrequency => Ok(PeriodView::of(0, TimeUnit::Days)),
        Frequency::Once => Ok(PeriodView::of(0, TimeUnit::Years)),
        Frequency::Annual => Ok(PeriodView::of(1, TimeUnit::Years)),
        Frequency::Semiannual => Ok(PeriodView::of(6, TimeUnit::Months)),
        Frequency::EveryFourthMonth => Ok(PeriodView::of(4, TimeUnit::Months)),
        Frequency::Quarterly => Ok(PeriodView::of(3, TimeUnit::Months)),
        Frequency::Bimonthly => Ok(PeriodView::of(2, TimeUnit::Months)),
        Frequency::Monthly => Ok(PeriodView::of(1, TimeUnit::Months)),
        Frequency::EveryFourthWeek => Ok(PeriodView::of(4, TimeUnit::Weeks)),
        Frequency::Biweekly => Ok(PeriodView::of(2, TimeUnit::Weeks)),
        Frequency::Weekly => Ok(PeriodView::of(1, TimeUnit::Weeks)),
        Frequency::Daily => Ok(PeriodView::of(1, TimeUnit::Days)),
        Frequency::OtherFrequency => Err(TimeError::UnknownFrequency),
    }
}

/// What becomes of a computed period when it is stored: a length that the
/// machine integer cannot hold is an overflow.
pub open spec fn stored(outcome: Result<PeriodView, TimeError>) -> Result<PeriodView, TimeError> {
    match outcome {
        Ok(period) => if period.fits() {
            Ok(period)
        } else {
            Err(TimeError::Overflow)
        },
        Err(error) => Err(error),
    }
}

/// Whether `result` gives what `outcome` asks for: a period that stands for
/// the one computed, or the error.
pub open spec fn answers(
    result: Result<Period, TimeError>,
    outcome: Result<PeriodView, TimeError>,
) -> bool {
    match outcome {
        Ok(period) => result matches Ok(made) && made@ == period,
        Err(error) => result == Err::<Period, TimeError>(error),
    }
}

/// Whether a period was changed in place as `outcome` asks: it now stands for
/// the one computed, or it is as it was and the error is returned.
pub open spec fn replaces(
    before: Period,
    after: Period,
    result: Result<(), TimeError>,
    outcome: Result<PeriodView, TimeError>,
) -> bool {
    match outcome {
        Ok(period) => result.is_ok() && after@ == period,
        Err(error) => result == Err::<(), TimeError>(error) && after == before,
    }
}

/// Whether `result` gives the fraction, or the error, that `outcome` asks
/// for.
pub open spec fn counts(
    result: Result<Fraction, TimeError>,
    outcome: Result<(int, int), TimeError>,
) -> bool {
    match outcome {
        Ok(ratio) => result matches Ok(fraction) && fraction.numerator == ratio.0
            && fraction.denominator == ratio.1,
        Err(error) => result == Err::<Fraction, TimeError>(error),
    }
}

impl PeriodView {
    /// The period of `length` times `units`.
    pub open spec fn of(length: int, units: TimeUnit) -> PeriodView {
        PeriodView { length, units }
    }

    /// Whether the length fits the machine integer of a [`Period`].
    pub open spec fn fits(self) -> bool {
        i32::MIN <= self.length <= i32::MAX
    }

    /// The length counted in the finer unit of the family.
    pub open spec fn base_length(self) -> int {
        self.length * self.units.per_base()
    }

    /// Whether the units of the two periods belong to one family.
    pub open spec fn same_family(self, other: PeriodView) -> bool {
        self.units.is_day_based() == other.units.is_day_based()
    }

    /// One step of reduction: a zero length is counted in days, a whole
    /// number of years in months becomes years, a whole number of weeks in
    /// days becomes weeks, and everything else stays.
    pub open spec fn normalized(self) -> PeriodView {
        if self.length == 0 {
            PeriodView { length: 0, units: TimeUnit::Days }
        } else if self.units == TimeUnit::Months && is_multiple(self.length, 12) {
            PeriodView { length: quotient(self.length, 12), units: TimeUnit::Years }
        } else if self.units == TimeUnit::Days && is_multiple(self.length, 7) {
            PeriodView { length: quotient(self.length, 7), units: TimeUnit::Weeks }
        } else {
            self
        }
    }

    /// The period of the opposite sign.
    pub open spec fn negated(self) -> PeriodView {
        PeriodView { length: -self.length, units: self.units }
    }

    /// The period `factor` times as long.
    pub open spec fn scaled(self, factor: int) -> PeriodView {
        PeriodView { length: self.length * factor, units: self.units }
    }

    /// The sum of two periods. A zero period takes on whatever is added to
    /// it. Equal units add up. Two units of one family add up in the finer
    /// one. Units of different families do not add up.
    pub open spec fn plus(self, other: PeriodView) -> Result<PeriodView, TimeError> {
        if self.length == 0 {
            Ok(other)
        } else if !self.same_family(other) {
            Err(TimeError::IncompatibleUnits)
        } else if self.units == other.units {
            Ok(PeriodView { length: self.length + other.length, units: self.units })
        } else {
            Ok(
                PeriodView {
                    length: self.base_length() + other.base_length(),
                    units: self.units.base(),
                },
            )
        }
    }

    /// The difference of two periods: the sum with the negation.
    pub open spec fn minus(self, other: PeriodView) -> Result<PeriodView, TimeError> {
        self.plus(other.negated())
    }

    /// The period divided by `divider`. Where the length is no multiple of
    /// the divider, the period is first counted in the finer unit of its
    /// family, once.
    pub open spec fn divided(self, divider: int) -> Result<PeriodView, TimeError> {
        if divider == 0 {
            Err(TimeError::DivisionByZero)
        } else if is_multiple(self.length, divider) {
            Ok(PeriodView { length: quotient(self.length, divider), units: self.units })
        } else if is_multiple(self.base_length(), divider) {
            Ok(
                PeriodView {
                    length: quotient(self.base_length(), divider),
                    units: self.units.base(),
                },
            )
        } else {
            Err(TimeError::InexactDivision)
        }
    }

    /// The least number of days that the period can span: a month has at
    /// least 28 days and a year at least 365, and of a negative length the
    /// least is the longest span backwards.
    pub open spec fn min_days(self) -> int {
        match self.units {
            TimeUnit::Days => self.length,
            TimeUnit::Weeks => self.length * 7,
            TimeUnit::Months => if self.length >= 0 {
                self.length * 28
            } else {
                self.length * 31
            },
            TimeUnit::Years => if self.length >= 0 {
                self.length * 365
            } else {
                self.length * 366
            },
        }
    }

    /// The greatest number of days that the period can span: a month has at
    /// most 31 days and a year at most 366.
    pub open spec fn max_days(self) -> int {
        match self.units {
            TimeUnit::Days => self.length,
            TimeUnit::Weeks => self.length * 7,
            TimeUnit::Months => if self.length >= 0 {
                self.length * 31
            } else {
                self.length * 28
            },
            TimeUnit::Years => if self.length >= 0 {
                self.length * 366
            } else {
                self.length * 365
            },
        }
    }

    /// How two periods compare. A zero period compares by the sign of the
    /// other. Periods of one family compare by their lengths in the finer
    /// unit. Periods of different families compare only where the spans of
    /// days that they can take do not meet.
    pub open spec fn compare(self, other: PeriodView) -> Result<Ordering, TimeError> {
        if self.length == 0 || other.length == 0 {
            Ok(order_of(self.length, other.length))
        } else if self.same_family(other) {
            Ok(order_of(self.base_length(), other.base_length()))
        } else if self.max_days() < other.min_days() {
            Ok(Ordering::Less)
        } else if self.min_days() > other.max_days() {
            Ok(Ordering::Greater)
        } else {
            Err(TimeError::UndecidableComparison)
        }
    }

    /// The frequency that the period names; the sign of the length does not
    /// count.
    pub open spec fn frequency(self) -> Frequency {
        let size = magnitude(self.length);
        if size == 0 {
            if self.units == TimeUnit::Years {
                Frequency::Once
            } else {
                Frequency::NoFrequency
            }
        } else {
            match self.units {
                TimeUnit::Years => if size == 1 {
                    Frequency::Annual
                } else {
                    Frequency::OtherFrequency
                },
                TimeUnit::Months => if size == 1 {
                    Frequency::Monthly
                } else if size == 2 {
                    Frequency::Bimonthly
                } else if size == 3 {
                    Frequency::Quarterly
                } else if size == 4 {
                    Frequency::EveryFourthMonth
                } else if size == 6 {
                    Frequency::Semiannual
                } else if size == 12 {
                    Frequency::Annual
                } else {
                    Frequency::OtherFrequency
                },
                TimeUnit::Weeks => if size == 1 {
                    Frequency::Weekly
                } else if size == 2 {
                    Frequency::Biweekly
                } else if size == 4 {
                    Frequency::EveryFourthWeek
                } else {
                    Frequency::OtherFrequency
                },
                TimeUnit::Days => if size == 1 {
                    Frequency::Daily
                } else {
                    Frequency::OtherFrequency
                },
            }
        }
    }

    /// The length counted in `target`, as numerator and denominator. A length
    /// converts within its family only, whatever it is: a zero length too is
    /// refused in a unit of the other family, and is zero in a unit of its
    /// own.
    pub open spec fn counted_in(self, target: TimeUnit) -> Result<(int, int), TimeError> {
        if self.units.is_day_based() != target.is_day_based() {
            Err(TimeError::IncompatibleUnits)
        } else if self.units == target {
            Ok((self.length, 1))
        } else if target == target.base() {
            Ok((self.base_length(), 1))
        } else {
            Ok((self.length, target.per_base()))
        }
    }

    /// The word for the unit after a length: the singular after 1 and the
    /// plural after every other length.
    pub open spec fn unit_word(self) -> Seq<char> {
        match self.units {
            TimeUnit::Days => if self.length == 1 {
                "Day"@
            } else {
                "Days"@
            },
            TimeUnit::Weeks => if self.length == 1 {
                "Week"@
            } else {
                "Weeks"@
            },
            TimeUnit::Months => if self.length == 1 {
                "Month"@
            } else {
                "Months"@
            },
            TimeUnit::Years => if self.length == 1 {
                "Year"@
            } else {
                "Years"@
            },
        }
    }

    /// The letter for the unit.
    pub open spec fn unit_letter(self) -> Seq<char> {
        match self.units {
            TimeUnit::Days => "D"@,
            TimeUnit::Weeks => "W"@,
            TimeUnit::Months => "M"@,
            TimeUnit::Years => "Y"@,
        }
    }

    /// The period in words: "3 Months", "1 Year".
    pub open spec fn long_text(self) -> Seq<char> {
        decimal(self.length) + " "@ + self.unit_word()
    }

    /// The period in short: "3M", "1Y".
    pub open spec fn short_text(self) -> Seq<char> {
        decimal(self.length) + self.unit_letter()
    }
}

impl View for Period {
    type V = PeriodView;

    closed spec fn view(&self) -> PeriodView {
        PeriodView { length: self.length as int, units: self.units }
    }
}

/// The numbers of months that divide the twelve months of a year, each with
/// its quotient.
proof fn lemma_months_in_a_year(months: int)
    requires
        1 <= months,
    ensures
        months <= 12 && 12int % months == 0 <==> months == 1 || months == 2 || months == 3
            || months == 4 || months == 6 || months == 12,
        months == 1 ==> 12int / months == 12,
        months == 2 ==> 12int / months == 6,
        months == 3 ==> 12int / months == 4,
        months == 4 ==> 12int / months == 3,
        months == 6 ==> 12int / months == 2,
        months == 12 ==> 12int / months == 1,
{
    if months == 1 {
        assert(12int % 1 == 0 && 12int / 1 == 12);
    } else if months == 2 {
        assert(12int % 2 == 0 && 12int / 2 == 6);
    } else if months == 3 {
        assert(12int % 3 == 0 && 12int / 3 == 4);
    } else if months == 4 {
        assert(12int % 4 == 0 && 12int / 4 == 3);
    } else if months == 5 {
        assert(12int % 5 == 2);
    } else if months == 6 {
        assert(12int % 6 == 0 && 12int / 6 == 2);
    } else if months == 7 {
        assert(12int % 7 == 5);
    } else if months == 8 {
        assert(12int % 8 == 4);
    } else if months == 9 {
        assert(12int % 9 == 3);
    } else if months == 10 {
        assert(12int % 10 == 2);
    } else if months == 11 {
        assert(12int % 11 == 1);
    } else if months == 12 {
        assert(12int % 12 == 0 && 12int / 12 == 1);
    }
}

/// `value` as a wider integer.
fn wide(value: i32) -> (widened: i64)
    ensures
        widened == value,
{
    value as i64
}

/// The quotient of `number` by `divider`, where the division leaves no
/// remainder.
fn exact_quotient(number: i64, divider: i64) -> (result: Option<i64>)
    requires
        divider != 0,
        i64::MIN < number,
        i64::MIN < divider,
    ensures
        is_multiple(number as int, divider as int) ==> result == Some(
            quotient(number as int, divider as int) as i64,
        ),
        !is_multiple(number as int, divider as int) ==> result.is_none(),
        magnitude(quotient(number as int, divider as int)) <= magnitude(number as int),
{
    let number_size: i64 = if number < 0 {
        -number
    } else {
        number
    };
    let divider_size: i64 = if divider < 0 {
        -divider
    } else {
        divider
    };
    assert(number_size / divider_size <= number_size) by (nonlinear_arith)
        requires
            number_size >= 0,
            divider_size > 0,
    ;
    if number_size % divider_size != 0 {
        None
    } else if (number < 0) == (divider < 0) {
        Some(number_size / divider_size)
    } else {
        Some(-(number_size / divider_size))
    }
}

/// How two integers compare.
fn order(left: i64, right: i64) -> (result: Ordering)
    ensures
        left < right ==> result == Ordering::Less,
        left > right ==> result == Ordering::Greater,
        left == right ==> result == Ordering::Equal,
{
    if left < right {
        Ordering::Less
    } else if left > right {
        Ordering::Greater
    } else {
        Ordering::Equal
    }
}

impl Period {
    /// A period of `length` times `units`.
    pub fn new(length: i32, units: TimeUnit) -> (period: Period)
        ensures
            period@.length == length,
            period@.units == units,
    {
        Period { length, units }
    }

    /// The period that `frequency` names. `OtherFrequency` names none.
    pub fn from_frequency(frequency: Frequency) -> (result: Result<Period, TimeError>)
        ensures
            answers(result, period_of(frequency)),
    {
        let count = frequency.occurrences();
        match frequency {
            Frequency::NoFrequency => Ok(Period::new(0, TimeUnit::Days)),
            Frequency::Once => Ok(Period::new(0, TimeUnit::Years)),
            Frequency::Annual => Ok(Period::new(1, TimeUnit::Years)),
            Frequency::Semiannual
            | Frequency::EveryFourthMonth
            | Frequency::Quarterly
            | Frequency::Bimonthly
            | Frequency::Monthly => Ok(Period::new(12 / count, TimeUnit::Months)),
            Frequency::EveryFourthWeek | Frequency::Biweekly | Frequency::Weekly => Ok(
                Period::new(52 / count, TimeUnit::Weeks),
            ),
            Frequency::Daily => Ok(Period::new(1, TimeUnit::Days)),
            Frequency::OtherFrequency => Err(TimeError::UnknownFrequency),
        }
    }

    /// The signed count.
    pub fn length(&self) -> (length: i32)
        ensures
            length == self@.length,
    {
        self.length
    }

    /// The unit that is counted.
    pub fn units(&self) -> (units: TimeUnit)
        ensures
            units == self@.units,
    {
        self.units
    }

    /// The frequency that the period names; the sign of the length does not
    /// count.
    pub fn frequency(&self) -> (frequency: Frequency)
        ensures
            frequency == self@.frequency(),
    {
        let length = self.length as i64;
        let size: i64 = if length < 0 {
            -length
        } else {
            length
        };
        if size == 0 {
            return match self.units {
                TimeUnit::Years => Frequency::Once,
                _ => Frequency::NoFrequency,
            };
        }
        match self.units {
            TimeUnit::Years => {
                if size == 1 {
                    Frequency::Annual
                } else {
                    Frequency::OtherFrequency
                }
            },
            TimeUnit::Months => {
                proof {
                    lemma_months_in_a_year(size as int);
                }
                if size <= 12 && 12 % size == 0 {
                    Frequency::from_nth_times_per_year((12 / size) as u32)
                } else {
                    Frequency::OtherFrequency
                }
            },
            TimeUnit::Weeks => match size {
                1 => Frequency::Weekly,
                2 => Frequency::Biweekly,
                4 => Frequency::EveryFourthWeek,
                _ => Frequency::OtherFrequency,
            },
            TimeUnit::Days => {
                if size == 1 {
                    Frequency::Daily
                } else {
                    Frequency::OtherFrequency
                }
            },
        }
    }

    /// Reduces the period by one step: see [`PeriodView::normalized`].
    pub fn normalize(&mut self)
        ensures
            final(self)@ == old(self)@.normalized(),
    {
        if self.length == 0 {
            self.units = TimeUnit::Days;
        } else {
            match self.units {
                TimeUnit::Months => {
                    if let Some(years) = exact_quotient(self.length as i64, 12) {
                        self.length = years as i32;
                        self.units = TimeUnit::Years;
                    }
                },
                TimeUnit::Days => {
                    if let Some(weeks) = exact_quotient(self.length as i64, 7) {
                        self.length = weeks as i32;
                        self.units = TimeUnit::Weeks;
                    }
                },
                TimeUnit::Weeks | TimeUnit::Years => {},
            }
        }
    }

    /// The period reduced by one step.
    pub fn normalized(&self) -> (period: Period)
        ensures
            period@ == self@.normalized(),
    {
        let mut period: Period = *self;
        period.normalize();
        period
    }

    /// The least and the greatest number of days that the period can span.
    pub fn days_min_max(period: &Period) -> (range: (i64, i64))
        ensures
            range.0 == period@.min_days(),
            range.1 == period@.max_days(),
            range.0 <= range.1,
    {
        let length = period.length as i64;
        match period.units {
            TimeUnit::Days => (length, length),
            TimeUnit::Weeks => (length * 7, length * 7),
            TimeUnit::Months => {
                if length >= 0 {
                    (length * 28, length * 31)
                } else {
                    (length * 31, length * 28)
                }
            },
            TimeUnit::Years => {
                if length >= 0 {
                    (length * 365, length * 366)
                } else {
                    (length * 366, length * 365)
                }
            },
        }
    }

    /// The length counted in the finer unit of the family.
    fn base_length(&self) -> (length: i64)
        ensures
            length == self@.base_length(),
    {
        match self.units {
            TimeUnit::Days | TimeUnit::Months => self.length as i64,
            TimeUnit::Weeks => self.length as i64 * 7,
            TimeUnit::Years => self.length as i64 * 12,
        }
    }

    /// Whether the unit is counted in days.
    fn day_based(&self) -> (answer: bool)
        ensures
            answer == self@.units.is_day_based(),
    {
        match self.units {
            TimeUnit::Days | TimeUnit::Weeks => true,
            TimeUnit::Months | TimeUnit::Years => false,
        }
    }

    /// How the period compares with `other`; refused where the answer would
    /// be a guess.
    pub fn partial_cmp(&self, other: &Period) -> (result: Result<Ordering, TimeError>)
        ensures
            result == self@.compare(other@),
    {
        if self.length == 0 || other.length == 0 {
            return Ok(order(wide(self.length), wide(other.length)));
        }
        if self.day_based() == other.day_based() {
            return Ok(order(self.base_length(), other.base_length()));
        }
        let (self_min, self_max) = Period::days_min_max(self);
        let (other_min, other_max) = Period::days_min_max(other);
        if self_max < other_min {
            Ok(Ordering::Less)
        } else if self_min > other_max {
            Ok(Ordering::Greater)
        } else {
            Err(TimeError::UndecidableComparison)
        }
    }

    /// Stores a computed length and unit, where the length fits.
    fn store(&mut self, length: i64, units: TimeUnit) -> (result: Result<(), TimeError>)
        ensures
            replaces(
                *old(self),
                *final(self),
                result,
                stored(Ok(PeriodView::of(length as int, units))),
            ),
    {
        if length < -0x8000_0000 || length > 0x7fff_ffff {
            Err(TimeError::Overflow)
        } else {
            self.length = length as i32;
            self.units = units;
            Ok(())
        }
    }

    /// Adds a period given by its length and unit.
    fn combine(&mut self, length: i64, units: TimeUnit) -> (result: Result<(), TimeError>)
        requires
            -0x8000_0000 <= length <= 0x8000_0000,
        ensures
            replaces(
                *old(self),
                *final(self),
                result,
                stored(old(self)@.plus(PeriodView::of(length as int, units))),
            ),
    {
        let own = self.length as i64;
        if own == 0 {
            return self.store(length, units);
        }
        match self.units {
            TimeUnit::Years => match units {
                TimeUnit::Years => self.store(own + length, TimeUnit::Years),
                TimeUnit::Months => self.store(own * 12 + length, TimeUnit::Months),
                TimeUnit::Weeks | TimeUnit::Days => Err(TimeError::IncompatibleUnits),
            },
            TimeUnit::Months => match units {
                TimeUnit::Months => self.store(own + length, TimeUnit::Months),
                TimeUnit::Years => self.store(own + 12 * length, TimeUnit::Months),
                TimeUnit::Weeks | TimeUnit::Days => Err(TimeError::IncompatibleUnits),
            },
            TimeUnit::Weeks => match units {
                TimeUnit::Weeks => self.store(own + length, TimeUnit::Weeks),
                TimeUnit::Days => self.store(own * 7 + length, TimeUnit::Days),
                TimeUnit::Years | TimeUnit::Months => Err(TimeError::IncompatibleUnits),
            },
            TimeUnit::Days => match units {
                TimeUnit::Days => self.store(own + length, TimeUnit::Days),
                TimeUnit::Weeks => self.store(own + 7 * length, TimeUnit::Days),
                TimeUnit::Years | TimeUnit::Months => Err(TimeError::IncompatibleUnits),
            },
        }
    }

    /// Adds `rhs` to the period: see [`PeriodView::plus`]. A sum that does not
    /// fit is an overflow. Where the sum is refused the period stays as it
    /// was.
    pub fn add_assign(&mut self, rhs: Period) -> (result: Result<(), TimeError>)
        ensures
            replaces(*old(self), *final(self), result, stored(old(self)@.plus(rhs@))),
    {
        self.combine(rhs.length as i64, rhs.units)
    }

    /// The sum of the period and `rhs`.
    pub fn add(self, rhs: Period) -> (result: Result<Period, TimeError>)
        ensures
            answers(result, stored(self@.plus(rhs@))),
    {
        let mut sum = self;
        match sum.add_assign(rhs) {
            Ok(()) => Ok(sum),
            Err(error) => Err(error),
        }
    }

    /// The period of the opposite sign.
    pub fn neg(self) -> (result: Result<Period, TimeError>)
        ensures
            answers(result, stored(Ok(self@.negated()))),
    {
        if self.length == i32::MIN {
            Err(TimeError::Overflow)
        } else {
            Ok(Period { length: -self.length, units: self.units })
        }
    }

    /// Subtracts `rhs` from the period: adds its negation.
    pub fn sub_assign(&mut self, rhs: Period) -> (result: Result<(), TimeError>)
        ensures
            replaces(*old(self), *final(self), result, stored(old(self)@.minus(rhs@))),
    {
        self.combine(-(rhs.length as i64), rhs.units)
    }

    /// The difference of the period and `rhs`.
    pub fn sub(self, rhs: Period) -> (result: Result<Period, TimeError>)
        ensures
            answers(result, stored(self@.minus(rhs@))),
    {
        let mut difference = self;
        match difference.sub_assign(rhs) {
            Ok(()) => Ok(difference),
            Err(error) => Err(error),
        }
    }

    /// Multiplies the length by `multiplier`.
    pub fn mul_assign(&mut self, multiplier: i32) -> (result: Result<(), TimeError>)
        ensures
            replaces(
                *old(self),
                *final(self),
                result,
                stored(Ok(old(self)@.scaled(multiplier as int))),
            ),
    {
        let own = self.length as i64;
        let factor = multiplier as i64;
        assert(-0x4000_0000_0000_0000 <= own * factor <= 0x4000_0000_0000_0000)
            by (nonlinear_arith)
            requires
                -0x8000_0000 <= own <= 0x7fff_ffff,
                -0x8000_0000 <= factor <= 0x7fff_ffff,
        ;
        let units = self.units;
        self.store(own * factor, units)
    }

    /// Divides the period by `divider`: see [`PeriodView::divided`].
    pub fn div_assign(&mut self, divider: i32) -> (result: Result<(), TimeError>)
        ensures
            replaces(*old(self), *final(self), result, stored(old(self)@.divided(divider as int))),
    {
        if divider == 0 {
            return Err(TimeError::DivisionByZero);
        }
        let own = self.length as i64;
        let units = self.units;
        match exact_quotient(own, divider as i64) {
            Some(length) => self.store(length, units),
            None => {
                let expanded = self.base_length();
                let finer = match units {
                    TimeUnit::Days | TimeUnit::Weeks => TimeUnit::Days,
                    TimeUnit::Months | TimeUnit::Years => TimeUnit::Months,
                };
                match exact_quotient(expanded, divider as i64) {
                    Some(length) => self.store(length, finer),
                    None => Err(TimeError::InexactDivision),
                }
            },
        }
    }

    /// The period divided by `divider`.
    pub fn div(self, divider: i32) -> (result: Result<Period, TimeError>)
        ensures
            answers(result, stored(self@.divided(divider as int))),
    {
        let mut part = self;
        match part.div_assign(divider) {
            Ok(()) => Ok(part),
            Err(error) => Err(error),
        }
    }

    /// The length counted in `target`: see [`PeriodView::counted_in`].
    fn count_in(&self, target: TimeUnit) -> (result: Result<Fraction, TimeError>)
        ensures
            counts(result, self@.counted_in(target)),
    {
        let own = self.length as i64;
        match (self.units, target) {
            (TimeUnit::Days, TimeUnit::Days)
            | (TimeUnit::Weeks, TimeUnit::Weeks)
            | (TimeUnit::Months, TimeUnit::Months)
            | (TimeUnit::Years, TimeUnit::Years) => Ok(Fraction { numerator: own, denominator: 1 }),
            (TimeUnit::Weeks, TimeUnit::Days) => Ok(Fraction { numerator: own * 7, denominator: 1 }),
            (TimeUnit::Days, TimeUnit::Weeks) => Ok(Fraction { numerator: own, denominator: 7 }),
            (TimeUnit::Years, TimeUnit::Months) => Ok(
                Fraction { numerator: own * 12, denominator: 1 },
            ),
            (TimeUnit::Months, TimeUnit::Years) => Ok(Fraction { numerator: own, denominator: 12 }),
            _ => Err(TimeError::IncompatibleUnits),
        }
    }

    /// The length in years, as an exact fraction; refused for a period of
    /// days or weeks, whatever its length.
    pub fn years(&self) -> (result: Result<Fraction, TimeError>)
        ensures
            counts(result, self@.counted_in(TimeUnit::Years)),
    {
        self.count_in(TimeUnit::Years)
    }

    /// The length in months, as an exact fraction; refused for a period of
    /// days or weeks, whatever its length.
    pub fn months(&self) -> (result: Result<Fraction, TimeError>)
        ensures
            counts(result, self@.counted_in(TimeUnit::Months)),
    {
        self.count_in(TimeUnit::Months)
    }

    /// The length in weeks, as an exact fraction; refused for a period of
    /// months or years, whatever its length.
    pub fn weeks(&self) -> (result: Result<Fraction, TimeError>)
        ensures
            counts(result, self@.counted_in(TimeUnit::Weeks)),
    {
        self.count_in(TimeUnit::Weeks)
    }

    /// The length in days, as an exact fraction; refused for a period of
    /// months or years, whatever its length.
    pub fn days(&self) -> (result: Result<Fraction, TimeError>)
        ensures
            counts(result, self@.counted_in(TimeUnit::Days)),
    {
        self.count_in(TimeUnit::Days)
    }

    /// The text that stands for the period when it is printed: its short
    /// form.
    pub fn to_string(&self) -> (text: String)
        ensures
            text@ == self@.short_text(),
    {
        short_period(self)
    }
}

/// The period in words: the length, a space, and the unit, in the singular
/// after 1.
pub fn long_period(period: &Period) -> (text: String)
    ensures
        text@ == period@.long_text(),
{
    let word: &'static str = match period.units {
        TimeUnit::Days => if period.length == 1 {
            "Day"
        } else {
            "Days"
        },
        TimeUnit::Weeks => if period.length == 1 {
            "Week"
        } else {
            "Weeks"
        },
        TimeUnit::Months => if period.length == 1 {
            "Month"
        } else {
            "Months"
        },
        TimeUnit::Years => if period.length == 1 {
            "Year"
        } else {
            "Years"
        },
    };
    let mut text = String::new();
    append_decimal(&mut text, period.length as i64);
    text.append(" ");
    text.append(word);
    text
}

/// The period in short: the length and the letter of the unit.
pub fn short_period(period: &Period) -> (text: String)
    ensures
        text@ == period@.short_text(),
{
    let letter: &'static str = match period.units {
        TimeUnit::Days => "D",
        TimeUnit::Weeks => "W",
        TimeUnit::Months => "M",
        TimeUnit::Years => "Y",
    };
    let mut text = String::new();
    append_decimal(&mut text, period.length as i64);
    text.append(letter);
    text
}

/// Two periods that stand for one mathematical period are one period.
pub proof fn lemma_same_period(left: Period, right: Period)
    requires
        left@ == right@,
    ensures
        left == right,
{
}

/// Where a number is a multiple of a divider, the quotient times the divider
/// is the number.
pub proof fn lemma_quotient(number: int, divider: int)
    requires
        is_multiple(number, divider),
    ensures
        quotient(number, divider) * divider == number,
{
    let size = magnitude(number);
    let unit = magnitude(divider);
    let count = size / unit;
    lemma_fundamental_div_mod(size, unit);
    assert(quotient(number, divider) * divider == number) by (nonlinear_arith)
        requires
            size == unit * count,
            size == magnitude(number),
            unit == magnitude(divider),
            quotient(number, divider) == if (number < 0) == (divider < 0) {
                count
            } else {
                -count
            },
    ;
}

/// A product is a multiple of each factor that is not zero, and the quotient
/// by that factor is the other one.
pub proof fn lemma_multiple(count: int, divider: int)
    requires
        divider != 0,
    ensures
        is_multiple(count * divider, divider),
        quotient(count * divider, divider) == count,
{
    let size = magnitude(count);
    let unit = magnitude(divider);
    let number = count * divider;
    assert(magnitude(number) == size * unit && magnitude(number) == unit * size && (number < 0
        <==> (count < 0) != (divider < 0) && count != 0)) by (nonlinear_arith)
        requires
            number == count * divider,
            divider != 0,
            size == if count < 0 {
                -count
            } else {
                count
            },
            unit == if divider < 0 {
                -divider
            } else {
                divider
            },
            magnitude(number) == if number < 0 {
                -number
            } else {
                number
            },
    ;
    lemma_mod_multiples_basic(size, unit);
    lemma_div_multiples_vanish(size, unit);
}

/// Every frequency but `OtherFrequency` names a period, and that period
/// names the frequency.
pub proof fn lemma_frequency_round_trip(frequency: Frequency)
    requires
        frequency != Frequency::OtherFrequency,
    ensures
        period_of(frequency) matches Ok(period) && period.frequency() == frequency,
{
}

/// Reduction keeps the length: the reduced period is as long as the period,
/// counted in the finer unit of the family, and stays in its family unless
/// its length is zero. Reducing twice is reducing once.
pub proof fn lemma_normalized_keeps_length(period: PeriodView)
    ensures
        period.normalized().base_length() == period.base_length(),
        period.length != 0 ==> period.normalized().same_family(period),
        period.normalized().normalized() == period.normalized(),
{
    if period.length != 0 {
        if period.units == TimeUnit::Months && is_multiple(period.length, 12) {
            lemma_quotient(period.length, 12);
        }
        if period.units == TimeUnit::Days && is_multiple(period.length, 7) {
            lemma_quotient(period.length, 7);
        }
    }
}

/// A part times the divider is the whole, counted in the finer unit of the
/// family.
pub proof fn lemma_divided_times_divider(period: PeriodView, divider: int)
    ensures
        period.divided(divider) matches Ok(part) ==> part.base_length() * divider
            == period.base_length() && part.same_family(period),
{
    if divider != 0 {
        if is_multiple(period.length, divider) {
            lemma_quotient(period.length, divider);
            let part = quotient(period.length, divider);
            let factor = period.units.per_base();
            assert((part * factor) * divider == (part * divider) * factor) by (nonlinear_arith);
        } else if is_multiple(period.base_length(), divider) {
            lemma_quotient(period.base_length(), divider);
        }
    }
}

/// A length counted in a unit of its family is the same length: the fraction
/// times the unit is the period, both counted in the finer unit of the
/// family. A unit of the other family is refused, for a zero length too.
pub proof fn lemma_counted_in(period: PeriodView, target: TimeUnit)
    ensures
        period.units.is_day_based() != target.is_day_based() ==> period.counted_in(target) == Err::<
            (int, int),
            TimeError,
        >(TimeError::IncompatibleUnits),
        period.counted_in(target) matches Ok(ratio) ==> ratio.1 > 0 && ratio.0 * target.per_base()
            == period.base_length() * ratio.1 && (period.length == 0 ==> ratio.0 == 0),
{
}

/// Comparison turns round with its operands: one period is less than another
/// where the other is greater than the one, and the two compare in one
/// direction where they compare in the other.
pub proof fn lemma_compare_antisymmetric(left: PeriodView, right: PeriodView)
    ensures
        left.compare(right) == Ok::<Ordering, TimeError>(Ordering::Less) <==> right.compare(left)
            == Ok::<Ordering, TimeError>(Ordering::Greater),
        left.compare(right) == Ok::<Ordering, TimeError>(Ordering::Equal) <==> right.compare(left)
            == Ok::<Ordering, TimeError>(Ordering::Equal),
        left.compare(right).is_err() <==> right.compare(left).is_err(),
        left.compare(left) == Ok::<Ordering, TimeError>(Ordering::Equal),
{
}

/// A comparison across families is never a guess: where it says less, every
/// number of days that the one period can span is below every number that
/// the other can span.
pub proof fn lemma_compare_sound(left: PeriodView, right: PeriodView, span: int, other: int)
    requires
        left.length != 0,
        right.length != 0,
        !left.same_family(right),
        left.min_days() <= span <= left.max_days(),
        right.min_days() <= other <= right.max_days(),
    ensures
        left.compare(right) == Ok::<Ordering, TimeError>(Ordering::Less) ==> span < other,
        left.compare(right) == Ok::<Ordering, TimeError>(Ordering::Greater) ==> span > other,
{
}

} // verus!
