//! The failure kinds of the calendar engine.

use vstd::prelude::*;

verus! {

/// Why an operation on a date, a weekday, a period or a frequency was refused.
#[derive(Clone, Copy, Debug, PartialEq, Eq, Structural)]
pub enum TimeError {
    /// A year outside the range that the operation supports.
    YearOutOfRange,
    /// A month ordinal outside the range that the operation supports.
    MonthOutOfRange,
    /// A day that the month does not have.
    DayOutOfRange,
    /// A weekday ordinal outside `1..=7`.
    WeekdayOutOfRange,
    /// A serial number outside the supported range of dates.
    SerialOutOfRange,
    /// An occurrence count outside `1..=5`.
    OccurrenceOutOfRange,
    /// A format string that cannot be rendered for a calendar date.
    UnsupportedFormat,
    /// Two periods whose units belong to different families.
    IncompatibleUnits,
    /// A division by zero.
    DivisionByZero,
    /// A division that leaves a remainder even after one unit expansion.
    InexactDivision,
    /// Two periods whose possible lengths in days overlap.
    UndecidableComparison,
    /// A frequency that names no period.
    UnknownFrequency,
    /// A length that does not fit the machine integer.
    Overflow,
}

} // verus!
