//! Dates, weekdays, periods and frequencies.

pub mod calendar;
pub mod date;
pub mod error;
pub mod frequency;
pub mod host;
pub mod period;
pub mod time_unit;
pub mod weekday;
