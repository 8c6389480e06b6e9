//! The functions that render dates, periods, weekdays and ordinals as text.

pub use crate::time::date::{formatted_date, iso_date, long_date, short_date};
pub use crate::time::period::{long_period, short_period};
pub use crate::time::weekday::{long_weekday, short_weekday, shortest_weekday};
pub use crate::utilities::dateformatter::ordinal;
