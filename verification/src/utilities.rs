//! Text helpers shared by the formatters.

pub mod dateformatter;
pub mod decimal;
