//! A calendar engine: dates stored as serial day numbers, calendar-relative
//! periods, and the frequencies that name the common periods.
//!
//! Every executable function carries a contract, those of the date codec
//! stated over the calendar model of [`time::calendar`], and the contracts
//! are proved. One call into the `chrono` crate is taken on trust: it stands
//! in [`time::host`].

pub mod io;
pub mod time;
pub mod utilities;
