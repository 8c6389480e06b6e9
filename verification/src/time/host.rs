//! What the library takes from the `chrono` crate: the rendering of a date
//! by a format string. The call is not proved; its contract says what is
//! taken on trust.

use chrono::NaiveDate;
use vstd::prelude::*;

verus! {

/// The text that `chrono` renders for day `day` of month `month` of `year`
/// under the strftime-style `format`. It is `None` where `chrono` knows no
/// such day, and where the format holds an item that `chrono` does not know
/// or that asks for more than a date: a time of day, or an offset.
pub uninterp spec fn strftime_text(year: int, month: int, day: int, format: Seq<char>) -> Option<
    Seq<char>,
>;

/// The characters of a text, where there is one.
pub open spec fn text_of(text: Option<String>) -> Option<Seq<char>> {
    match text {
        Some(text) => Some(text@),
        None => None,
    }
}

/// Renders a calendar date with `chrono`: `NaiveDate::from_ymd_opt` makes the
/// date, `NaiveDate::format` takes the format and `DelayedFormat::write_to`
/// writes the text. The first returns `None` for a day that does not exist,
/// the last fails on a format item that it cannot serve; both show here as
/// `None`. The contract claims only that the result is the same for the same
/// arguments, under the name [`strftime_text`].
#[verifier::external_body]
pub(crate) fn strftime(year: i32, month: u32, day: u32, format: &str) -> (result: Option<String>)
    ensures
        text_of(result) == strftime_text(year as int, month as int, day as int, format@),
{
    let date = NaiveDate::from_ymd_opt(year, month, day)?;
    let mut text = String::new();
    match date.format(format).write_to(&mut text) {
        Ok(()) => Some(text),
        Err(_) => None,
    }
}

} // verus!
