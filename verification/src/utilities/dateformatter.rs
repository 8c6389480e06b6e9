//! English ordinals.

use crate::utilities::decimal::{append_digits, digits};
use vstd::prelude::*;

verus! {

/// The suffix that turns a number into an English ordinal: "th" for numbers
/// that end in 11, 12 or 13, else "st", "nd" or "rd" for numbers that end in
/// 1, 2 or 3, and "th" for all others.
pub open spec fn ordinal_suffix(number: nat) -> Seq<char> {
    if 11 <= number % 100 <= 13 {
        "th"@
    } else if number % 10 == 1 {
        "st"@
    } else if number % 10 == 2 {
        "nd"@
    } else if number % 10 == 3 {
        "rd"@
    } else {
        "th"@
    }
}

/// The English ordinal of a number in digits: "1st", "2nd", "11th".
pub open spec fn ordinal_text(number: nat) -> Seq<char> {
    digits(number) + ordinal_suffix(number)
}

/// The English ordinal of `number` in digits.
pub fn ordinal(number: usize) -> (text: String)
    ensures
        text@ == ordinal_text(number as nat),
{
    let suffix: &'static str = if 11 <= number % 100 && number % 100 <= 13 {
        "th"
    } else {
        match number % 10 {
            1 => "st",
            2 => "nd",
            3 => "rd",
            _ => "th",
        }
    };
    let mut text = String::new();
    append_digits(&mut text, number as u64);
    text.append(suffix);
    text
}

} // verus!
