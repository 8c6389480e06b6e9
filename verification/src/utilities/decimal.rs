//! Decimal notation for integers.

use vstd::prelude::*;

verus! {

/// The character of a decimal digit.
pub open spec fn digit(value: int) -> char {
    if value == 0 {
        '0'
    } else if value == 1 {
        '1'
    } else if value == 2 {
        '2'
    } else if value == 3 {
        '3'
    } else if value == 4 {
        '4'
    } else if value == 5 {
        '5'
    } else if value == 6 {
        '6'
    } else if value == 7 {
        '7'
    } else if value == 8 {
        '8'
    } else {
        '9'
    }
}

/// The decimal digits of a natural number, without leading zeros.
pub open spec fn digits(number: nat) -> Seq<char>
    decreases number,
{
    if number < 10 {
        seq![digit(number as int)]
    } else {
        digits(number / 10).push(digit((number % 10) as int))
    }
}

/// The decimal notation of an integer, with a minus sign where it is
/// negative.
pub open spec fn decimal(number: int) -> Seq<char> {
    if number < 0 {
        seq!['-'] + digits((-number) as nat)
    } else {
        digits(number as nat)
    }
}

/// The decimal digits of a natural number, with zeros in front of them where
/// they are fewer than `width`.
pub open spec fn zero_padded(number: nat, width: nat) -> Seq<char>
    decreases width,
{
    if digits(number).len() >= width {
        digits(number)
    } else {
        seq!['0'] + zero_padded(number, (width - 1) as nat)
    }
}

/// The text of one decimal digit.
fn digit_text(value: u64) -> (text: &'static str)
    requires
        value < 10,
    ensures
        text@ == seq![digit(value as int)],
{
    proof {
        reveal_strlit("0");
        reveal_strlit("1");
        reveal_strlit("2");
        reveal_strlit("3");
        reveal_strlit("4");
        reveal_strlit("5");
        reveal_strlit("6");
        reveal_strlit("7");
        reveal_strlit("8");
        reveal_strlit("9");
    }
    let text: &'static str = match value {
        0 => "0",
        1 => "1",
        2 => "2",
        3 => "3",
        4 => "4",
        5 => "5",
        6 => "6",
        7 => "7",
        8 => "8",
        _ => "9",
    };
    text
}

/// The number of decimal digits of `number`.
fn digit_count(number: u64) -> (count: usize)
    ensures
        count == digits(number as nat).len(),
        1 <= count <= 20,
    decreases number,
{
    if number < 10 {
        1
    } else {
        proof {
            lemma_digits_bound(number as nat);
        }
        digit_count(number / 10) + 1
    }
}

/// A number below ten to the power of twenty has at most twenty digits.
proof fn lemma_digits_bound(number: nat)
    requires
        number <= u64::MAX,
    ensures
        1 <= digits(number).len() <= 20,
{
    reveal_with_fuel(digits, 21);
}

/// Appends the decimal digits of `number` to `text`.
pub fn append_digits(text: &mut String, number: u64)
    ensures
        final(text)@ == old(text)@ + digits(number as nat),
    decreases number,
{
    if number >= 10 {
        append_digits(text, number / 10);
    }
    text.append(digit_text(number % 10));
}

/// Appends the decimal notation of `number` to `text`.
pub fn append_decimal(text: &mut String, number: i64)
    ensures
        final(text)@ == old(text)@ + decimal(number as int),
{
    if number < 0 {
        proof {
            reveal_strlit("-");
        }
        text.append("-");
        let magnitude: u64 = if number == i64::MIN {
            0x8000_0000_0000_0000u64
        } else {
            (-number) as u64
        };
        append_digits(text, magnitude);
    } else {
        append_digits(text, number as u64);
    }
}

/// Appends the decimal digits of `number` to `text`, after as many zeros as
/// it takes to fill `width` places.
pub fn append_zero_padded(text: &mut String, number: u64, width: usize)
    ensures
        final(text)@ == old(text)@ + zero_padded(number as nat, width as nat),
{
    let count = digit_count(number);
    let mut remaining = width;
    let ghost before = text@;
    while remaining > count
        invariant
            count == digits(number as nat).len(),
            remaining <= width,
            text@ + zero_padded(number as nat, remaining as nat) == before + zero_padded(
                number as nat,
                width as nat,
            ),
        decreases remaining,
    {
        proof {
            reveal_strlit("0");
            assert((text@ + "0"@) + zero_padded(number as nat, (remaining - 1) as nat) =~= text@
                + zero_padded(number as nat, remaining as nat));
        }
        text.append("0");
        remaining = remaining - 1;
    }
    append_digits(text, number);
}

} // verus!
