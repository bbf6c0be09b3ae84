//! The characters that stand for numbers and date-times: decimal digits,
//! zero-padded fields, and the three forms in which a chosen value is
//! handed back.

use crate::calendar::CivilDateTime;
use vstd::prelude::*;
use vstd::string::StringExecFns;

verus! {

/// The character of a decimal digit, for `digit` in `0..=9`.
pub open spec fn digit_char(digit: int) -> char {
    if digit == 0 {
        '0'
    } else if digit == 1 {
        '1'
    } else if digit == 2 {
        '2'
    } else if digit == 3 {
        '3'
    } else if digit == 4 {
        '4'
    } else if digit == 5 {
        '5'
    } else if digit == 6 {
        '6'
    } else if digit == 7 {
        '7'
    } else if digit == 8 {
        '8'
    } else {
        '9'
    }
}

/// A number in decimal, without sign or padding.
pub open spec fn decimal_text(n: nat) -> Seq<char>
    decreases n,
{
    if n < 10 {
        seq![digit_char(n as int)]
    } else {
        decimal_text(n / 10).push(digit_char((n % 10) as int))
    }
}

/// A number in decimal, with a minus sign if it is negative.
pub open spec fn signed_text(n: int) -> Seq<char> {
    if n < 0 {
        seq!['-'] + decimal_text((-n) as nat)
    } else {
        decimal_text(n as nat)
    }
}

/// A number below 100 as two digits.
pub open spec fn two_digits(n: int) -> Seq<char> {
    seq![digit_char(n / 10), digit_char(n % 10)]
}

/// A number in decimal, filled up with zeros in front to four digits.
pub open spec fn four_or_more_digits(n: nat) -> Seq<char> {
    if n < 10 {
        seq!['0', '0', '0'] + decimal_text(n)
    } else if n < 100 {
        seq!['0', '0'] + decimal_text(n)
    } else if n < 1000 {
        seq!['0'] + decimal_text(n)
    } else {
        decimal_text(n)
    }
}

/// A year as it is written in a date: four digits from 0 to 9999, and
/// otherwise a sign followed by four digits or more.
pub open spec fn year_text(year: int) -> Seq<char> {
    if 0 <= year <= 9999 {
        four_or_more_digits(year as nat)
    } else if year < 0 {
        seq!['-'] + four_or_more_digits((-year) as nat)
    } else {
        seq!['+'] + four_or_more_digits(year as nat)
    }
}

/// The date of `v` as year, month and day, joined by hyphens.
pub open spec fn date_text(v: CivilDateTime) -> Seq<char> {
    year_text(v.year as int) + seq!['-'] + two_digits(v.month as int) + seq!['-'] + two_digits(
        v.day as int,
    )
}

/// The time of day of `v` as hour, minute and second, joined by colons.
pub open spec fn time_text(v: CivilDateTime) -> Seq<char> {
    two_digits(v.hour as int) + seq![':'] + two_digits(v.minute as int) + seq![':'] + two_digits(
        v.second as int,
    )
}

/// `v` as a timestamp in UTC: date, `T`, time of day, `Z`.
pub open spec fn timestamp_text(v: CivilDateTime) -> Seq<char> {
    date_text(v) + seq!['T'] + time_text(v) + seq!['Z']
}

/// The short English name of a day of the week, counted from Monday as 0.
pub open spec fn weekday_text(index: int) -> Seq<char> {
    if index == 0 {
        seq!['M', 'o', 'n']
    } else if index == 1 {
        seq!['T', 'u', 'e']
    } else if index == 2 {
        seq!['W', 'e', 'd']
    } else if index == 3 {
        seq!['T', 'h', 'u']
    } else if index == 4 {
        seq!['F', 'r', 'i']
    } else if index == 5 {
        seq!['S', 'a', 't']
    } else {
        seq!['S', 'u', 'n']
    }
}

/// `text` between the escape sequence that switches the terminal attribute
/// `code` on and the one that resets all attributes.
pub open spec fn attributed(code: char, text: Seq<char>) -> Seq<char> {
    seq!['\u{1b}', '[', code, 'm'] + text + seq!['\u{1b}', '[', '0', 'm']
}

/// Whether `out` shows `text` with the terminal attribute `code`: wrapped
/// in its escape sequences, or bare where styling is switched off.
pub open spec fn shows_with(out: Seq<char>, code: char, text: Seq<char>) -> bool {
    out == text || out == attributed(code, text)
}

/// The one-character text of a decimal digit.
pub fn digit_str(digit: u32) -> (r: &'static str)
    requires
        digit < 10,
    ensures
        r@ == seq![digit_char(digit as int)],
{
    proof {
        reveal_strlit("0");
        reveal_strlit("1");
        reveal_strlit("2");
        reveal_strlit("3");
        reveal_strlit("4");
        reveal_strlit("5");
        reveal_strlit("6");
        reveal_strlit("7");
        reveal_strlit("8");
        reveal_strlit("9");
    }
    let r = if digit == 0 {
        "0"
    } else if digit == 1 {
        "1"
    } else if digit == 2 {
        "2"
    } else if digit == 3 {
        "3"
    } else if digit == 4 {
        "4"
    } else if digit == 5 {
        "5"
    } else if digit == 6 {
        "6"
    } else if digit == 7 {
        "7"
    } else if digit == 8 {
        "8"
    } else {
        "9"
    };
    assert(r@ =~= seq![digit_char(digit as int)]);
    r
}

/// Appends `n` in decimal to `out`.
pub fn push_decimal(out: &mut String, n: u32)
    ensures
        final(out)@ == old(out)@ + decimal_text(n as nat),
    decreases n,
{
    if n >= 10 {
        push_decimal(out, n / 10);
    }
    out.append(digit_str(n % 10));
    assert(out@ =~= old(out)@ + decimal_text(n as nat));
}

/// `n` in decimal, with a minus sign if it is negative.
pub fn signed_string(n: i32) -> (r: String)
    ensures
        r@ == signed_text(n as int),
{
    let mut out = String::new();
    if n < 0 {
        proof {
            reveal_strlit("-");
        }
        out.append("-");
        let wide: i64 = n as i64;
        push_decimal(&mut out, (-wide) as u32);
    } else {
        push_decimal(&mut out, n as u32);
    }
    assert(out@ =~= signed_text(n as int));
    out
}

/// `n` as two digits.
pub fn two_digit_string(n: u32) -> (r: String)
    requires
        n < 100,
    ensures
        r@ == two_digits(n as int),
{
    let mut out = String::new();
    out.append(digit_str(n / 10));
    out.append(digit_str(n % 10));
    assert(out@ =~= two_digits(n as int));
    out
}

} // verus!
