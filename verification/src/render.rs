//! Writing integers in decimal, and the report line.

use crate::parse::{
    all_digits, digit_value, digits_value, is_digit, parse_integer, unsigned_part, ParseFailure,
};
use crate::whitespace::lemma_trim_is_subrange;
use vstd::prelude::*;

verus! {

/// The character for the digit `d`.
pub open spec fn digit_char(d: int) -> char
    recommends
        0 <= d <= 9,
{
    (0x30 + d) as char
}

/// The decimal digits of `n`, most significant first, without leading zeros.
pub open spec fn decimal_digits(n: nat) -> Seq<char>
    decreases n,
{
    if n < 10 {
        seq![digit_char(n as int)]
    } else {
        decimal_digits(n / 10).push(digit_char((n % 10) as int))
    }
}

/// `n` in decimal, with a leading `-` when it is negative.
pub open spec fn decimal(n: int) -> Seq<char> {
    if n < 0 {
        seq!['-'] + decimal_digits((-n) as nat)
    } else {
        decimal_digits(n as nat)
    }
}

/// What stands between the two readings on the report line.
pub open spec fn separator() -> Seq<char> {
    seq![' ', '-', '>', ' ']
}

/// The report line for a pair of readings, without a line terminator.
pub open spec fn report_text(fahrenheit: int, celsius: int) -> Seq<char> {
    decimal(fahrenheit) + separator() + decimal(celsius)
}

fn digit_text(d: u32) -> (text: &'static str)
    requires
        d <= 9,
    ensures
        text@ == seq![digit_char(d as int)],
{
    proof {
        reveal_strlit("0");
        reveal_strlit("1");
        reveal_strlit("2");
        reveal_strlit("3");
        reveal_strlit("4");
        reveal_strlit("5");
        reveal_strlit("6");
        reveal_strlit("7");
        reveal_strlit("8");
        reveal_strlit("9");
    }
    let text = match d {
        0 => "0",
        1 => "1",
        2 => "2",
        3 => "3",
        4 => "4",
        5 => "5",
        6 => "6",
        7 => "7",
        8 => "8",
        _ => "9",
    };
    assert(text@ =~= seq![digit_char(d as int)]);
    text
}

fn append_digits(out: &mut String, n: u32)
    ensures
        final(out)@ == old(out)@ + decimal_digits(n as nat),
    decreases n,
{
    if n >= 10 {
        append_digits(out, n / 10);
    }
    out.append(digit_text(n % 10));
    assert(out@ =~= old(out)@ + decimal_digits(n as nat));
}

/// Appends `n` in decimal to `out`.
pub fn append_decimal(out: &mut String, n: i32)
    ensures
        final(out)@ == old(out)@ + decimal(n as int),
{
    if n < 0 {
        proof {
            reveal_strlit("-");
        }
        out.append("-");
        append_digits(out, (-(n as i64)) as u32);
        assert(out@ =~= old(out)@ + decimal(n as int));
    } else {
        append_digits(out, n as u32);
    }
}

/// `n` in decimal.
pub fn to_decimal(n: i32) -> (text: String)
    ensures
        text@ == decimal(n as int),
{
    let mut text = String::new();
    append_decimal(&mut text, n);
    assert(text@ =~= decimal(n as int));
    text
}

/// The report line `<fahrenheit> -> <celsius>`, without a line terminator.
pub fn report_line(fahrenheit: i32, celsius: i32) -> (line: String)
    ensures
        line@ == report_text(fahrenheit as int, celsius as int),
{
    let mut line = String::new();
    append_decimal(&mut line, fahrenheit);
    proof {
        reveal_strlit(" -> ");
    }
    line.append(" -> ");
    append_decimal(&mut line, celsius);
    assert(line@ =~= report_text(fahrenheit as int, celsius as int));
    line
}

/// The digits written for `n` are digits, at least one of them, and read
/// back as `n`.
pub proof fn lemma_decimal_digits_read_back(n: nat)
    ensures
        decimal_digits(n).len() > 0,
        all_digits(decimal_digits(n)),
        digits_value(decimal_digits(n)) == n,
    decreases n,
{
    if n < 10 {
        let s = decimal_digits(n);
        assert(s.drop_last() =~= Seq::<char>::empty());
        assert(digits_value(s.drop_last()) == 0);
        assert(digit_value(s.last()) == n);
    } else {
        lemma_decimal_digits_read_back(n / 10);
        let s = decimal_digits(n);
        assert(s.drop_last() =~= decimal_digits(n / 10));
        assert(digit_value(s.last()) == n % 10);
        assert forall|i: int| 0 <= i < s.len() implies is_digit(#[trigger] s[i]) by {
            if i < s.len() - 1 {
                assert(s[i] == decimal_digits(n / 10)[i]);
            }
        }
    }
}

/// A 32-bit integer written in decimal reads back as itself.
pub proof fn lemma_decimal_reads_back(n: int)
    requires
        i32::MIN <= n <= i32::MAX,
    ensures
        parse_integer(decimal(n)) == Ok::<i32, ParseFailure>(n as i32),
{
    let text = decimal(n);
    let magnitude = (if n < 0 {
        -n
    } else {
        n
    }) as nat;
    lemma_decimal_digits_read_back(magnitude);
    let digits = decimal_digits(magnitude);
    assert(is_digit(digits[0]));
    assert(is_digit(digits.last()));
    if n < 0 {
        assert(text[0] == '-');
        assert(text.last() == digits.last());
        assert(unsigned_part(text) =~= digits);
    } else {
        assert(text[0] == digits[0]);
        assert(unsigned_part(text) =~= digits);
    }
    lemma_trim_is_subrange(text, 0, text.len() as int);
    assert(text.subrange(0, text.len() as int) =~= text);
}

} // verus!
