//! Reading a signed decimal integer out of one line of text.

use crate::whitespace::{
    char_is_whitespace, is_whitespace, lemma_trim_is_subrange, lemma_trim_keeps, trim,
};
use std::str::Chars;
use vstd::prelude::*;
use vstd::std_specs::iter::IteratorSpec;

verus! {

/// Why a line holds no reading.
#[derive(Debug, Clone, Copy, PartialEq, Eq, Structural)]
pub enum ParseFailure {
    /// Nothing is left of the line once whitespace is trimmed.
    Empty,
    /// The trimmed text is not an optional sign followed by decimal digits.
    Invalid,
    /// The text is a decimal integer that does not fit in 32 bits.
    OutOfRange,
}

/// Whether `c` is one of the ASCII digits `0` to `9`.
pub open spec fn is_digit(c: char) -> bool {
    0x30 <= c as u32 <= 0x39
}

/// The number that the digit `c` stands for.
pub open spec fn digit_value(c: char) -> int {
    c as u32 - 0x30
}

/// Whether every character of `s` is a decimal digit.
pub open spec fn all_digits(s: Seq<char>) -> bool {
    forall|i: int| 0 <= i < s.len() ==> is_digit(#[trigger] s[i])
}

/// The number written by the digits `s`, most significant first.
pub open spec fn digits_value(s: Seq<char>) -> int
    decreases s.len(),
{
    if s.len() == 0 {
        0
    } else {
        digits_value(s.drop_last()) * 10 + digit_value(s.last())
    }
}

/// Whether `s` starts with `+` or `-`.
pub open spec fn has_sign(s: Seq<char>) -> bool {
    s.len() > 0 && (s[0] == '+' || s[0] == '-')
}

/// `s` without its sign, if it has one.
pub open spec fn unsigned_part(s: Seq<char>) -> Seq<char> {
    if has_sign(s) {
        s.drop_first()
    } else {
        s
    }
}

/// Whether `s` is an optional sign followed by one or more decimal digits.
pub open spec fn is_decimal(s: Seq<char>) -> bool {
    unsigned_part(s).len() > 0 && all_digits(unsigned_part(s))
}

/// The integer that the decimal text `s` denotes.
pub open spec fn decimal_value(s: Seq<char>) -> int {
    if s.len() > 0 && s[0] == '-' {
        -digits_value(unsigned_part(s))
    } else {
        digits_value(unsigned_part(s))
    }
}

/// What a line of input holds: the 32-bit integer written on it, surrounding
/// whitespace ignored, or the reason why there is none.
pub open spec fn parse_integer(line: Seq<char>) -> Result<i32, ParseFailure> {
    let text = trim(line);
    if text.len() == 0 {
        Err(ParseFailure::Empty)
    } else if !is_decimal(text) {
        Err(ParseFailure::Invalid)
    } else if !(i32::MIN <= decimal_value(text) <= i32::MAX) {
        Err(ParseFailure::OutOfRange)
    } else {
        Ok(decimal_value(text) as i32)
    }
}

fn holds_whitespace(current: Option<char>) -> (b: bool)
    ensures
        b == (current matches Some(c) && is_whitespace(c)),
{
    match current {
        Some(c) => char_is_whitespace(c),
        None => false,
    }
}

fn digit_held(current: Option<char>) -> (d: Option<u8>)
    ensures
        d is Some <==> (current matches Some(c) && is_digit(c)),
        d matches Some(v) ==> v == digit_value(current->0),
{
    match current {
        Some(c) => {
            let u: u32 = c as u32;
            if 0x30 <= u && u <= 0x39 {
                Some((u - 0x30) as u8)
            } else {
                None
            }
        },
        None => None,
    }
}

/// The scanner stands at place `i` of `s`: `current` is the character
/// there, if any, and `rest` is what follows it.
spec fn at_cursor(s: Seq<char>, i: int, current: Option<char>, rest: Seq<char>) -> bool {
    &&& 0 <= i <= s.len()
    &&& i < s.len() ==> current == Some(s[i]) && rest == s.skip(i + 1)
    &&& i == s.len() ==> current is None && rest.len() == 0
}

/// Moves the scanner from place `i` to the next one.
fn advance(chars: &mut Chars<'_>, Ghost(s): Ghost<Seq<char>>, Ghost(i): Ghost<int>) -> (next:
    Option<char>)
    requires
        (*old(chars)).obeys_prophetic_iter_laws(),
        -1 <= i < s.len(),
        (*old(chars)).remaining() == s.skip(i + 1),
    ensures
        (*final(chars)).obeys_prophetic_iter_laws(),
        at_cursor(s, i + 1, next, (*final(chars)).remaining()),
{
    let next = chars.next();
    proof {
        if i + 1 < s.len() {
            assert(s.skip(i + 1).drop_first() =~= s.skip(i + 2));
        }
    }
    next
}

/// The largest magnitude that a 32-bit integer can have.
const MAGNITUDE_LIMIT: i64 = 2147483648;

/// Reads the integer written on `line`, surrounding whitespace ignored.
///
/// The text is scanned once, left to right, and the scan stops at the first
/// character that settles the answer.
pub fn parse_line(line: &str) -> (reading: Result<i32, ParseFailure>)
    ensures
        reading == parse_integer(line@),
{
    let ghost s = line@;
    let mut chars = line.chars();
    assert(s.skip(0) =~= s);
    let mut current = advance(&mut chars, Ghost(s), Ghost(-1));
    let ghost mut i: int = 0;
    while holds_whitespace(current)
        invariant
            chars.obeys_prophetic_iter_laws(),
            at_cursor(s, i, current, chars.remaining()),
            forall|k: int| 0 <= k < i ==> is_whitespace(#[trigger] s[k]),
        decreases s.len() - i,
    {
        current = advance(&mut chars, Ghost(s), Ghost(i));
        proof {
            i = i + 1;
        }
    }
    let ghost a = i;
    let first = match current {
        Some(c) => c,
        None => {
            proof {
                lemma_trim_is_subrange(s, a, a);
            }
            return Err(ParseFailure::Empty);
        },
    };
    let negative = first == '-';
    if first == '-' || first == '+' {
        current = advance(&mut chars, Ghost(s), Ghost(i));
        proof {
            i = i + 1;
        }
    }
    let ghost d = i;
    let mut magnitude: i64 = 0;
    let mut overflow = false;
    let mut seen = false;
    let mut digit = digit_held(current);
    while digit.is_some()
        invariant
            chars.obeys_prophetic_iter_laws(),
            at_cursor(s, i, current, chars.remaining()),
            0 <= d <= i,
            digit is Some <==> (current matches Some(c) && is_digit(c)),
            digit matches Some(v) ==> v == digit_value(current->0),
            forall|k: int| d <= k < i ==> is_digit(#[trigger] s[k]),
            seen == (i > d),
            !overflow ==> 0 <= magnitude <= MAGNITUDE_LIMIT && magnitude == digits_value(
                s.subrange(d, i),
            ),
            overflow ==> digits_value(s.subrange(d, i)) > MAGNITUDE_LIMIT,
        decreases s.len() - i,
    {
        let v = digit.unwrap();
        proof {
            assert(s.subrange(d, i + 1).drop_last() =~= s.subrange(d, i));
        }
        if !overflow {
            magnitude = magnitude * 10 + v as i64;
            if magnitude > MAGNITUDE_LIMIT {
                overflow = true;
            }
        }
        seen = true;
        current = advance(&mut chars, Ghost(s), Ghost(i));
        proof {
            i = i + 1;
        }
        digit = digit_held(current);
    }
    let ghost b = i;
    while holds_whitespace(current)
        invariant
            chars.obeys_prophetic_iter_laws(),
            at_cursor(s, i, current, chars.remaining()),
            0 <= b <= i,
            forall|k: int| b <= k < i ==> is_whitespace(#[trigger] s[k]),
        decreases s.len() - i,
    {
        current = advance(&mut chars, Ghost(s), Ghost(i));
        proof {
            i = i + 1;
        }
    }
    match current {
        Some(_) => {
            proof {
                lemma_trim_keeps(s, a, i);
                let text = trim(s);
                assert(text[0] == s[a]);
                assert(text[b - a] == s[b]);
                assert(!is_digit(s[b]));
                assert(unsigned_part(text)[b - d] == s[b]);
            }
            Err(ParseFailure::Invalid)
        },
        None => {
            proof {
                lemma_trim_is_subrange(s, a, b);
                let text = trim(s);
                assert(text[0] == s[a]);
                assert(unsigned_part(text) =~= s.subrange(d, b));
            }
            if !seen {
                Err(ParseFailure::Invalid)
            } else if overflow {
                Err(ParseFailure::OutOfRange)
            } else if negative {
                Ok((-magnitude) as i32)
            } else if magnitude > i32::MAX as i64 {
                Err(ParseFailure::OutOfRange)
            } else {
                Ok(magnitude as i32)
            }
        },
    }
}

} // verus!
