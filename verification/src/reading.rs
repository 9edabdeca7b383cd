//! One reading: a line of text, the Fahrenheit value read from it and the
//! Celsius value that follows.

use crate::parse::{parse_integer, parse_line, ParseFailure};
use crate::render::{decimal, decimal_digits, lemma_decimal_reads_back, report_line, report_text};
use crate::temperature::{celsius_of, fahrenheit_to_celsius};
use crate::whitespace::{
    all_whitespace, lemma_trim_ignores_surrounding_whitespace, lemma_trim_is_subrange,
};
use vstd::prelude::*;

verus! {

/// The Fahrenheit value that stands in for a line that holds no integer.
pub const SENTINEL: i32 = -1;

/// What is shown before a line is read.
pub const PROMPT: &'static str = "Input a temp to convert to Celsius";

/// The Fahrenheit value of a line: the integer written on it, or the
/// sentinel where there is none.
pub open spec fn fahrenheit_of(line: Seq<char>) -> int {
    match parse_integer(line) {
        Ok(value) => value as int,
        Err(_) => SENTINEL as int,
    }
}

/// The report line for a line of input.
pub open spec fn conversion_of(line: Seq<char>) -> Seq<char> {
    report_text(fahrenheit_of(line), celsius_of(fahrenheit_of(line)))
}

/// The Fahrenheit value of `line`; a line that holds no integer reads as
/// the sentinel.
pub fn read_fahrenheit(line: &str) -> (fahrenheit: i32)
    ensures
        fahrenheit == fahrenheit_of(line@),
{
    match parse_line(line) {
        Ok(value) => value,
        Err(_) => SENTINEL,
    }
}

/// A line of input together with the two temperatures derived from it.
///
/// The line is the whole of its state: both temperatures are functions of
/// it, so the view of a reading is the line.
#[derive(Debug, Clone, Copy)]
pub struct Reading<'a> {
    raw_input: &'a str,
    fahrenheit: i32,
    celsius: i32,
}

impl<'a> View for Reading<'a> {
    type V = Seq<char>;

    closed spec fn view(&self) -> Seq<char> {
        self.raw_input@
    }
}

impl<'a> Reading<'a> {
    #[verifier::type_invariant]
    spec fn well_formed(self) -> bool {
        &&& self.fahrenheit == fahrenheit_of(self.raw_input@)
        &&& self.celsius == celsius_of(self.fahrenheit as int)
    }

    /// Takes a reading from one line of input, kept as it was read.
    pub fn new(raw_input: &'a str) -> (reading: Self)
        ensures
            reading@ == raw_input@,
    {
        let fahrenheit = read_fahrenheit(raw_input);
        let celsius = fahrenheit_to_celsius(fahrenheit);
        Reading { raw_input, fahrenheit, celsius }
    }

    /// The line as it was read, surrounding whitespace included.
    pub fn raw_input(&self) -> (line: &'a str)
        ensures
            line@ == self@,
    {
        self.raw_input
    }

    /// The Fahrenheit value read from the line.
    pub fn fahrenheit(&self) -> (fahrenheit: i32)
        ensures
            fahrenheit == fahrenheit_of(self@),
    {
        proof {
            use_type_invariant(self);
        }
        self.fahrenheit
    }

    /// The Celsius value for the Fahrenheit value read from the line.
    pub fn celsius(&self) -> (celsius: i32)
        ensures
            celsius == celsius_of(fahrenheit_of(self@)),
    {
        proof {
            use_type_invariant(self);
        }
        self.celsius
    }

    /// The report line `<fahrenheit> -> <celsius>`, without a line
    /// terminator.
    pub fn report(&self) -> (line: String)
        ensures
            line@ == conversion_of(self@),
    {
        proof {
            use_type_invariant(self);
        }
        report_line(self.fahrenheit, self.celsius)
    }
}

/// Converts one line of input, a temperature in whole degrees Fahrenheit,
/// into the report line that shows it beside its value in whole degrees
/// Celsius.
pub fn temp_convert(line: &str) -> (report: String)
    ensures
        report@ == conversion_of(line@),
{
    Reading::new(line).report()
}

/// Converting the decimal text of a 32-bit Fahrenheit value, with any
/// whitespace around it, reports that value beside `(f - 32) * 5 / 9`, the
/// quotient rounded toward zero.
pub proof fn lemma_conversion_follows_formula(before: Seq<char>, fahrenheit: int, after: Seq<char>)
    requires
        i32::MIN <= fahrenheit <= i32::MAX,
        all_whitespace(before),
        all_whitespace(after),
    ensures
        fahrenheit_of(before + decimal(fahrenheit) + after) == fahrenheit,
        conversion_of(before + decimal(fahrenheit) + after) == report_text(
            fahrenheit,
            celsius_of(fahrenheit),
        ),
{
    lemma_decimal_reads_back(fahrenheit);
    lemma_whitespace_is_ignored(before, decimal(fahrenheit), after);
}

/// Whitespace before and after the text of a line changes neither the value
/// read from it nor its report.
pub proof fn lemma_whitespace_is_ignored(before: Seq<char>, text: Seq<char>, after: Seq<char>)
    requires
        all_whitespace(before),
        all_whitespace(after),
    ensures
        parse_integer(before + text + after) == parse_integer(text),
        fahrenheit_of(before + text + after) == fahrenheit_of(text),
        conversion_of(before + text + after) == conversion_of(text),
{
    lemma_trim_ignores_surrounding_whitespace(before, text, after);
}

/// A line that holds no integer reads as the sentinel, and its report is
/// that of the sentinel.
pub proof fn lemma_unreadable_line_reads_as_sentinel(line: Seq<char>)
    requires
        parse_integer(line) is Err,
    ensures
        fahrenheit_of(line) == -1,
        celsius_of(fahrenheit_of(line)) == -18,
        conversion_of(line) == "-1 -> -18"@,
{
    reveal_strlit("-1 -> -18");
    reveal_with_fuel(decimal_digits, 2);
    assert(conversion_of(line) =~= "-1 -> -18"@);
}

/// A line that is empty, or all whitespace, holds no integer.
pub proof fn lemma_blank_line_is_empty(line: Seq<char>)
    requires
        all_whitespace(line),
    ensures
        parse_integer(line) == Err::<i32, ParseFailure>(ParseFailure::Empty),
{
    lemma_trim_is_subrange(line, line.len() as int, line.len() as int);
}

/// The report depends on nothing but the line: two conversions of the same
/// line give the same report.
pub proof fn lemma_conversion_is_deterministic(
    first_line: Seq<char>,
    first_report: Seq<char>,
    second_line: Seq<char>,
    second_report: Seq<char>,
)
    requires
        first_report == conversion_of(first_line),
        second_report == conversion_of(second_line),
        first_line == second_line,
    ensures
        first_report == second_report,
{
}

} // verus!
