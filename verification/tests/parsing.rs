use study_journal::parse::{parse_line, ParseFailure};
use study_journal::whitespace::char_is_whitespace;

#[test]
fn plain_digits_parse() {
    assert_eq!(parse_line("0"), Ok(0));
    assert_eq!(parse_line("7"), Ok(7));
    assert_eq!(parse_line("100"), Ok(100));
    assert_eq!(parse_line("2147483647"), Ok(i32::MAX));
}

#[test]
fn signs_parse() {
    assert_eq!(parse_line("-40"), Ok(-40));
    assert_eq!(parse_line("+40"), Ok(40));
    assert_eq!(parse_line("-0"), Ok(0));
    assert_eq!(parse_line("+0"), Ok(0));
    assert_eq!(parse_line("-2147483648"), Ok(i32::MIN));
}

#[test]
fn leading_zeros_parse() {
    assert_eq!(parse_line("007"), Ok(7));
    assert_eq!(parse_line("-000000000000000000000012"), Ok(-12));
    assert_eq!(parse_line("00000000002147483647"), Ok(i32::MAX));
}

#[test]
fn whitespace_around_the_number_is_trimmed() {
    assert_eq!(parse_line("  100  \n"), Ok(100));
    assert_eq!(parse_line("\t-5\r\n"), Ok(-5));
    assert_eq!(parse_line("\u{2003}9\u{85}"), Ok(9));
}

#[test]
fn nothing_but_whitespace_is_empty() {
    assert_eq!(parse_line(""), Err(ParseFailure::Empty));
    assert_eq!(parse_line(" "), Err(ParseFailure::Empty));
    assert_eq!(parse_line("\n"), Err(ParseFailure::Empty));
    assert_eq!(parse_line(" \t\r\n\u{a0}\u{3000}"), Err(ParseFailure::Empty));
}

#[test]
fn text_that_is_no_integer_is_invalid() {
    assert_eq!(parse_line("abc"), Err(ParseFailure::Invalid));
    assert_eq!(parse_line("12a"), Err(ParseFailure::Invalid));
    assert_eq!(parse_line("a12"), Err(ParseFailure::Invalid));
    assert_eq!(parse_line("1 2"), Err(ParseFailure::Invalid));
    assert_eq!(parse_line("1\n2"), Err(ParseFailure::Invalid));
    assert_eq!(parse_line("7.5"), Err(ParseFailure::Invalid));
    assert_eq!(parse_line("1_000"), Err(ParseFailure::Invalid));
    assert_eq!(parse_line("0x10"), Err(ParseFailure::Invalid));
    assert_eq!(parse_line("\u{663}"), Err(ParseFailure::Invalid));
    assert_eq!(parse_line("\u{2212}5"), Err(ParseFailure::Invalid));
}

#[test]
fn sign_without_digits_is_invalid() {
    assert_eq!(parse_line("+"), Err(ParseFailure::Invalid));
    assert_eq!(parse_line("-"), Err(ParseFailure::Invalid));
    assert_eq!(parse_line(" - "), Err(ParseFailure::Invalid));
    assert_eq!(parse_line("--5"), Err(ParseFailure::Invalid));
    assert_eq!(parse_line("+-5"), Err(ParseFailure::Invalid));
    assert_eq!(parse_line("- 5"), Err(ParseFailure::Invalid));
    assert_eq!(parse_line("5-"), Err(ParseFailure::Invalid));
}

#[test]
fn integer_beyond_32_bits_is_out_of_range() {
    assert_eq!(parse_line("2147483648"), Err(ParseFailure::OutOfRange));
    assert_eq!(parse_line("-2147483649"), Err(ParseFailure::OutOfRange));
    assert_eq!(parse_line("21474836470"), Err(ParseFailure::OutOfRange));
    assert_eq!(parse_line("99999999999999999999999999999999"), Err(ParseFailure::OutOfRange));
    assert_eq!(parse_line(" -99999999999999999999999999999999\n"), Err(ParseFailure::OutOfRange));
}

#[test]
fn digits_too_many_followed_by_other_text_is_invalid() {
    assert_eq!(parse_line("99999999999999999999x"), Err(ParseFailure::Invalid));
    assert_eq!(parse_line("99999999999999999999 1"), Err(ParseFailure::Invalid));
}

#[test]
fn success_agrees_with_trim_and_parse_of_std() {
    let lines = [
        "", " ", "0", "-0", "+0", "1", "-1", "+1", "  12  ", "12\n", "12\r\n", "\t12", "1 2",
        "12a", "a12", "+", "-", "++1", "--1", "+-1", "2147483647", "2147483648", "-2147483648",
        "-2147483649", "0000000000000000000001", "99999999999999999999", "\u{663}", "\u{ff11}\u{ff12}", "1e3",
        "1.0", "0x1f", "1_0", "\u{a0}5\u{a0}", "\u{1680}5", "5\u{200a}", "5\u{200b}",
        "\u{feff}5", "\u{180e}5", " 4 5 ", "\u{2212}5", "5\u{0}", "\u{b}5\u{c}",
    ];
    for line in lines {
        assert_eq!(parse_line(line).ok(), line.trim().parse::<i32>().ok(), "line {:?}", line);
    }
}

#[test]
fn success_agrees_with_std_around_every_power_of_ten() {
    let mut power: i64 = 1;
    while power <= 100_000_000_000 {
        for delta in -2..=2 {
            for sign in [1, -1] {
                let text = (sign * (power + delta)).to_string();
                assert_eq!(parse_line(&text).ok(), text.parse::<i32>().ok(), "text {:?}", text);
            }
        }
        power *= 10;
    }
}

#[test]
fn whitespace_agrees_with_std_on_every_character() {
    let mut code: u32 = 0;
    while code <= 0x10FFFF {
        if let Some(c) = char::from_u32(code) {
            assert_eq!(char_is_whitespace(c), c.is_whitespace(), "U+{:04X}", code);
        }
        code += 1;
    }
}

#[test]
fn whitespace_on_chosen_characters() {
    for c in [' ', '\t', '\n', '\u{b}', '\u{c}', '\r', '\u{85}', '\u{a0}', '\u{1680}', '\u{2000}',
        '\u{200a}', '\u{2028}', '\u{2029}', '\u{202f}', '\u{205f}', '\u{3000}']
    {
        assert!(char_is_whitespace(c));
    }
    for c in ['\u{0}', '\u{8}', '\u{e}', '\u{1f}', '!', '0', 'a', '-', '\u{84}', '\u{86}',
        '\u{180e}', '\u{1fff}', '\u{200b}', '\u{2027}', '\u{202a}', '\u{2060}', '\u{feff}',
        '\u{3001}', '\u{10ffff}']
    {
        assert!(!char_is_whitespace(c));
    }
}
