use trashtrack::decimal::{push_decimal, push_signed_decimal};
use trashtrack::parser::{
    parse_category, parse_score, parse_u16, validate_category, ParseError, TrashCategory,
};
use trashtrack::text::{char_is_whitespace, trim};

#[test]
fn score_of_plain_digits() {
    assert_eq!(parse_score("87"), Ok(87));
}

#[test]
fn score_ignores_surrounding_whitespace() {
    assert_eq!(parse_score(" 87 \n"), Ok(87));
    assert_eq!(parse_score("\t\r\n42\u{3000}"), Ok(42));
}

#[test]
fn score_rejects_trailing_punctuation() {
    assert_eq!(parse_score("87%"), Err(ParseError::InvalidDigit));
}

#[test]
fn score_rejects_empty_text() {
    assert_eq!(parse_score(""), Err(ParseError::Empty));
    assert_eq!(parse_score("  \n "), Err(ParseError::Empty));
}

#[test]
fn score_rejects_negative_number() {
    assert_eq!(parse_score("-1"), Err(ParseError::InvalidDigit));
}

#[test]
fn score_rejects_words_fractions_and_inner_space() {
    assert_eq!(parse_score("Score: 87"), Err(ParseError::InvalidDigit));
    assert_eq!(parse_score("8.5"), Err(ParseError::InvalidDigit));
    assert_eq!(parse_score("8 7"), Err(ParseError::InvalidDigit));
    assert_eq!(parse_score("1_000"), Err(ParseError::InvalidDigit));
    assert_eq!(parse_score("No response"), Err(ParseError::InvalidDigit));
}

#[test]
fn score_is_not_held_to_one_hundred() {
    assert_eq!(parse_score("500"), Ok(500));
    assert_eq!(parse_score("65535"), Ok(65535));
    assert_eq!(parse_score("0"), Ok(0));
    assert_eq!(parse_score("007"), Ok(7));
}

#[test]
fn score_rejects_what_does_not_fit() {
    assert_eq!(parse_score("65536"), Err(ParseError::OutOfRange));
    assert_eq!(parse_score("99999999999999999999999999"), Err(ParseError::OutOfRange));
    assert_eq!(parse_score("99999999999999999999999999x"), Err(ParseError::InvalidDigit));
}

#[test]
fn score_accepts_a_plus_sign() {
    assert_eq!(parse_score("+87"), Ok(87));
    assert_eq!(parse_score("+"), Err(ParseError::InvalidDigit));
    assert_eq!(parse_score("++1"), Err(ParseError::InvalidDigit));
}

#[test]
fn score_agrees_with_the_standard_reader() {
    let samples = [
        "0", "1", "9", "10", "42", "100", "255", "256", "65535", "65536", "70000", "+5", "+", "-5",
        "", "a", "1a", "a1", "１２", "0x10", "00000000000000000001", "1e3", " 1",
    ];
    for sample in samples {
        assert_eq!(parse_u16(sample).ok(), sample.parse::<u16>().ok(), "{:?}", sample);
    }
}

#[test]
fn category_is_trimmed_only() {
    assert_eq!(parse_category(" Recyclable "), "Recyclable");
    assert_eq!(parse_category("banana\n"), "banana");
    assert_eq!(parse_category("  non recyclable  "), "non recyclable");
    assert_eq!(parse_category("   "), "");
}

#[test]
fn strict_category_rejects_unknown_text() {
    assert_eq!(validate_category("banana"), Err(ParseError::UnknownCategory));
    assert_eq!(validate_category(""), Err(ParseError::UnknownCategory));
    assert_eq!(validate_category("non-recyclable"), Err(ParseError::UnknownCategory));
    assert_eq!(validate_category("Organic waste"), Err(ParseError::UnknownCategory));
}

#[test]
fn strict_category_ignores_case_and_whitespace() {
    assert_eq!(validate_category(" Recyclable "), Ok(TrashCategory::Recyclable));
    assert_eq!(validate_category("hazardous"), Ok(TrashCategory::Hazardous));
    assert_eq!(validate_category("NONRECYCLABLE\n"), Ok(TrashCategory::NonRecyclable));
    assert_eq!(validate_category("oRgAnIc"), Ok(TrashCategory::Organic));
}

#[test]
fn category_names_read_back() {
    let all = [
        TrashCategory::Hazardous,
        TrashCategory::NonRecyclable,
        TrashCategory::Recyclable,
        TrashCategory::Organic,
    ];
    for category in all {
        assert_eq!(validate_category(category.name()), Ok(category));
    }
    assert_eq!(TrashCategory::NonRecyclable.name(), "NonRecyclable");
}

#[test]
fn trim_cuts_both_ends_only() {
    assert_eq!(trim("  a b  "), "a b");
    assert_eq!(trim("a"), "a");
    assert_eq!(trim(""), "");
    assert_eq!(trim(" \t\n"), "");
    assert_eq!(trim("\u{a0}é\u{2003}"), "é");
    assert_eq!(trim("x "), "x");
    assert_eq!(trim(" x"), "x");
}

#[test]
fn trim_agrees_with_the_standard_one() {
    let samples = ["", " ", "a", " a", "a ", " a b ", "\u{85}a\u{1680}", "\u{200b}a", "\u{feff}a "];
    for sample in samples {
        assert_eq!(trim(sample), sample.trim(), "{:?}", sample);
    }
}

#[test]
fn trimming_twice_changes_nothing() {
    for sample in ["", "  ", " a ", "\ta b\n", "x", "\u{2028}42\u{2029}"] {
        assert_eq!(trim(trim(sample)), trim(sample), "{:?}", sample);
    }
}

#[test]
fn whitespace_is_the_unicode_property() {
    let mut code = 0u32;
    while code <= 0x3100 {
        if let Some(c) = char::from_u32(code) {
            assert_eq!(char_is_whitespace(c), c.is_whitespace(), "U+{:04X}", code);
        }
        code += 1;
    }
}

#[test]
fn decimal_numerals() {
    let mut out = String::new();
    push_decimal(&mut out, 0);
    assert_eq!(out, "0");
    push_decimal(&mut out, 42);
    assert_eq!(out, "042");
    let mut out = String::from("n=");
    push_decimal(&mut out, u64::MAX);
    assert_eq!(out, "n=18446744073709551615");
    let mut out = String::new();
    push_decimal(&mut out, 65535);
    assert_eq!(out, "65535");
}

#[test]
fn signed_decimal_numerals() {
    let mut out = String::new();
    push_signed_decimal(&mut out, -1);
    assert_eq!(out, "-1");
    let mut out = String::new();
    push_signed_decimal(&mut out, i64::MIN);
    assert_eq!(out, "-9223372036854775808");
    let mut out = String::new();
    push_signed_decimal(&mut out, i64::MAX);
    assert_eq!(out, "9223372036854775807");
    let mut out = String::new();
    push_signed_decimal(&mut out, 0);
    assert_eq!(out, "0");
}

#[test]
fn numerals_read_back() {
    for n in [0u16, 1, 9, 10, 99, 100, 4242, 65535] {
        let mut out = String::new();
        push_decimal(&mut out, n as u64);
        assert_eq!(parse_score(&out), Ok(n));
    }
}
