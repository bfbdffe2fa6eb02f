use braillify::cursor::CharCursor;
use braillify::error::BraillifyError;
use braillify::fraction::{
    consume_whitespace, encode_fraction, encode_fraction_in_context, encode_mixed_fraction,
    encode_number_string, is_unicode_fraction, normalize_digit, parse_decomposed_fraction,
    parse_latex_fraction, parse_unicode_fraction, read_braced_content, FRACTION_SLASH,
};

#[test]
fn test_encode_number_string_valid() {
    let result = encode_number_string("123", "test").unwrap();
    assert!(!result.is_empty());
}

#[test]
fn test_encode_number_string_invalid_non_digit() {
    let result = encode_number_string("a", "test");
    assert!(result.is_err());
    assert!(result.unwrap_err().to_string().contains("Invalid test part"));
}

#[test]
fn test_encode_number_string_invalid_mixed() {
    let result = encode_number_string("1a2", "test");
    assert!(result.is_err());
}

#[test]
fn test_encode_number_string_empty() {
    let result = encode_number_string("", "test").unwrap();
    assert_eq!(result, Vec::<u8>::new());
}

#[test]
fn test_encode_fraction_simple() {
    let result = encode_fraction("3", "4").unwrap();
    assert_eq!(result, vec![60, 25, 12, 60, 9]);
}

#[test]
fn test_encode_fraction_double_digit() {
    let result = encode_fraction("12", "34").unwrap();
    assert!(result.starts_with(&[60]));
}

#[test]
fn test_encode_fraction_invalid_numerator() {
    let result = encode_fraction("a", "4");
    assert!(result.is_err());
    assert!(result.unwrap_err().to_string().contains("numerator"));
}

#[test]
fn test_encode_fraction_invalid_denominator() {
    let result = encode_fraction("3", "b");
    assert!(result.is_err());
    assert!(result.unwrap_err().to_string().contains("denominator"));
}

#[test]
fn test_encode_fraction_in_context_simple() {
    let result = encode_fraction_in_context("2", "3").unwrap();
    assert_eq!(result, vec![60, 3, 56, 12, 60, 9]);
}

#[test]
fn test_encode_fraction_in_context_invalid_numerator() {
    let result = encode_fraction_in_context("x", "3");
    assert!(result.is_err());
    assert!(result.unwrap_err().to_string().contains("numerator"));
}

#[test]
fn test_encode_fraction_in_context_invalid_denominator() {
    let result = encode_fraction_in_context("2", "y");
    assert!(result.is_err());
    assert!(result.unwrap_err().to_string().contains("denominator"));
}

#[test]
fn test_encode_mixed_fraction_simple() {
    let result = encode_mixed_fraction("3", "1", "6").unwrap();
    assert_eq!(result, vec![60, 9, 60, 11, 12, 60, 1]);
}

#[test]
fn test_encode_mixed_fraction_invalid_whole() {
    let result = encode_mixed_fraction("a", "1", "6");
    assert!(result.is_err());
    assert!(result.unwrap_err().to_string().contains("whole"));
}

#[test]
fn test_encode_mixed_fraction_invalid_numerator() {
    let result = encode_mixed_fraction("3", "b", "6");
    assert!(result.is_err());
    assert!(result.unwrap_err().to_string().contains("numerator"));
}

#[test]
fn test_encode_mixed_fraction_invalid_denominator() {
    let result = encode_mixed_fraction("3", "1", "c");
    assert!(result.is_err());
    assert!(result.unwrap_err().to_string().contains("denominator"));
}

#[test]
fn test_normalize_digit_regular() {
    assert_eq!(normalize_digit('0'), Some('0'));
    assert_eq!(normalize_digit('1'), Some('1'));
    assert_eq!(normalize_digit('9'), Some('9'));
}

#[test]
fn test_normalize_digit_superscript() {
    assert_eq!(normalize_digit('⁰'), Some('0'));
    assert_eq!(normalize_digit('¹'), Some('1'));
    assert_eq!(normalize_digit('²'), Some('2'));
    assert_eq!(normalize_digit('³'), Some('3'));
    assert_eq!(normalize_digit('⁴'), Some('4'));
    assert_eq!(normalize_digit('⁵'), Some('5'));
    assert_eq!(normalize_digit('⁶'), Some('6'));
    assert_eq!(normalize_digit('⁷'), Some('7'));
    assert_eq!(normalize_digit('⁸'), Some('8'));
    assert_eq!(normalize_digit('⁹'), Some('9'));
}

#[test]
fn test_normalize_digit_subscript() {
    assert_eq!(normalize_digit('₀'), Some('0'));
    assert_eq!(normalize_digit('₁'), Some('1'));
    assert_eq!(normalize_digit('₂'), Some('2'));
    assert_eq!(normalize_digit('₃'), Some('3'));
    assert_eq!(normalize_digit('₄'), Some('4'));
    assert_eq!(normalize_digit('₅'), Some('5'));
    assert_eq!(normalize_digit('₆'), Some('6'));
    assert_eq!(normalize_digit('₇'), Some('7'));
    assert_eq!(normalize_digit('₈'), Some('8'));
    assert_eq!(normalize_digit('₉'), Some('9'));
}

#[test]
fn test_normalize_digit_invalid() {
    assert_eq!(normalize_digit('a'), None);
    assert_eq!(normalize_digit('A'), None);
    assert_eq!(normalize_digit('!'), None);
    assert_eq!(normalize_digit(' '), None);
}

#[test]
fn test_parse_latex_fraction_simple() {
    let result = parse_latex_fraction("$\\frac{3}{4}$");
    assert_eq!(result, Some((None, "3".to_string(), "4".to_string())));
}

#[test]
fn test_parse_latex_fraction_mixed() {
    let result = parse_latex_fraction("$3\\frac{1}{6}$");
    assert_eq!(result, Some((Some("3".to_string()), "1".to_string(), "6".to_string())));
}

#[test]
fn test_parse_latex_fraction_mixed_double_digit() {
    let result = parse_latex_fraction("$12\\frac{34}{56}$");
    assert_eq!(result, Some((Some("12".to_string()), "34".to_string(), "56".to_string())));
}

#[test]
fn test_parse_latex_fraction_with_whitespace() {
    let result = parse_latex_fraction("$ \\frac{ 3 }{ 4 } $");
    assert_eq!(result, Some((None, "3".to_string(), "4".to_string())));
}

#[test]
fn test_parse_latex_fraction_with_leading_trailing_whitespace() {
    let result = parse_latex_fraction("  $\\frac{3}{4}$  ");
    assert_eq!(result, Some((None, "3".to_string(), "4".to_string())));
}

#[test]
fn test_parse_latex_fraction_with_superscript() {
    let result = parse_latex_fraction("$\\frac{³}{⁴}$");
    assert_eq!(result, Some((None, "3".to_string(), "4".to_string())));
}

#[test]
fn test_parse_latex_fraction_with_subscript() {
    let result = parse_latex_fraction("$\\frac{₃}{₄}$");
    assert_eq!(result, Some((None, "3".to_string(), "4".to_string())));
}

#[test]
fn test_parse_latex_fraction_mixed_with_superscript() {
    let result = parse_latex_fraction("$³\\frac{¹}{⁶}$");
    assert_eq!(result, Some((Some("3".to_string()), "1".to_string(), "6".to_string())));
}

#[test]
fn test_parse_latex_fraction_no_starting_dollar() {
    assert_eq!(parse_latex_fraction("\\frac{3}{4}$"), None);
}

#[test]
fn test_parse_latex_fraction_no_ending_dollar() {
    assert_eq!(parse_latex_fraction("$\\frac{3}{4}"), None);
}

#[test]
fn test_parse_latex_fraction_no_backslash() {
    assert_eq!(parse_latex_fraction("$frac{3}{4}$"), None);
}

#[test]
fn test_parse_latex_fraction_wrong_command() {
    assert_eq!(parse_latex_fraction("$\\frac{3}{4}$"), Some((None, "3".to_string(), "4".to_string())));
    assert_eq!(parse_latex_fraction("$\\fracx{3}{4}$"), None);
}

#[test]
fn test_parse_latex_fraction_empty_numerator() {
    assert_eq!(parse_latex_fraction("$\\frac{}{4}$"), None);
}

#[test]
fn test_parse_latex_fraction_empty_denominator() {
    assert_eq!(parse_latex_fraction("$\\frac{3}{}$"), None);
}

#[test]
fn test_parse_latex_fraction_non_digit_numerator() {
    assert_eq!(parse_latex_fraction("$\\frac{a}{4}$"), None);
}

#[test]
fn test_parse_latex_fraction_non_digit_denominator() {
    assert_eq!(parse_latex_fraction("$\\frac{3}{b}$"), None);
}

#[test]
fn test_parse_latex_fraction_no_opening_brace_numerator() {
    assert_eq!(parse_latex_fraction("$\\frac3}{4}$"), None);
}

#[test]
fn test_parse_latex_fraction_no_closing_brace_numerator() {
    assert_eq!(parse_latex_fraction("$\\frac{3{4}$"), None);
}

#[test]
fn test_parse_latex_fraction_extra_content_after() {
    assert_eq!(parse_latex_fraction("$\\frac{3}{4}$ extra"), None);
}

#[test]
fn test_parse_latex_fraction_empty_string() {
    assert_eq!(parse_latex_fraction(""), None);
}

#[test]
fn test_parse_latex_fraction_only_dollars() {
    assert_eq!(parse_latex_fraction("$$"), None);
}

#[test]
fn test_parse_unicode_fraction_common() {
    assert_eq!(parse_unicode_fraction('½'), Some(("1".to_string(), "2".to_string())));
    assert_eq!(parse_unicode_fraction('⅓'), Some(("1".to_string(), "3".to_string())));
    assert_eq!(parse_unicode_fraction('⅔'), Some(("2".to_string(), "3".to_string())));
    assert_eq!(parse_unicode_fraction('¼'), Some(("1".to_string(), "4".to_string())));
    assert_eq!(parse_unicode_fraction('¾'), Some(("3".to_string(), "4".to_string())));
    assert_eq!(parse_unicode_fraction('⅕'), Some(("1".to_string(), "5".to_string())));
    assert_eq!(parse_unicode_fraction('⅖'), Some(("2".to_string(), "5".to_string())));
    assert_eq!(parse_unicode_fraction('⅗'), Some(("3".to_string(), "5".to_string())));
    assert_eq!(parse_unicode_fraction('⅘'), Some(("4".to_string(), "5".to_string())));
    assert_eq!(parse_unicode_fraction('⅙'), Some(("1".to_string(), "6".to_string())));
    assert_eq!(parse_unicode_fraction('⅚'), Some(("5".to_string(), "6".to_string())));
    assert_eq!(parse_unicode_fraction('⅛'), Some(("1".to_string(), "8".to_string())));
    assert_eq!(parse_unicode_fraction('⅜'), Some(("3".to_string(), "8".to_string())));
    assert_eq!(parse_unicode_fraction('⅝'), Some(("5".to_string(), "8".to_string())));
    assert_eq!(parse_unicode_fraction('⅞'), Some(("7".to_string(), "8".to_string())));
}

#[test]
fn test_parse_unicode_fraction_regular_chars() {
    assert_eq!(parse_unicode_fraction('a'), None);
    assert_eq!(parse_unicode_fraction('1'), None);
    assert_eq!(parse_unicode_fraction('!'), None);
    assert_eq!(parse_unicode_fraction(' '), None);
}

#[test]
fn test_parse_unicode_fraction_slash() {
    assert_eq!(parse_unicode_fraction('/'), None);
}

#[test]
fn test_parse_unicode_fraction_korean() {
    assert_eq!(parse_unicode_fraction('가'), None);
}

#[test]
fn test_is_unicode_fraction_true() {
    assert!(is_unicode_fraction('½'));
    assert!(is_unicode_fraction('⅓'));
    assert!(is_unicode_fraction('⅔'));
    assert!(is_unicode_fraction('¼'));
    assert!(is_unicode_fraction('¾'));
    assert!(is_unicode_fraction('⅕'));
    assert!(is_unicode_fraction('⅙'));
    assert!(is_unicode_fraction('⅛'));
}

#[test]
fn test_is_unicode_fraction_false() {
    assert!(!is_unicode_fraction('a'));
    assert!(!is_unicode_fraction('1'));
    assert!(!is_unicode_fraction('!'));
    assert!(!is_unicode_fraction('/'));
    assert!(!is_unicode_fraction(' '));
    assert!(!is_unicode_fraction('가'));
}

#[test]
fn test_parse_unicode_fraction_slash_only() {
    assert_eq!(parse_decomposed_fraction(&FRACTION_SLASH.to_string()), None);
}

#[test]
fn test_parse_unicode_fraction_non_ascii_digit_numerator() {
    let non_ascii_case = format!("a{}1", FRACTION_SLASH);
    assert_eq!(parse_decomposed_fraction(&non_ascii_case), None);
}

#[test]
fn test_parse_unicode_fraction_non_ascii_digit_denominator() {
    let non_ascii_case = format!("1{}b", FRACTION_SLASH);
    assert_eq!(parse_decomposed_fraction(&non_ascii_case), None);
}

#[test]
fn test_parse_unicode_fraction_multi_slash() {
    let multi_slash_case = format!("1{}2{}3", FRACTION_SLASH, FRACTION_SLASH);
    assert_eq!(parse_decomposed_fraction(&multi_slash_case), None);
}

#[test]
fn test_consume_whitespace() {
    let s = "   abc";
    let mut iter = CharCursor::new(s);
    consume_whitespace(&mut iter);
    assert_eq!(iter.next(), Some('a'));
}

#[test]
fn test_consume_whitespace_no_whitespace() {
    let s = "abc";
    let mut iter = CharCursor::new(s);
    consume_whitespace(&mut iter);
    assert_eq!(iter.next(), Some('a'));
}

#[test]
fn test_consume_whitespace_only_whitespace() {
    let s = "   ";
    let mut iter = CharCursor::new(s);
    consume_whitespace(&mut iter);
    assert_eq!(iter.next(), None);
}

#[test]
fn test_consume_whitespace_tabs_newlines() {
    let s = "\t\n  abc";
    let mut iter = CharCursor::new(s);
    consume_whitespace(&mut iter);
    assert_eq!(iter.next(), Some('a'));
}

#[test]
fn test_read_braced_content_valid() {
    let s = "{123}";
    let mut iter = CharCursor::new(s);
    let result = read_braced_content(&mut iter);
    assert_eq!(result, Some("123".to_string()));
}

#[test]
fn test_read_braced_content_with_whitespace() {
    let s = "{ 123 }";
    let mut iter = CharCursor::new(s);
    let result = read_braced_content(&mut iter);
    assert_eq!(result, Some("123".to_string()));

    let s = "{ 1 2 3 }";
    let mut iter = CharCursor::new(s);
    let result = read_braced_content(&mut iter);
    assert_eq!(result, None);
}

#[test]
fn test_read_braced_content_with_superscript() {
    let s = "{¹²³}";
    let mut iter = CharCursor::new(s);
    let result = read_braced_content(&mut iter);
    assert_eq!(result, Some("123".to_string()));
}

#[test]
fn test_read_braced_content_empty() {
    let s = "{}";
    let mut iter = CharCursor::new(s);
    let result = read_braced_content(&mut iter);
    assert_eq!(result, None);
}

#[test]
fn test_read_braced_content_no_opening_brace() {
    let s = "123}";
    let mut iter = CharCursor::new(s);
    let result = read_braced_content(&mut iter);
    assert_eq!(result, None);
}

#[test]
fn test_read_braced_content_no_closing_brace() {
    let s = "{123";
    let mut iter = CharCursor::new(s);
    let result = read_braced_content(&mut iter);
    assert_eq!(result, None);
}

#[test]
fn test_read_braced_content_with_non_digit() {
    let s = "{1a3}";
    let mut iter = CharCursor::new(s);
    let result = read_braced_content(&mut iter);
    assert_eq!(result, None);
}

#[test]
fn test_read_braced_content_with_leading_whitespace() {
    let s = "  {123}";
    let mut iter = CharCursor::new(s);
    let result = read_braced_content(&mut iter);
    assert_eq!(result, Some("123".to_string()));
}

#[test]
fn encode_number_string_gives_one_cell_for_each_digit() {
    assert_eq!(
        encode_number_string("0123456789", "test").unwrap(),
        vec![26, 1, 3, 9, 25, 17, 11, 27, 19, 10]
    );
}

#[test]
fn encode_number_string_reports_the_first_wrong_character() {
    match encode_number_string("12a4b", "test") {
        Err(BraillifyError::InvalidFractionPart { part_name, character, position }) => {
            assert_eq!(part_name, "test");
            assert_eq!(character, 'a');
            assert_eq!(position, Some(2));
        }
        other => panic!("unexpected result {:?}", other),
    }
    match encode_number_string("가나1", "whole number") {
        Err(BraillifyError::InvalidFractionPart { part_name, character, position }) => {
            assert_eq!(part_name, "whole number");
            assert_eq!(character, '가');
            assert_eq!(position, Some(0));
        }
        other => panic!("unexpected result {:?}", other),
    }
    assert_eq!(
        encode_number_string("7½", "test").unwrap_err().to_string(),
        "Invalid test part (non-ascii digit): '½' at position 1"
    );
}

#[test]
fn encode_number_string_rejects_digits_that_are_not_ascii() {
    for s in ["¹", "₂", "٣", "３"] {
        assert!(encode_number_string(s, "test").is_err());
    }
}

#[test]
fn encode_fraction_puts_the_denominator_first() {
    assert_eq!(
        encode_fraction("12", "345").unwrap(),
        vec![60, 9, 25, 17, 12, 60, 1, 3]
    );
    assert_eq!(encode_fraction("", "").unwrap(), vec![60, 12, 60]);
    assert_eq!(encode_fraction("0", "10").unwrap(), vec![60, 1, 26, 12, 60, 26]);
}

#[test]
fn encode_fraction_starts_with_the_indicator_and_has_the_stated_length() {
    for (n, d) in [("3", "4"), ("12", "34"), ("", "7"), ("123456789", "1"), ("0", "0000")] {
        let cells = encode_fraction(n, d).unwrap();
        assert_eq!(cells[0], 60);
        assert_eq!(cells.len(), 1 + d.len() + 1 + 1 + n.len());
    }
}

#[test]
fn encode_fraction_reports_the_denominator_before_the_numerator() {
    match encode_fraction("1x", "2y") {
        Err(BraillifyError::InvalidFractionPart { part_name, character, position }) => {
            assert_eq!(part_name, "fraction denominator");
            assert_eq!(character, 'y');
            assert_eq!(position, Some(1));
        }
        other => panic!("unexpected result {:?}", other),
    }
    match encode_fraction("1x", "2") {
        Err(BraillifyError::InvalidFractionPart { part_name, character, position }) => {
            assert_eq!(part_name, "fraction numerator");
            assert_eq!(character, 'x');
            assert_eq!(position, Some(1));
        }
        other => panic!("unexpected result {:?}", other),
    }
}

#[test]
fn encode_fraction_in_context_puts_the_numerator_first() {
    assert_eq!(
        encode_fraction_in_context("12", "345").unwrap(),
        vec![60, 1, 3, 56, 12, 60, 9, 25, 17]
    );
    assert_eq!(encode_fraction_in_context("", "").unwrap(), vec![60, 56, 12, 60]);
}

#[test]
fn encode_fraction_in_context_reports_the_numerator_before_the_denominator() {
    match encode_fraction_in_context("x1", "y2") {
        Err(BraillifyError::InvalidFractionPart { part_name, character, position }) => {
            assert_eq!(part_name, "fraction numerator");
            assert_eq!(character, 'x');
            assert_eq!(position, Some(0));
        }
        other => panic!("unexpected result {:?}", other),
    }
    match encode_fraction_in_context("1", "2y") {
        Err(BraillifyError::InvalidFractionPart { part_name, character, position }) => {
            assert_eq!(part_name, "fraction denominator");
            assert_eq!(character, 'y');
            assert_eq!(position, Some(1));
        }
        other => panic!("unexpected result {:?}", other),
    }
}

#[test]
fn encode_mixed_fraction_puts_the_whole_number_first() {
    assert_eq!(
        encode_mixed_fraction("12", "3", "45").unwrap(),
        vec![60, 1, 3, 60, 25, 17, 12, 60, 9]
    );
    assert_eq!(encode_mixed_fraction("", "", "").unwrap(), vec![60, 60, 12, 60]);
}

#[test]
fn encode_mixed_fraction_reports_whole_then_denominator_then_numerator() {
    let part = |r: Result<Vec<u8>, BraillifyError>| match r {
        Err(BraillifyError::InvalidFractionPart { part_name, .. }) => part_name,
        other => panic!("unexpected result {:?}", other),
    };
    assert_eq!(part(encode_mixed_fraction("a", "b", "c")), "whole number");
    assert_eq!(part(encode_mixed_fraction("1", "b", "c")), "fraction denominator");
    assert_eq!(part(encode_mixed_fraction("1", "b", "3")), "fraction numerator");
}

#[test]
fn normalize_digit_knows_no_other_digit() {
    let mut known = 0;
    for code in 0..=0x10FFFFu32 {
        if let Some(c) = char::from_u32(code) {
            if let Some(d) = normalize_digit(c) {
                assert!(d.is_ascii_digit());
                known += 1;
            }
        }
    }
    assert_eq!(known, 30);
    for c in ['٣', '３', '½', '①', 'Ⅳ'] {
        assert_eq!(normalize_digit(c), None);
    }
}

#[test]
fn consume_whitespace_reads_every_kind_of_white_space() {
    let mut iter = CharCursor::new(" \t\r\n\u{b}\u{c}\u{85}\u{a0}\u{1680}\u{2003}\u{2028}\u{3000}x ");
    consume_whitespace(&mut iter);
    assert_eq!(iter.next(), Some('x'));
    assert_eq!(iter.next(), Some(' '));
    let mut other = CharCursor::new("\u{200b}x");
    consume_whitespace(&mut other);
    assert_eq!(other.next(), Some('\u{200b}'));
}

#[test]
fn read_braced_content_leaves_the_rest_to_be_read() {
    let mut iter = CharCursor::new(" { 12\t}{34}x");
    assert_eq!(read_braced_content(&mut iter), Some("12".to_string()));
    assert_eq!(iter.peek(), Some('{'));
    assert_eq!(read_braced_content(&mut iter), Some("34".to_string()));
    assert_eq!(iter.next(), Some('x'));

    let mut split = CharCursor::new("{1 2}x");
    assert_eq!(read_braced_content(&mut split), None);
    assert_eq!(split.next(), Some('2'));

    let mut wrong = CharCursor::new("{1a}");
    assert_eq!(read_braced_content(&mut wrong), None);
    assert_eq!(wrong.next(), Some('a'));

    let mut unopened = CharCursor::new(" x{1}");
    assert_eq!(read_braced_content(&mut unopened), None);
    assert_eq!(unopened.next(), Some('{'));

    let mut empty = CharCursor::new("{ }x");
    assert_eq!(read_braced_content(&mut empty), None);
    assert_eq!(empty.next(), Some('x'));

    let mut open = CharCursor::new("{12 ");
    assert_eq!(read_braced_content(&mut open), None);
    assert_eq!(open.next(), None);
}

#[test]
fn parse_latex_fraction_tolerates_white_space_around_its_parts() {
    let expected = Some((Some("12".to_string()), "34".to_string(), "56".to_string()));
    assert_eq!(parse_latex_fraction("$12\\frac{34}{56}$"), expected);
    assert_eq!(parse_latex_fraction("\t$ 12 \\frac { 34} { 56 } $\n"), expected);
    assert_eq!(parse_latex_fraction("\u{3000}$12\\frac\u{a0}{34}{56}$\u{2003}"), expected);
    assert_eq!(parse_latex_fraction("$1 2\\frac{34}{56}$"), None);
    assert_eq!(parse_latex_fraction("$12\\ frac{34}{56}$"), None);
    assert_eq!(parse_latex_fraction("$12\\fr ac{34}{56}$"), None);
    assert_eq!(parse_latex_fraction("$12\\frac{34}{56}$ $"), None);
    assert_eq!(parse_latex_fraction("$12\\frac{34}{56}{78}$"), None);
    assert_eq!(parse_latex_fraction("$12\\frac{34}$"), None);
    assert_eq!(parse_latex_fraction("$12$"), None);
    assert_eq!(parse_latex_fraction("$"), None);
    assert_eq!(parse_latex_fraction("   "), None);
    assert_eq!(parse_latex_fraction("$\\Frac{3}{4}$"), None);
    assert_eq!(parse_latex_fraction("$\\frac{3}{4}}$"), None);
    assert_eq!(parse_latex_fraction("$\\frac{-3}{4}$"), None);
}

#[test]
fn parse_latex_fraction_reads_digits_alike() {
    let ascii = "$ 305\\frac{ 17 }{289 }$";
    for other in ["$ ³⁰⁵\\frac{ ¹⁷ }{²⁸⁹ }$", "$ ₃₀₅\\frac{ ₁₇ }{₂₈₉ }$", "$ 3⁰₅\\frac{ ¹7 }{₂8⁹ }$"] {
        assert_eq!(parse_latex_fraction(other), parse_latex_fraction(ascii));
    }
    assert_eq!(
        parse_latex_fraction(ascii),
        Some((Some("305".to_string()), "17".to_string(), "289".to_string()))
    );
}

#[test]
fn parse_latex_fraction_refuses_a_split_digit_run() {
    assert_eq!(parse_latex_fraction("$\\frac{1 2}{3}$"), None);
    assert_eq!(parse_latex_fraction("$\\frac{12}{3 4}$"), None);
    assert_eq!(parse_latex_fraction("$\\frac{1\t2}{3}$"), None);
    assert_eq!(parse_latex_fraction("$\\frac{¹ ²}{3}$"), None);
    assert_eq!(parse_latex_fraction("$5\\frac{1\u{a0}2}{3}$"), None);
    assert_eq!(
        parse_latex_fraction("$\\frac{ 12 }{ 3 }$"),
        Some((None, "12".to_string(), "3".to_string()))
    );
    let mut iter = CharCursor::new("{12 3}");
    assert_eq!(read_braced_content(&mut iter), None);
    assert_eq!(iter.next(), Some('3'));
}

#[test]
fn recognized_text_is_the_plain_form_without_white_space() {
    for s in ["  $ 12 \\frac { 34 } {56}$ ", "$\\frac{³}{₄}$", "\t$7\\frac{ 1}\n{2 } $"] {
        let (whole, numerator, denominator) = parse_latex_fraction(s).unwrap();
        let plain: String = s
            .trim()
            .chars()
            .filter(|c| !c.is_whitespace())
            .map(|c| normalize_digit(c).unwrap_or(c))
            .collect();
        let expected = format!(
            "${}\\frac{{{}}}{{{}}}$",
            whole.unwrap_or_default(),
            numerator,
            denominator
        );
        assert_eq!(plain, expected);
    }
}

#[test]
fn parse_latex_fraction_agrees_on_trimmed_text() {
    for s in ["  $\\frac{3}{4}$  ", "\n$1\\frac{2}{3}$", " x$\\frac{3}{4}$", "$\\frac{3}{4}$ x "] {
        assert_eq!(parse_latex_fraction(s), parse_latex_fraction(s.trim()));
    }
}

#[test]
fn parse_decomposed_fraction_trims_its_operands() {
    let spaced = format!(" 1 {} 20 ", FRACTION_SLASH);
    assert_eq!(
        parse_decomposed_fraction(&spaced),
        Some(("1".to_string(), "20".to_string()))
    );
    let inner = format!("1 2{}3", FRACTION_SLASH);
    assert_eq!(parse_decomposed_fraction(&inner), None);
    let no_numerator = format!("{}3", FRACTION_SLASH);
    assert_eq!(parse_decomposed_fraction(&no_numerator), None);
    let no_denominator = format!("1{} ", FRACTION_SLASH);
    assert_eq!(parse_decomposed_fraction(&no_denominator), None);
    assert_eq!(parse_decomposed_fraction("1/2"), None);
    assert_eq!(parse_decomposed_fraction(""), None);
    let superscript = format!("¹{}2", FRACTION_SLASH);
    assert_eq!(parse_decomposed_fraction(&superscript), None);
}

#[test]
fn parse_unicode_fraction_reads_the_decomposition() {
    assert_eq!(parse_unicode_fraction('⅐'), Some(("1".to_string(), "7".to_string())));
    assert_eq!(parse_unicode_fraction('⅑'), Some(("1".to_string(), "9".to_string())));
    assert_eq!(parse_unicode_fraction('⅒'), Some(("1".to_string(), "10".to_string())));
    assert_eq!(parse_unicode_fraction('↉'), Some(("0".to_string(), "3".to_string())));
    assert_eq!(parse_unicode_fraction('⅟'), None);
    assert_eq!(parse_unicode_fraction('℀'), None);
    assert_eq!(parse_unicode_fraction(FRACTION_SLASH), None);
    assert_eq!(parse_unicode_fraction('¹'), None);
}

#[test]
fn no_ascii_character_is_a_fraction() {
    for code in 0..0x80u32 {
        let c = char::from_u32(code).unwrap();
        assert_eq!(parse_unicode_fraction(c), None);
        assert!(!is_unicode_fraction(c));
    }
}

#[test]
fn is_unicode_fraction_agrees_with_parse_unicode_fraction() {
    let mut fractions = 0;
    for code in 0..=0xFFFFu32 {
        if let Some(c) = char::from_u32(code) {
            let parsed = parse_unicode_fraction(c);
            assert_eq!(is_unicode_fraction(c), parsed.is_some());
            if let Some((numerator, denominator)) = parsed {
                assert!(!numerator.is_empty() && numerator.chars().all(|d| d.is_ascii_digit()));
                assert!(!denominator.is_empty() && denominator.chars().all(|d| d.is_ascii_digit()));
                fractions += 1;
            }
        }
    }
    assert_eq!(fractions, 19);
}

#[test]
fn recognized_fields_are_no_fractions() {
    let (whole, numerator, denominator) = parse_latex_fraction("$12\\frac{34}{56}$").unwrap();
    for field in [whole.unwrap(), numerator, denominator] {
        assert_eq!(parse_latex_fraction(&field), None);
        assert_eq!(parse_decomposed_fraction(&field), None);
        assert!(field.chars().all(|c| !is_unicode_fraction(c)));
    }
    let (numerator, denominator) = parse_unicode_fraction('¾').unwrap();
    for field in [numerator, denominator] {
        assert_eq!(parse_latex_fraction(&field), None);
        assert_eq!(parse_decomposed_fraction(&field), None);
        assert!(field.chars().all(|c| !is_unicode_fraction(c)));
    }
}

#[test]
fn recognized_text_has_two_brace_groups() {
    for s in ["$\\frac{3}{4}$", " $ 1 \\frac { 22 } { 333 } $ ", "$₁\\frac{²}{³}$"] {
        assert!(parse_latex_fraction(s).is_some());
        let braces: String = s.chars().filter(|c| *c == '{' || *c == '}').collect();
        assert_eq!(braces, "{}{}");
    }
    for s in ["$\\frac{{3}}{4}$", "$\\frac{3}{4}{}$", "$\\frac{3}}{4}$", "$\\frac{3}{4$", "$\\frac{3{4}}$"] {
        assert_eq!(parse_latex_fraction(s), None);
    }
}
