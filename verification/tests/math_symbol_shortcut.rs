use braillify::error::BraillifyError;
use braillify::math_symbol_shortcut::{encode_char_math_symbol_shortcut, is_math_symbol_char};
use braillify::unicode::decode_unicode;

#[test]
pub fn test_is_math_symbol_char() {
    assert!(is_math_symbol_char('+'));
    assert!(is_math_symbol_char('−'));
    assert!(is_math_symbol_char('×'));
    assert!(is_math_symbol_char('÷'));
    assert!(is_math_symbol_char('='));
    assert!(is_math_symbol_char('>'));
    assert!(is_math_symbol_char('<'));
    assert!(!is_math_symbol_char('a'));
}

#[test]
pub fn test_encode_char_math_symbol_shortcut() {
    assert_eq!(
        encode_char_math_symbol_shortcut('+').unwrap(),
        &[decode_unicode('⠢')]
    );
    assert_eq!(
        encode_char_math_symbol_shortcut('−').unwrap(),
        &[decode_unicode('⠔')]
    );
    assert_eq!(
        encode_char_math_symbol_shortcut('×').unwrap(),
        &[decode_unicode('⠡')]
    );
    assert_eq!(
        encode_char_math_symbol_shortcut('÷').unwrap(),
        &[decode_unicode('⠌'), decode_unicode('⠌')]
    );
    assert_eq!(
        encode_char_math_symbol_shortcut('=').unwrap(),
        &[decode_unicode('⠒'), decode_unicode('⠒')]
    );
    assert_eq!(
        encode_char_math_symbol_shortcut('>').unwrap(),
        &[decode_unicode('⠢'), decode_unicode('⠢')]
    );
    assert_eq!(
        encode_char_math_symbol_shortcut('<').unwrap(),
        &[decode_unicode('⠔'), decode_unicode('⠔')]
    );
    assert!(encode_char_math_symbol_shortcut('a')
        .unwrap_err()
        .to_string()
        .contains("Invalid math symbol character"));
}

#[test]
fn math_symbol_cells_are_the_documented_codes() {
    assert_eq!(encode_char_math_symbol_shortcut('+').unwrap(), &[34]);
    assert_eq!(encode_char_math_symbol_shortcut('−').unwrap(), &[20]);
    assert_eq!(encode_char_math_symbol_shortcut('×').unwrap(), &[33]);
    assert_eq!(encode_char_math_symbol_shortcut('÷').unwrap(), &[12, 12]);
    assert_eq!(encode_char_math_symbol_shortcut('=').unwrap(), &[18, 18]);
    assert_eq!(encode_char_math_symbol_shortcut('>').unwrap(), &[34, 34]);
    assert_eq!(encode_char_math_symbol_shortcut('<').unwrap(), &[20, 20]);
}

#[test]
fn math_symbol_error_message() {
    assert_eq!(
        encode_char_math_symbol_shortcut('a').unwrap_err().to_string(),
        "Invalid math symbol character 'a'"
    );
}

#[test]
fn math_symbol_error_names_the_character() {
    for c in ['a', '-', '*', '/', '≤', ' '] {
        assert!(!is_math_symbol_char(c));
        match encode_char_math_symbol_shortcut(c) {
            Err(BraillifyError::InvalidMathSymbolCharacter { character, position }) => {
                assert_eq!(character, c);
                assert_eq!(position, None);
            }
            other => panic!("unexpected result {:?}", other),
        }
    }
}

#[test]
fn every_character_is_a_math_symbol_exactly_when_it_encodes() {
    for code in 0..=0x10FFFFu32 {
        if let Some(c) = char::from_u32(code) {
            assert_eq!(is_math_symbol_char(c), encode_char_math_symbol_shortcut(c).is_ok());
        }
    }
}
