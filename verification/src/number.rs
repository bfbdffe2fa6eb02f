//! The number encoder: one Braille cell for each ASCII decimal digit.

use vstd::prelude::*;
use crate::error::BraillifyError;
use crate::text::ascii_digit;
use crate::unicode::decode_unicode;

verus! {

/// The cell that announces that digits follow.
pub const NUMERIC_INDICATOR: u8 = 60;

/// The cell of an ASCII decimal digit. The digits one to nine and zero are
/// written with the cells of the letters a to j.
pub open spec fn digit_cell(digit: char) -> u8
    recommends
        ascii_digit(digit),
{
    match digit {
        '1' => 1,
        '2' => 3,
        '3' => 9,
        '4' => 25,
        '5' => 17,
        '6' => 11,
        '7' => 27,
        '8' => 19,
        '9' => 10,
        _ => 26,
    }
}

/// What encoding one character as a digit gives: its cell, or the error that
/// names the character, without a position.
pub open spec fn number_cell(digit: char) -> Result<u8, BraillifyError> {
    if ascii_digit(digit) {
        Ok(digit_cell(digit))
    } else {
        Err(BraillifyError::InvalidNumberCharacter { character: digit, position: None })
    }
}

/// Encodes one ASCII decimal digit as its Braille cell. Every other
/// character, a digit of another script included, is an error.
pub fn encode_number(digit: char) -> (r: Result<u8, BraillifyError>)
    ensures
        r == number_cell(digit),
        r is Ok <==> ascii_digit(digit),
{
    match digit {
        '0' => Ok(decode_unicode('⠚')),
        '1' => Ok(decode_unicode('⠁')),
        '2' => Ok(decode_unicode('⠃')),
        '3' => Ok(decode_unicode('⠉')),
        '4' => Ok(decode_unicode('⠙')),
        '5' => Ok(decode_unicode('⠑')),
        '6' => Ok(decode_unicode('⠋')),
        '7' => Ok(decode_unicode('⠛')),
        '8' => Ok(decode_unicode('⠓')),
        '9' => Ok(decode_unicode('⠊')),
        _ => Err(BraillifyError::InvalidNumberCharacter { character: digit, position: None }),
    }
}

} // verus!
