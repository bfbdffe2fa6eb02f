//! The shortcut cells of the arithmetic and comparison signs.

use vstd::prelude::*;
use crate::error::BraillifyError;
use crate::unicode::cell_code;

verus! {

/// The cells of an arithmetic or comparison sign, given by the Braille
/// patterns that write it; nothing for any other character.
pub open spec fn math_symbol_cells(c: char) -> Option<Seq<u8>> {
    match c {
        '+' => Some(seq![cell_code('⠢')]),
        '−' => Some(seq![cell_code('⠔')]),
        '×' => Some(seq![cell_code('⠡')]),
        '÷' => Some(seq![cell_code('⠌'), cell_code('⠌')]),
        '=' => Some(seq![cell_code('⠒'), cell_code('⠒')]),
        '>' => Some(seq![cell_code('⠢'), cell_code('⠢')]),
        '<' => Some(seq![cell_code('⠔'), cell_code('⠔')]),
        _ => None,
    }
}

/// Encodes an arithmetic or comparison sign as its shortcut cells. Any
/// other character is an error that names it, without a position.
pub fn encode_char_math_symbol_shortcut(text: char) -> (r: Result<&'static [u8], BraillifyError>)
    ensures
        match math_symbol_cells(text) {
            Some(cells) => r is Ok && r->Ok_0@ == cells,
            None => r == Err::<&'static [u8], BraillifyError>(
                BraillifyError::InvalidMathSymbolCharacter { character: text, position: None },
            ),
        },
{
    match text {
        '+' => {
            let cells: &'static [u8] = &[34u8];
            assert(cells@ =~= seq![cell_code('⠢')]);
            Ok(cells)
        },
        '−' => {
            let cells: &'static [u8] = &[20u8];
            assert(cells@ =~= seq![cell_code('⠔')]);
            Ok(cells)
        },
        '×' => {
            let cells: &'static [u8] = &[33u8];
            assert(cells@ =~= seq![cell_code('⠡')]);
            Ok(cells)
        },
        '÷' => {
            let cells: &'static [u8] = &[12u8, 12u8];
            assert(cells@ =~= seq![cell_code('⠌'), cell_code('⠌')]);
            Ok(cells)
        },
        '=' => {
            let cells: &'static [u8] = &[18u8, 18u8];
            assert(cells@ =~= seq![cell_code('⠒'), cell_code('⠒')]);
            Ok(cells)
        },
        '>' => {
            let cells: &'static [u8] = &[34u8, 34u8];
            assert(cells@ =~= seq![cell_code('⠢'), cell_code('⠢')]);
            Ok(cells)
        },
        '<' => {
            let cells: &'static [u8] = &[20u8, 20u8];
            assert(cells@ =~= seq![cell_code('⠔'), cell_code('⠔')]);
            Ok(cells)
        },
        _ => Err(BraillifyError::InvalidMathSymbolCharacter { character: text, position: None }),
    }
}

/// Tells whether `text` is a sign that has shortcut cells.
pub fn is_math_symbol_char(text: char) -> (r: bool)
    ensures
        r == (math_symbol_cells(text) is Some),
{
    match text {
        '+' | '−' | '×' | '÷' | '=' | '>' | '<' => true,
        _ => false,
    }
}

} // verus!
