//! The cell code table: Braille pattern characters and their dot-pattern codes.

use vstd::prelude::*;

verus! {

/// First code point of the Unicode Braille Patterns block.
pub const BRAILLE_BLOCK_FIRST: u32 = 0x2800;

/// Last code point of the Unicode Braille Patterns block.
pub const BRAILLE_BLOCK_LAST: u32 = 0x28FF;

/// Whether `c` lies in the Unicode Braille Patterns block.
pub open spec fn is_braille_pattern(c: char) -> bool {
    BRAILLE_BLOCK_FIRST <= c as u32 <= BRAILLE_BLOCK_LAST
}

/// The dot-pattern code of a Braille pattern character: its offset in the
/// block, in which bit `i` is set exactly when dot `i + 1` is raised.
pub open spec fn cell_code(c: char) -> u8
    recommends
        is_braille_pattern(c),
{
    (c as u32 - BRAILLE_BLOCK_FIRST) as u8
}

/// Converts a Braille pattern character into its dot-pattern code.
pub fn decode_unicode(unicode: char) -> (code: u8)
    requires
        is_braille_pattern(unicode),
    ensures
        code == cell_code(unicode),
        code as u32 + BRAILLE_BLOCK_FIRST == unicode as u32,
{
    (unicode as u32 - BRAILLE_BLOCK_FIRST) as u8
}

} // verus!
