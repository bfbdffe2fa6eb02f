//! Unicode compatibility decomposition, as the crate `unicode-normalization`
//! computes it.

use vstd::prelude::*;
use unicode_normalization::UnicodeNormalization;

verus! {

/// The compatibility decomposition (normalization form KD) of one character:
/// what `UnicodeNormalization::nfkd` yields for it, character by character.
pub uninterp spec fn compatibility_decomposition(c: char) -> Seq<char>;

/// Calls `UnicodeNormalization::nfkd` on `c` and collects the characters it
/// yields. The result depends on `c` alone. A character of 7-bit ASCII is
/// never decomposed: the result then holds `c` and nothing else.
#[verifier::external_body]
pub(crate) fn nfkd(c: char) -> (decomposed: String)
    ensures
        decomposed@ == compatibility_decomposition(c),
        (c as u32) < 0x80 ==> decomposed@ == seq![c],
{
    c.nfkd().collect::<String>()
}

} // verus!
