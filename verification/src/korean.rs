//! Precomposed Hangul syllables: their decomposition into the indices of
//! the initial consonant (choseong), the vowel (jungseong) and the final
//! consonant (jongseong), and the Braille cells of each.

use vstd::prelude::*;
use crate::error::BraillifyError;
use crate::unicode::decode_unicode;

verus! {

/// The first precomposed Hangul syllable.
pub const SYLLABLE_BASE: u32 = 0xAC00;

/// The last precomposed Hangul syllable.
pub const SYLLABLE_LAST: u32 = 0xD7A3;

/// The number of initial consonants.
pub const CHOSEONG_COUNT: u32 = 19;

/// The number of vowels.
pub const JUNGSEONG_COUNT: u32 = 21;

/// The number of final consonants, the absent one included.
pub const JONGSEONG_COUNT: u32 = 28;

/// Whether `c` is a precomposed Hangul syllable.
pub open spec fn is_hangul_syllable(c: char) -> bool {
    SYLLABLE_BASE <= c as u32 <= SYLLABLE_LAST
}

/// The place of a syllable in the block of syllables.
pub open spec fn syllable_offset(c: char) -> int
    recommends
        is_hangul_syllable(c),
{
    c as u32 - SYLLABLE_BASE
}

/// The index of the initial consonant of a syllable.
pub open spec fn choseong_of(c: char) -> int
    recommends
        is_hangul_syllable(c),
{
    syllable_offset(c) / (JUNGSEONG_COUNT * JONGSEONG_COUNT)
}

/// The index of the vowel of a syllable.
pub open spec fn jungseong_of(c: char) -> int
    recommends
        is_hangul_syllable(c),
{
    (syllable_offset(c) % (JUNGSEONG_COUNT * JONGSEONG_COUNT)) / (JONGSEONG_COUNT as int)
}

/// The index of the final consonant of a syllable; zero where it has none.
pub open spec fn jongseong_of(c: char) -> int
    recommends
        is_hangul_syllable(c),
{
    syllable_offset(c) % (JONGSEONG_COUNT as int)
}

/// The indices of every precomposed Hangul syllable lie within their
/// tables: the initial consonant from 0 to 18, the vowel from 0 to 20, the
/// final consonant from 0 to 27. The three indices give the syllable back,
/// so no two syllables share them.
pub proof fn lemma_indices_in_bounds(c: char)
    requires
        is_hangul_syllable(c),
    ensures
        0 <= choseong_of(c) <= 18,
        0 <= jungseong_of(c) <= 20,
        0 <= jongseong_of(c) <= 27,
        syllable_offset(c) == (choseong_of(c) * 21 + jungseong_of(c)) * 28 + jongseong_of(c),
{
    let offset = syllable_offset(c);
    assert(0 <= offset <= 11171);
    assert(JUNGSEONG_COUNT * JONGSEONG_COUNT == 588);
    let within = offset % 588;
    assert(offset == 588 * (offset / 588) + within);
    assert(within == 28 * (within / 28) + within % 28);
    assert(within % 28 == offset % 28);
}

/// A precomposed Hangul syllable with the indices of its three parts. The
/// indices are those of the code point: a value of this type is made by
/// decomposition only.
#[derive(Debug, Clone, Copy)]
pub struct HangulSyllable {
    codepoint: char,
    choseong_index: u8,
    jungseong_index: u8,
    jongseong_index: u8,
}

impl HangulSyllable {
    #[verifier::type_invariant]
    spec fn well_formed(self) -> bool {
        &&& is_hangul_syllable(self.codepoint)
        &&& self.choseong_index == choseong_of(self.codepoint)
        &&& self.jungseong_index == jungseong_of(self.codepoint)
        &&& self.jongseong_index == jongseong_of(self.codepoint)
    }

    /// The code point of the syllable.
    pub closed spec fn spec_codepoint(&self) -> char {
        self.codepoint
    }

    /// The index of the initial consonant.
    pub closed spec fn spec_choseong_index(&self) -> u8 {
        self.choseong_index
    }

    /// The index of the vowel.
    pub closed spec fn spec_jungseong_index(&self) -> u8 {
        self.jungseong_index
    }

    /// The index of the final consonant; zero where there is none.
    pub closed spec fn spec_jongseong_index(&self) -> u8 {
        self.jongseong_index
    }

    /// Whether the indices are those of the code point, which is a
    /// syllable. This holds of every value of the type.
    pub open spec fn decomposes_codepoint(&self) -> bool {
        &&& is_hangul_syllable(self.spec_codepoint())
        &&& self.spec_choseong_index() == choseong_of(self.spec_codepoint())
        &&& self.spec_jungseong_index() == jungseong_of(self.spec_codepoint())
        &&& self.spec_jongseong_index() == jongseong_of(self.spec_codepoint())
    }

    /// Decomposes a precomposed Hangul syllable into the indices of its
    /// three parts. Any other character is an error that carries it and
    /// the position given.
    pub fn decompose(c: char, position: Option<usize>) -> (r: Result<
        HangulSyllable,
        BraillifyError,
    >)
        ensures
            match r {
                Ok(syllable) => {
                    &&& is_hangul_syllable(c)
                    &&& syllable.spec_codepoint() == c
                    &&& syllable.decomposes_codepoint()
                    &&& syllable.spec_choseong_index() <= 18
                    &&& syllable.spec_jungseong_index() <= 20
                    &&& syllable.spec_jongseong_index() <= 27
                },
                Err(e) => {
                    &&& !is_hangul_syllable(c)
                    &&& e == (BraillifyError::InvalidKoreanCharacter { character: c, position })
                },
            },
    {
        let code: u32 = c as u32;
        if code < SYLLABLE_BASE || code > SYLLABLE_LAST {
            return Err(BraillifyError::InvalidKoreanCharacter { character: c, position });
        }
        let offset: u32 = code - SYLLABLE_BASE;
        let choseong: u32 = offset / (JUNGSEONG_COUNT * JONGSEONG_COUNT);
        let jungseong: u32 = (offset % (JUNGSEONG_COUNT * JONGSEONG_COUNT)) / JONGSEONG_COUNT;
        let jongseong: u32 = offset % JONGSEONG_COUNT;
        Ok(
            HangulSyllable {
                codepoint: c,
                choseong_index: choseong as u8,
                jungseong_index: jungseong as u8,
                jongseong_index: jongseong as u8,
            },
        )
    }

    /// The code point of the syllable.
    pub fn codepoint(&self) -> (c: char)
        ensures
            c == self.spec_codepoint(),
            is_hangul_syllable(c),
    {
        proof {
            use_type_invariant(self);
        }
        self.codepoint
    }

    /// The index of the initial consonant.
    pub fn choseong_index(&self) -> (i: u8)
        ensures
            i == self.spec_choseong_index(),
            i == choseong_of(self.spec_codepoint()),
            i <= 18,
    {
        proof {
            use_type_invariant(self);
            lemma_indices_in_bounds(self.codepoint);
        }
        self.choseong_index
    }

    /// The index of the vowel.
    pub fn jungseong_index(&self) -> (i: u8)
        ensures
            i == self.spec_jungseong_index(),
            i == jungseong_of(self.spec_codepoint()),
            i <= 20,
    {
        proof {
            use_type_invariant(self);
            lemma_indices_in_bounds(self.codepoint);
        }
        self.jungseong_index
    }

    /// The index of the final consonant; zero where there is none.
    pub fn jongseong_index(&self) -> (i: u8)
        ensures
            i == self.spec_jongseong_index(),
            i == jongseong_of(self.spec_codepoint()),
            i <= 27,
    {
        proof {
            use_type_invariant(self);
            lemma_indices_in_bounds(self.codepoint);
        }
        self.jongseong_index
    }
}

/// The cells of the initial consonant with the given index, in the order
/// ㄱ ㄲ ㄴ ㄷ ㄸ ㄹ ㅁ ㅂ ㅃ ㅅ ㅆ ㅇ ㅈ ㅉ ㅊ ㅋ ㅌ ㅍ ㅎ. A doubled consonant
/// takes the cell of ㅅ before the cell of the single one. An index beyond
/// the table has no cells.
pub open spec fn choseong_cells(index: int) -> Option<Seq<u8>> {
    if index == 0 {
        Some(seq![8u8])
    } else if index == 1 {
        Some(seq![32u8, 8u8])
    } else if index == 2 {
        Some(seq![9u8])
    } else if index == 3 {
        Some(seq![10u8])
    } else if index == 4 {
        Some(seq![32u8, 10u8])
    } else if index == 5 {
        Some(seq![16u8])
    } else if index == 6 {
        Some(seq![17u8])
    } else if index == 7 {
        Some(seq![24u8])
    } else if index == 8 {
        Some(seq![32u8, 24u8])
    } else if index == 9 {
        Some(seq![32u8])
    } else if index == 10 {
        Some(seq![32u8, 32u8])
    } else if index == 11 {
        Some(seq![27u8])
    } else if index == 12 {
        Some(seq![40u8])
    } else if index == 13 {
        Some(seq![32u8, 40u8])
    } else if index == 14 {
        Some(seq![48u8])
    } else if index == 15 {
        Some(seq![11u8])
    } else if index == 16 {
        Some(seq![19u8])
    } else if index == 17 {
        Some(seq![25u8])
    } else if index == 18 {
        Some(seq![26u8])
    } else {
        None
    }
}

/// The cells of the vowel with the given index, in the order
/// ㅏ ㅐ ㅑ ㅒ ㅓ ㅔ ㅕ ㅖ ㅗ ㅘ ㅙ ㅚ ㅛ ㅜ ㅝ ㅞ ㅟ ㅠ ㅡ ㅢ ㅣ. The vowels
/// ㅒ ㅙ ㅞ ㅟ take the cell of ㅐ behind the cell of ㅑ ㅘ ㅝ ㅜ. An index
/// beyond the table has no cells.
pub open spec fn jungseong_cells(index: int) -> Option<Seq<u8>> {
    if index == 0 {
        Some(seq![35u8])
    } else if index == 1 {
        Some(seq![23u8])
    } else if index == 2 {
        Some(seq![28u8])
    } else if index == 3 {
        Some(seq![28u8, 23u8])
    } else if index == 4 {
        Some(seq![14u8])
    } else if index == 5 {
        Some(seq![29u8])
    } else if index == 6 {
        Some(seq![49u8])
    } else if index == 7 {
        Some(seq![12u8])
    } else if index == 8 {
        Some(seq![37u8])
    } else if index == 9 {
        Some(seq![39u8])
    } else if index == 10 {
        Some(seq![39u8, 23u8])
    } else if index == 11 {
        Some(seq![61u8])
    } else if index == 12 {
        Some(seq![44u8])
    } else if index == 13 {
        Some(seq![13u8])
    } else if index == 14 {
        Some(seq![15u8])
    } else if index == 15 {
        Some(seq![15u8, 23u8])
    } else if index == 16 {
        Some(seq![13u8, 23u8])
    } else if index == 17 {
        Some(seq![41u8])
    } else if index == 18 {
        Some(seq![42u8])
    } else if index == 19 {
        Some(seq![58u8])
    } else if index == 20 {
        Some(seq![21u8])
    } else {
        None
    }
}

/// The cells of the final consonant with the given index: none for index
/// zero, which stands for a syllable without one, then in the order
/// ㄱ ㄲ ㄳ ㄴ ㄵ ㄶ ㄷ ㄹ ㄺ ㄻ ㄼ ㄽ ㄾ ㄿ ㅀ ㅁ ㅂ ㅄ ㅅ ㅆ ㅇ ㅈ ㅊ ㅋ ㅌ ㅍ ㅎ.
/// A cluster takes the cells of its two consonants. An index beyond the
/// table has no cells.
pub open spec fn jongseong_cells(index: int) -> Option<Seq<u8>> {
    if index == 0 {
        Some(Seq::empty())
    } else if index == 1 {
        Some(seq![1u8])
    } else if index == 2 {
        Some(seq![1u8, 1u8])
    } else if index == 3 {
        Some(seq![1u8, 4u8])
    } else if index == 4 {
        Some(seq![18u8])
    } else if index == 5 {
        Some(seq![18u8, 5u8])
    } else if index == 6 {
        Some(seq![18u8, 52u8])
    } else if index == 7 {
        Some(seq![20u8])
    } else if index == 8 {
        Some(seq![2u8])
    } else if index == 9 {
        Some(seq![2u8, 1u8])
    } else if index == 10 {
        Some(seq![2u8, 34u8])
    } else if index == 11 {
        Some(seq![2u8, 3u8])
    } else if index == 12 {
        Some(seq![2u8, 4u8])
    } else if index == 13 {
        Some(seq![2u8, 38u8])
    } else if index == 14 {
        Some(seq![2u8, 50u8])
    } else if index == 15 {
        Some(seq![2u8, 52u8])
    } else if index == 16 {
        Some(seq![34u8])
    } else if index == 17 {
        Some(seq![3u8])
    } else if index == 18 {
        Some(seq![3u8, 4u8])
    } else if index == 19 {
        Some(seq![4u8])
    } else if index == 20 {
        Some(seq![12u8])
    } else if index == 21 {
        Some(seq![54u8])
    } else if index == 22 {
        Some(seq![5u8])
    } else if index == 23 {
        Some(seq![6u8])
    } else if index == 24 {
        Some(seq![22u8])
    } else if index == 25 {
        Some(seq![38u8])
    } else if index == 26 {
        Some(seq![50u8])
    } else if index == 27 {
        Some(seq![52u8])
    } else {
        None
    }
}

/// The cells of a syllable: those of its initial consonant, of its vowel
/// and of its final consonant, in that order.
pub open spec fn syllable_cells(c: char) -> Seq<u8>
    recommends
        is_hangul_syllable(c),
{
    choseong_cells(choseong_of(c))->0 + jungseong_cells(jungseong_of(c))->0 + jongseong_cells(
        jongseong_of(c),
    )->0
}

/// Every initial consonant and every vowel of the tables takes one cell or
/// two; a final consonant takes one cell or two, and the absent one, and
/// it alone, takes none.
pub proof fn lemma_part_cells_lengths(index: int)
    ensures
        0 <= index <= 18 <==> choseong_cells(index) is Some,
        0 <= index <= 20 <==> jungseong_cells(index) is Some,
        0 <= index <= 27 <==> jongseong_cells(index) is Some,
        choseong_cells(index) matches Some(cells) ==> 1 <= cells.len() <= 2,
        jungseong_cells(index) matches Some(cells) ==> 1 <= cells.len() <= 2,
        jongseong_cells(index) matches Some(cells) ==> cells.len() <= 2 && (cells.len() == 0
            <==> index == 0),
{
}

/// Gives the cells of the initial consonant with the given index. An index
/// beyond the table is an error that carries the character it was taken
/// from and the position given.
pub fn encode_choseong(index: u8, character: char, position: Option<usize>) -> (r: Result<
    Vec<u8>,
    BraillifyError,
>)
    ensures
        match choseong_cells(index as int) {
            Some(cells) => r is Ok && r->Ok_0@ == cells,
            None => r == Err::<Vec<u8>, BraillifyError>(
                BraillifyError::InvalidKoreanChoseong { character, position },
            ),
        },
        r is Ok <==> index <= 18,
{
    let tense = decode_unicode('⠠');
    let cells = match index {
        0 => vec![decode_unicode('⠈')],
        1 => vec![tense, decode_unicode('⠈')],
        2 => vec![decode_unicode('⠉')],
        3 => vec![decode_unicode('⠊')],
        4 => vec![tense, decode_unicode('⠊')],
        5 => vec![decode_unicode('⠐')],
        6 => vec![decode_unicode('⠑')],
        7 => vec![decode_unicode('⠘')],
        8 => vec![tense, decode_unicode('⠘')],
        9 => vec![decode_unicode('⠠')],
        10 => vec![tense, decode_unicode('⠠')],
        11 => vec![decode_unicode('⠛')],
        12 => vec![decode_unicode('⠨')],
        13 => vec![tense, decode_unicode('⠨')],
        14 => vec![decode_unicode('⠰')],
        15 => vec![decode_unicode('⠋')],
        16 => vec![decode_unicode('⠓')],
        17 => vec![decode_unicode('⠙')],
        18 => vec![decode_unicode('⠚')],
        _ => {
            return Err(BraillifyError::InvalidKoreanChoseong { character, position });
        },
    };
    assert(cells@ =~= choseong_cells(index as int)->0);
    Ok(cells)
}

/// Gives the cells of the vowel with the given index. An index beyond the
/// table is an error that carries the character it was taken from and the
/// position given.
pub fn encode_jungseong(index: u8, character: char, position: Option<usize>) -> (r: Result<
    Vec<u8>,
    BraillifyError,
>)
    ensures
        match jungseong_cells(index as int) {
            Some(cells) => r is Ok && r->Ok_0@ == cells,
            None => r == Err::<Vec<u8>, BraillifyError>(
                BraillifyError::InvalidKoreanJungseong { character, position },
            ),
        },
        r is Ok <==> index <= 20,
{
    let ae = decode_unicode('⠗');
    let cells = match index {
        0 => vec![decode_unicode('⠣')],
        1 => vec![ae],
        2 => vec![decode_unicode('⠜')],
        3 => vec![decode_unicode('⠜'), ae],
        4 => vec![decode_unicode('⠎')],
        5 => vec![decode_unicode('⠝')],
        6 => vec![decode_unicode('⠱')],
        7 => vec![decode_unicode('⠌')],
        8 => vec![decode_unicode('⠥')],
        9 => vec![decode_unicode('⠧')],
        10 => vec![decode_unicode('⠧'), ae],
        11 => vec![decode_unicode('⠽')],
        12 => vec![decode_unicode('⠬')],
        13 => vec![decode_unicode('⠍')],
        14 => vec![decode_unicode('⠏')],
        15 => vec![decode_unicode('⠏'), ae],
        16 => vec![decode_unicode('⠍'), ae],
        17 => vec![decode_unicode('⠩')],
        18 => vec![decode_unicode('⠪')],
        19 => vec![decode_unicode('⠺')],
        20 => vec![decode_unicode('⠕')],
        _ => {
            return Err(BraillifyError::InvalidKoreanJungseong { character, position });
        },
    };
    assert(cells@ =~= jungseong_cells(index as int)->0);
    Ok(cells)
}

/// Gives the cells of the final consonant with the given index; for index
/// zero, no cell. An index beyond the table is an error that carries the
/// character it was taken from and the position given.
pub fn encode_jongseong(index: u8, character: char, position: Option<usize>) -> (r: Result<
    Vec<u8>,
    BraillifyError,
>)
    ensures
        match jongseong_cells(index as int) {
            Some(cells) => r is Ok && r->Ok_0@ == cells,
            None => r == Err::<Vec<u8>, BraillifyError>(
                BraillifyError::InvalidKoreanJongseong { character, position },
            ),
        },
        r is Ok <==> index <= 27,
        index == 0 ==> r is Ok && r->Ok_0@.len() == 0,
{
    let giyeok = decode_unicode('⠁');
    let nieun = decode_unicode('⠒');
    let rieul = decode_unicode('⠂');
    let bieup = decode_unicode('⠃');
    let siot = decode_unicode('⠄');
    let cells = match index {
        0 => Vec::new(),
        1 => vec![giyeok],
        2 => vec![giyeok, giyeok],
        3 => vec![giyeok, siot],
        4 => vec![nieun],
        5 => vec![nieun, decode_unicode('⠅')],
        6 => vec![nieun, decode_unicode('⠴')],
        7 => vec![decode_unicode('⠔')],
        8 => vec![rieul],
        9 => vec![rieul, giyeok],
        10 => vec![rieul, decode_unicode('⠢')],
        11 => vec![rieul, bieup],
        12 => vec![rieul, siot],
        13 => vec![rieul, decode_unicode('⠦')],
        14 => vec![rieul, decode_unicode('⠲')],
        15 => vec![rieul, decode_unicode('⠴')],
        16 => vec![decode_unicode('⠢')],
        17 => vec![bieup],
        18 => vec![bieup, siot],
        19 => vec![siot],
        20 => vec![decode_unicode('⠌')],
        21 => vec![decode_unicode('⠶')],
        22 => vec![decode_unicode('⠅')],
        23 => vec![decode_unicode('⠆')],
        24 => vec![decode_unicode('⠖')],
        25 => vec![decode_unicode('⠦')],
        26 => vec![decode_unicode('⠲')],
        27 => vec![decode_unicode('⠴')],
        _ => {
            return Err(BraillifyError::InvalidKoreanJongseong { character, position });
        },
    };
    assert(cells@ =~= jongseong_cells(index as int)->0);
    Ok(cells)
}

/// Encodes a decomposed syllable: the cells of its initial consonant, of
/// its vowel and of its final consonant, in that order. A syllable without
/// a final consonant ends with the cells of its vowel. The indices of a
/// syllable lie within the three tables, so the encoding always succeeds;
/// `position` would go into the error of a part that had no cells.
pub fn encode_syllable(syllable: &HangulSyllable, position: Option<usize>) -> (r: Result<
    Vec<u8>,
    BraillifyError,
>)
    ensures
        r is Ok,
        r->Ok_0@ == syllable_cells(syllable.spec_codepoint()),
        syllable.spec_jongseong_index() == 0 ==> r->Ok_0@ == choseong_cells(
            syllable.spec_choseong_index() as int,
        )->0 + jungseong_cells(syllable.spec_jungseong_index() as int)->0,
{
    let character = syllable.codepoint();
    let mut cells = encode_choseong(syllable.choseong_index(), character, position)?;
    let mut vowel = encode_jungseong(syllable.jungseong_index(), character, position)?;
    cells.append(&mut vowel);
    let mut last = encode_jongseong(syllable.jongseong_index(), character, position)?;
    let ghost before = cells@;
    cells.append(&mut last);
    assert(syllable.spec_jongseong_index() == 0 ==> cells@ =~= before);
    Ok(cells)
}

/// Encodes one precomposed Hangul syllable. Any other character is an error
/// that carries it and the position given.
pub fn encode_korean_char(c: char, position: Option<usize>) -> (r: Result<Vec<u8>, BraillifyError>)
    ensures
        match r {
            Ok(cells) => is_hangul_syllable(c) && cells@ == syllable_cells(c),
            Err(e) => {
                &&& !is_hangul_syllable(c)
                &&& e == (BraillifyError::InvalidKoreanCharacter { character: c, position })
            },
        },
        r matches Ok(cells) ==> (jongseong_of(c) == 0 ==> cells@ == choseong_cells(
            choseong_of(c),
        )->0 + jungseong_cells(jungseong_of(c))->0),
{
    let syllable = HangulSyllable::decompose(c, position)?;
    encode_syllable(&syllable, position)
}

} // verus!
