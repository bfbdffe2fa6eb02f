//! Fractions: the three Braille forms of a fraction, and the recognizers of
//! the LaTeX notation and of the single-character vulgar fractions.

use vstd::prelude::*;
use vstd::string::StringExecFns;
use crate::cursor::CharCursor;
use crate::error::BraillifyError;
use crate::normalization::{compatibility_decomposition, nfkd};
use crate::number::{digit_cell, encode_number, NUMERIC_INDICATOR};
use crate::unicode::cell_code;
use crate::fraction_laws::{
    lemma_decomposed_fraction_is_normalized, lemma_latex_fraction_is_normalized,
    lemma_leading_digits_are_digits, lemma_one_character_is_no_fraction,
};
use crate::text::{
    all_ascii_digits, ascii_digit, chars_of, digit_char, digit_string, is_ascii_digit,
    is_whitespace, string_of, trim, trim_range, trim_start, white_space,
};

verus! {

/// The cell that stands between the two operands of a fraction.
pub const FRACTION_LINE: u8 = 12;

/// The cell that closes the numerator of a fraction written inside running
/// text.
pub const CONTEXT_CLOSE: u8 = 56;

/// The cells of a string of ASCII decimal digits, one for each digit, in the
/// order of the digits.
pub open spec fn digit_cells(s: Seq<char>) -> Seq<u8>
    recommends
        all_ascii_digits(s),
{
    s.map_values(|c: char| digit_cell(c))
}

/// Whether `i` is the place of the first character of `s` that is not an
/// ASCII decimal digit.
pub open spec fn is_first_non_digit(s: Seq<char>, i: int) -> bool {
    &&& 0 <= i < s.len()
    &&& !ascii_digit(s[i])
    &&& all_ascii_digits(s.take(i))
}

/// Whether `e` is the error owed for the part `part_name` with the digits
/// `s`: it names the part, the first character of `s` that is not an ASCII
/// decimal digit, and the place of that character in `s`.
pub open spec fn invalid_part(e: BraillifyError, part_name: Seq<char>, s: Seq<char>) -> bool {
    &&& e matches BraillifyError::InvalidFractionPart { part_name: name, character, position }
    &&& name@ == part_name
    &&& position matches Some(i)
    &&& is_first_non_digit(s, i as int)
    &&& character == s[i as int]
}

/// The standalone form: the denominator, the fraction line, the numerator,
/// each operand behind a numeric indicator.
pub open spec fn fraction_cells(numerator: Seq<char>, denominator: Seq<char>) -> Seq<u8> {
    seq![NUMERIC_INDICATOR] + digit_cells(denominator) + seq![FRACTION_LINE, NUMERIC_INDICATOR]
        + digit_cells(numerator)
}

/// The form for a fraction inside running text: the numerator, the closing
/// cell, the fraction line, the denominator, each operand behind a numeric
/// indicator.
pub open spec fn fraction_in_context_cells(numerator: Seq<char>, denominator: Seq<char>) -> Seq<
    u8,
> {
    seq![NUMERIC_INDICATOR] + digit_cells(numerator) + seq![
        CONTEXT_CLOSE,
        FRACTION_LINE,
        NUMERIC_INDICATOR,
    ] + digit_cells(denominator)
}

/// The mixed form: the whole number behind a numeric indicator, then the
/// standalone form of the fraction.
pub open spec fn mixed_fraction_cells(
    whole: Seq<char>,
    numerator: Seq<char>,
    denominator: Seq<char>,
) -> Seq<u8> {
    seq![NUMERIC_INDICATOR] + digit_cells(whole) + fraction_cells(numerator, denominator)
}

/// The marks of a fraction are the cells of the Braille patterns ⠼, ⠌ and
/// ⠸.
pub proof fn lemma_marks_are_braille_patterns()
    ensures
        NUMERIC_INDICATOR == cell_code('⠼'),
        FRACTION_LINE == cell_code('⠌'),
        CONTEXT_CLOSE == cell_code('⠸'),
{
}

/// Encodes a string of ASCII decimal digits, digit by digit. The first
/// character that is no such digit ends the work with an error that carries
/// `part_name`, the character and its place in `s`.
pub fn encode_number_string(s: &str, part_name: &str) -> (r: Result<Vec<u8>, BraillifyError>)
    ensures
        match r {
            Ok(cells) => all_ascii_digits(s@) && cells@ == digit_cells(s@),
            Err(e) => invalid_part(e, part_name@, s@),
        },
{
    let chars = chars_of(s);
    let mut result: Vec<u8> = Vec::new();
    let mut i: usize = 0;
    while i < chars.len()
        invariant
            i <= chars.len(),
            chars@ == s@,
            all_ascii_digits(chars@.take(i as int)),
            result@ == digit_cells(chars@.take(i as int)),
        decreases chars.len() - i,
    {
        let c = chars[i];
        match encode_number(c) {
            Ok(cell) => {
                result.push(cell);
            },
            Err(_) => {
                return Err(
                    BraillifyError::InvalidFractionPart {
                        part_name: String::from_str(part_name),
                        character: c,
                        position: Some(i),
                    },
                );
            },
        }
        assert(chars@.take(i + 1) =~= chars@.take(i as int).push(c));
        assert(result@ =~= digit_cells(chars@.take(i + 1)));
        i = i + 1;
    }
    assert(chars@.take(i as int) =~= s@);
    Ok(result)
}

/// Encodes a fraction in the standalone form. The denominator is encoded
/// first, so where both operands hold a wrong character the error is that of
/// the denominator.
pub fn encode_fraction(numerator: &str, denominator: &str) -> (r: Result<Vec<u8>, BraillifyError>)
    ensures
        match r {
            Ok(cells) => {
                &&& all_ascii_digits(numerator@)
                &&& all_ascii_digits(denominator@)
                &&& cells@ == fraction_cells(numerator@, denominator@)
            },
            Err(e) => if all_ascii_digits(denominator@) {
                invalid_part(e, "fraction numerator"@, numerator@)
            } else {
                invalid_part(e, "fraction denominator"@, denominator@)
            },
        },
        r matches Ok(cells) ==> {
            &&& cells@[0] == NUMERIC_INDICATOR
            &&& cells@.len() == 1 + denominator@.len() + 1 + 1 + numerator@.len()
        },
{
    let mut result: Vec<u8> = Vec::new();
    result.push(NUMERIC_INDICATOR);
    let mut below = encode_number_string(denominator, "fraction denominator")?;
    result.append(&mut below);
    result.push(FRACTION_LINE);
    result.push(NUMERIC_INDICATOR);
    let mut above = encode_number_string(numerator, "fraction numerator")?;
    result.append(&mut above);
    assert(result@ =~= fraction_cells(numerator@, denominator@));
    Ok(result)
}

/// Encodes a fraction in the form used inside running text. The numerator
/// is encoded first, so where both operands hold a wrong character the error
/// is that of the numerator.
pub fn encode_fraction_in_context(numerator: &str, denominator: &str) -> (r: Result<
    Vec<u8>,
    BraillifyError,
>)
    ensures
        match r {
            Ok(cells) => {
                &&& all_ascii_digits(numerator@)
                &&& all_ascii_digits(denominator@)
                &&& cells@ == fraction_in_context_cells(numerator@, denominator@)
            },
            Err(e) => if all_ascii_digits(numerator@) {
                invalid_part(e, "fraction denominator"@, denominator@)
            } else {
                invalid_part(e, "fraction numerator"@, numerator@)
            },
        },
{
    let mut result: Vec<u8> = Vec::new();
    result.push(NUMERIC_INDICATOR);
    let mut above = encode_number_string(numerator, "fraction numerator")?;
    result.append(&mut above);
    result.push(CONTEXT_CLOSE);
    result.push(FRACTION_LINE);
    result.push(NUMERIC_INDICATOR);
    let mut below = encode_number_string(denominator, "fraction denominator")?;
    result.append(&mut below);
    assert(result@ =~= fraction_in_context_cells(numerator@, denominator@));
    Ok(result)
}

/// Encodes a whole number followed by a fraction. The whole number is
/// encoded first, then the denominator, then the numerator: the error is
/// that of the first of them that holds a wrong character.
pub fn encode_mixed_fraction(whole: &str, numerator: &str, denominator: &str) -> (r: Result<
    Vec<u8>,
    BraillifyError,
>)
    ensures
        match r {
            Ok(cells) => {
                &&& all_ascii_digits(whole@)
                &&& all_ascii_digits(numerator@)
                &&& all_ascii_digits(denominator@)
                &&& cells@ == mixed_fraction_cells(whole@, numerator@, denominator@)
            },
            Err(e) => if !all_ascii_digits(whole@) {
                invalid_part(e, "whole number"@, whole@)
            } else if !all_ascii_digits(denominator@) {
                invalid_part(e, "fraction denominator"@, denominator@)
            } else {
                invalid_part(e, "fraction numerator"@, numerator@)
            },
        },
{
    let mut result: Vec<u8> = Vec::new();
    result.push(NUMERIC_INDICATOR);
    let mut units = encode_number_string(whole, "whole number")?;
    result.append(&mut units);
    let mut fraction = encode_fraction(numerator, denominator)?;
    result.append(&mut fraction);
    assert(result@ =~= mixed_fraction_cells(whole@, numerator@, denominator@));
    Ok(result)
}

/// The value of a character that writes a decimal digit: an ASCII digit, a
/// superscript digit or a subscript digit.
pub open spec fn digit_value(c: char) -> Option<nat> {
    let u = c as u32;
    if 0x30 <= u <= 0x39 {
        Some((u - 0x30) as nat)
    } else if 0x2080 <= u <= 0x2089 {
        Some((u - 0x2080) as nat)
    } else if u == 0x2070 || 0x2074 <= u <= 0x2079 {
        Some((u - 0x2070) as nat)
    } else if u == 0xB9 {
        Some(1)
    } else if u == 0xB2 || u == 0xB3 {
        Some((u - 0xB0) as nat)
    } else {
        None
    }
}

/// The ASCII digit that a digit-like character stands for.
pub open spec fn normalized_digit(c: char) -> Option<char> {
    match digit_value(c) {
        Some(v) => Some(digit_char(v)),
        None => None,
    }
}

/// A digit-like character as its ASCII digit; any other character as it
/// is.
pub open spec fn ascii_form(c: char) -> char {
    match normalized_digit(c) {
        Some(d) => d,
        None => c,
    }
}

/// A text with each of its digit-like characters as its ASCII digit.
pub open spec fn ascii_forms(s: Seq<char>) -> Seq<char> {
    s.map_values(|c: char| ascii_form(c))
}

/// Maps an ASCII, superscript or subscript digit to its ASCII digit, and
/// every other character to nothing.
pub fn normalize_digit(c: char) -> (r: Option<char>)
    ensures
        r == normalized_digit(c),
        r matches Some(d) ==> ascii_digit(d),
{
    match c {
        '0' | '⁰' | '₀' => Some('0'),
        '1' | '¹' | '₁' => Some('1'),
        '2' | '²' | '₂' => Some('2'),
        '3' | '³' | '₃' => Some('3'),
        '4' | '⁴' | '₄' => Some('4'),
        '5' | '⁵' | '₅' => Some('5'),
        '6' | '⁶' | '₆' => Some('6'),
        '7' | '⁷' | '₇' => Some('7'),
        '8' | '⁸' | '₈' => Some('8'),
        '9' | '⁹' | '₉' => Some('9'),
        _ => None,
    }
}

/// Reads white space up to the first character that is none.
pub fn consume_whitespace(iter: &mut CharCursor)
    ensures
        final(iter)@ == trim_start(old(iter)@),
{
    loop
        invariant
            trim_start(iter@) == trim_start(old(iter)@),
        ensures
            iter@ == trim_start(old(iter)@),
        decreases iter@.len(),
    {
        match iter.peek() {
            Some(c) => {
                if is_whitespace(c) {
                    iter.next();
                } else {
                    break ;
                }
            },
            None => {
                break ;
            },
        }
    }
}

/// A recognized fraction: its operands as strings of ASCII decimal digits,
/// and the whole number before it where the text gave one.
pub struct FractionExpression {
    pub whole: Option<Seq<char>>,
    pub numerator: Seq<char>,
    pub denominator: Seq<char>,
}

/// The fraction that the three strings of a recognizer's result stand for.
pub open spec fn fraction_expression(
    parts: (Option<String>, String, String),
) -> FractionExpression {
    FractionExpression {
        whole: match parts.0 {
            Some(w) => Some(w@),
            None => None,
        },
        numerator: parts.1@,
        denominator: parts.2@,
    }
}

/// The command that opens a fraction in LaTeX.
pub open spec fn frac_command() -> Seq<char> {
    seq!['\\', 'f', 'r', 'a', 'c']
}

/// The digit-like characters at the start of `s`, each as its ASCII digit.
pub open spec fn leading_digits(s: Seq<char>) -> Seq<char>
    decreases s.len(),
{
    if s.len() > 0 && normalized_digit(s[0]) is Some {
        seq![normalized_digit(s[0])->0] + leading_digits(s.drop_first())
    } else {
        Seq::empty()
    }
}

/// What is left of `s` behind the digit-like characters at its start.
pub open spec fn after_leading_digits(s: Seq<char>) -> Seq<char>
    decreases s.len(),
{
    if s.len() > 0 && normalized_digit(s[0]) is Some {
        after_leading_digits(s.drop_first())
    } else {
        s
    }
}

/// Reading one braced group of digits at the start of `s`: an opening
/// brace, a run of one or more digit-like characters and a closing brace,
/// with optional white space before each of the three. White space does not
/// stand inside the run: a digit behind it is a character that does not
/// belong there. The result is the digits of the group, and what is left of
/// `s` once the reading has ended: behind the closing brace if one was
/// reached, else at the character that does not belong there.
pub open spec fn braced_content(s: Seq<char>) -> (Option<Seq<char>>, Seq<char>) {
    let t = trim_start(s);
    if t.len() == 0 {
        (None, t)
    } else if t[0] != '{' {
        (None, t.drop_first())
    } else {
        let inside = trim_start(t.drop_first());
        let digits = leading_digits(inside);
        let end = trim_start(after_leading_digits(inside));
        if end.len() > 0 && end[0] == '}' {
            (
                if digits.len() > 0 {
                    Some(digits)
                } else {
                    None
                },
                end.drop_first(),
            )
        } else {
            (None, end)
        }
    }
}

/// The fraction that `s` writes in LaTeX, where it writes one: between two
/// dollar signs an optional whole number, the command `\frac` and two braced
/// groups of digits, the numerator first. White space may stand at both
/// ends of `s` and around each of these parts, the digits inside the braces
/// included, but not between two digits.
pub open spec fn latex_fraction(s: Seq<char>) -> Option<FractionExpression> {
    let s0 = trim(s);
    if s0.len() == 0 || s0[0] != '$' {
        None
    } else {
        let s1 = trim_start(s0.drop_first());
        let whole = leading_digits(s1);
        let s2 = trim_start(after_leading_digits(s1));
        if !frac_command().is_prefix_of(s2) {
            None
        } else {
            let (numerator, s3) = braced_content(s2.skip(5));
            let (denominator, s4) = braced_content(s3);
            let s5 = trim_start(s4);
            if numerator is Some && denominator is Some && s5.len() > 0 && s5[0] == '$'
                && trim_start(s5.drop_first()).len() == 0 {
                Some(
                    FractionExpression {
                        whole: if whole.len() > 0 {
                            Some(whole)
                        } else {
                            None
                        },
                        numerator: numerator->0,
                        denominator: denominator->0,
                    },
                )
            } else {
                None
            }
        }
    }
}

/// A fraction in LaTeX written without white space: a dollar sign, the
/// whole number if there is one, the command, the numerator in braces, the
/// denominator in braces, a dollar sign.
pub open spec fn plain_latex_fraction(
    whole: Seq<char>,
    numerator: Seq<char>,
    denominator: Seq<char>,
) -> Seq<char> {
    seq!['$'] + whole + frac_command() + seq!['{'] + numerator + seq!['}', '{'] + denominator
        + seq!['}', '$']
}

/// The characters of `s` that are not white space, in their order.
pub open spec fn without_white_space(s: Seq<char>) -> Seq<char>
    decreases s.len(),
{
    if s.len() == 0 {
        s
    } else if white_space(s[0]) {
        without_white_space(s.drop_first())
    } else {
        seq![s[0]] + without_white_space(s.drop_first())
    }
}

/// A text as it reads once its white space is left out and each of its
/// digit-like characters is written as its ASCII digit.
pub open spec fn plain_text(s: Seq<char>) -> Seq<char> {
    ascii_forms(without_white_space(s))
}

/// The braces of `s`, in their order.
pub open spec fn braces_of(s: Seq<char>) -> Seq<char>
    decreases s.len(),
{
    if s.len() == 0 {
        s
    } else if s[0] == '{' || s[0] == '}' {
        seq![s[0]] + braces_of(s.drop_first())
    } else {
        braces_of(s.drop_first())
    }
}

/// Reads the digit-like characters at the cursor, up to the first character
/// that is none, and gives them as ASCII digits.
fn read_digit_run(iter: &mut CharCursor) -> (digits: String)
    ensures
        digits@ == leading_digits(old(iter)@),
        final(iter)@ == after_leading_digits(old(iter)@),
{
    let mut digits = String::new();
    loop
        invariant
            leading_digits(old(iter)@) == digits@ + leading_digits(iter@),
            after_leading_digits(old(iter)@) == after_leading_digits(iter@),
        ensures
            leading_digits(old(iter)@) == digits@,
            after_leading_digits(old(iter)@) == iter@,
        decreases iter@.len(),
    {
        let digit = match iter.peek() {
            Some(c) => normalize_digit(c),
            None => None,
        };
        match digit {
            Some(d) => {
                let ghost found = digits@;
                digits.push(d);
                iter.next();
                assert(found + (seq![d] + leading_digits(iter@)) =~= found.push(d)
                    + leading_digits(iter@));
            },
            None => {
                assert(digits@ + Seq::<char>::empty() =~= digits@);
                break ;
            },
        }
    }
    digits
}

/// Reads one braced group of digits: an opening brace, a run of one or
/// more digit-like characters and a closing brace, with optional white
/// space before each of the three. Gives the digits as ASCII digits, or
/// nothing where the text does not have that shape: white space between two
/// digits, any other character, or no digit at all.
pub fn read_braced_content(iter: &mut CharCursor) -> (r: Option<String>)
    ensures
        match braced_content(old(iter)@).0 {
            Some(digits) => r is Some && r->0@ == digits,
            None => r is None,
        },
        final(iter)@ == braced_content(old(iter)@).1,
        r matches Some(digits) ==> digit_string(digits@),
{
    consume_whitespace(iter);
    if !next_is(iter, '{') {
        return None;
    }
    consume_whitespace(iter);
    proof {
        lemma_leading_digits_are_digits(iter@);
    }
    let content = read_digit_run(iter);
    consume_whitespace(iter);
    match iter.peek() {
        Some('}') => {
            iter.next();
            if content.as_str().is_empty() {
                None
            } else {
                Some(content)
            }
        },
        _ => None,
    }
}

/// Reads the next character and tells whether it is `c`.
fn next_is(iter: &mut CharCursor, c: char) -> (r: bool)
    ensures
        r == (old(iter)@.len() > 0 && old(iter)@[0] == c),
        final(iter)@ == (if old(iter)@.len() > 0 {
            old(iter)@.drop_first()
        } else {
            old(iter)@
        }),
{
    match iter.next() {
        Some(found) => found == c,
        None => false,
    }
}

/// Reads the command `\frac`, and tells whether it stood at the cursor.
fn read_frac_command(iter: &mut CharCursor) -> (r: bool)
    ensures
        r == frac_command().is_prefix_of(old(iter)@),
        r ==> final(iter)@ == old(iter)@.skip(5),
{
    let command: [char; 5] = ['\\', 'f', 'r', 'a', 'c'];
    let ghost s = iter@;
    let mut i: usize = 0;
    while i < 5
        invariant
            i <= 5,
            s == old(iter)@,
            command@ == frac_command(),
            i <= s.len(),
            iter@ == s.skip(i as int),
            forall|j: int| 0 <= j < i ==> s[j] == frac_command()[j],
        decreases 5 - i,
    {
        if !next_is(iter, command[i]) {
            assert(!frac_command().is_prefix_of(s)) by {
                if frac_command().is_prefix_of(s) {
                    assert(frac_command()[i as int] == s.subrange(0, 5)[i as int]);
                }
            }
            return false;
        }
        assert(s.skip(i as int).drop_first() =~= s.skip(i + 1));
        i = i + 1;
    }
    assert(frac_command() =~= s.subrange(0, 5));
    true
}

/// Recognizes a fraction written in LaTeX, such as `$\frac{3}{4}$` or, with
/// a whole number, `$3\frac{1}{6}$`, and gives the whole number, the
/// numerator and the denominator as ASCII digits. Superscript and subscript
/// digits count as digits. Text of any other shape is no fraction.
pub fn parse_latex_fraction(s: &str) -> (r: Option<(Option<String>, String, String)>)
    ensures
        match latex_fraction(s@) {
            Some(fraction) => r is Some && fraction_expression(r->0) == fraction,
            None => r is None,
        },
        r matches Some((whole, numerator, denominator)) ==> {
            &&& digit_string(numerator@)
            &&& digit_string(denominator@)
            &&& whole matches Some(w) ==> digit_string(w@)
        },
{
    proof {
        lemma_latex_fraction_is_normalized(s@);
    }
    let mut iter = CharCursor::trimmed(s);
    if !next_is(&mut iter, '$') {
        return None;
    }
    consume_whitespace(&mut iter);

    let whole_part_str = read_digit_run(&mut iter);
    let whole_part = if whole_part_str.as_str().is_empty() {
        None
    } else {
        Some(whole_part_str)
    };

    consume_whitespace(&mut iter);

    if !read_frac_command(&mut iter) {
        return None;
    }

    let numerator = match read_braced_content(&mut iter) {
        Some(digits) => digits,
        None => {
            return None;
        },
    };
    let denominator = match read_braced_content(&mut iter) {
        Some(digits) => digits,
        None => {
            return None;
        },
    };

    consume_whitespace(&mut iter);

    if !next_is(&mut iter, '$') {
        return None;
    }
    consume_whitespace(&mut iter);

    if iter.peek().is_some() {
        return None;
    }
    Some((whole_part, numerator, denominator))
}

/// The character that divides the numerator of a vulgar fraction from its
/// denominator.
pub const FRACTION_SLASH: char = '\u{2044}';

/// Whether `k` is the place of a fraction slash in `s` and `s` holds no
/// other fraction slash.
pub open spec fn is_sole_slash(s: Seq<char>, k: int) -> bool {
    &&& 0 <= k < s.len()
    &&& s[k] == FRACTION_SLASH
    &&& forall|j: int| 0 <= j < s.len() && s[j] == FRACTION_SLASH ==> j == k
}

/// The two operands that stand in `s` before and behind place `k`, white
/// space at their ends left out: both must hold a digit, and ASCII decimal
/// digits only.
pub open spec fn operands_around(s: Seq<char>, k: int) -> Option<(Seq<char>, Seq<char>)> {
    let numerator = trim(s.subrange(0, k));
    let denominator = trim(s.subrange(k + 1, s.len() as int));
    if numerator.len() > 0 && denominator.len() > 0 && all_ascii_digits(numerator)
        && all_ascii_digits(denominator) {
        Some((numerator, denominator))
    } else {
        None
    }
}

/// The fraction that a decomposed character writes, where it writes one:
/// exactly one fraction slash, with an operand on either side of it.
pub open spec fn decomposed_fraction(s: Seq<char>) -> Option<(Seq<char>, Seq<char>)> {
    if exists|k: int| is_sole_slash(s, k) {
        operands_around(s, choose|k: int| is_sole_slash(s, k))
    } else {
        None
    }
}

/// The two strings of a recognizer's result as sequences of characters.
pub open spec fn operands(r: Option<(String, String)>) -> Option<(Seq<char>, Seq<char>)> {
    match r {
        Some((numerator, denominator)) => Some((numerator@, denominator@)),
        None => None,
    }
}

/// Tells whether `chars[from..to]` holds ASCII decimal digits only.
fn digits_only(chars: &Vec<char>, from: usize, to: usize) -> (r: bool)
    requires
        from <= to <= chars.len(),
    ensures
        r == all_ascii_digits(chars@.subrange(from as int, to as int)),
{
    let mut i: usize = from;
    while i < to
        invariant
            from <= i <= to <= chars.len(),
            all_ascii_digits(chars@.subrange(from as int, i as int)),
        decreases to - i,
    {
        if !is_ascii_digit(chars[i]) {
            assert(chars@.subrange(from as int, to as int)[i - from] == chars[i as int]);
            return false;
        }
        assert(chars@.subrange(from as int, i + 1) =~= chars@.subrange(
            from as int,
            i as int,
        ).push(chars[i as int]));
        i = i + 1;
    }
    true
}

/// Recognizes a fraction in the compatibility decomposition of a character:
/// a numerator, one fraction slash and a denominator, both operands made of
/// ASCII decimal digits. A text with no fraction slash or with more than
/// one, or with an operand that is empty or holds anything but digits, is
/// no fraction.
pub fn parse_decomposed_fraction(decomposed: &str) -> (r: Option<(String, String)>)
    ensures
        operands(r) == decomposed_fraction(decomposed@),
        r matches Some((numerator, denominator)) ==> digit_string(numerator@) && digit_string(
            denominator@,
        ),
{
    proof {
        lemma_decomposed_fraction_is_normalized(decomposed@);
    }
    let chars = chars_of(decomposed);
    let len = chars.len();
    let mut k: usize = 0;
    while k < len && chars[k] != FRACTION_SLASH
        invariant
            k <= len == chars.len(),
            forall|j: int| 0 <= j < k ==> chars[j] != FRACTION_SLASH,
        decreases len - k,
    {
        k = k + 1;
    }
    if k == len {
        return None;
    }
    let mut j: usize = k + 1;
    while j < len && chars[j] != FRACTION_SLASH
        invariant
            k < j <= len == chars.len(),
            forall|i: int| k < i < j ==> chars[i] != FRACTION_SLASH,
        decreases len - j,
    {
        j = j + 1;
    }
    if j < len {
        assert(forall|i: int| !is_sole_slash(chars@, i)) by {
            assert(chars@[k as int] == FRACTION_SLASH && chars@[j as int] == FRACTION_SLASH);
        }
        return None;
    }
    assert(is_sole_slash(chars@, k as int));
    let (a, b) = trim_range(&chars, 0, k);
    let (c, d) = trim_range(&chars, k + 1, len);
    if a == b || c == d {
        return None;
    }
    if !digits_only(&chars, a, b) {
        return None;
    }
    if !digits_only(&chars, c, d) {
        return None;
    }
    Some((string_of(&chars, a, b), string_of(&chars, c, d)))
}

/// Recognizes a vulgar fraction written as one character, such as `½`, by
/// its compatibility decomposition, and gives its numerator and its
/// denominator as ASCII digits. A character of 7-bit ASCII is never one.
pub fn parse_unicode_fraction(c: char) -> (r: Option<(String, String)>)
    ensures
        operands(r) == decomposed_fraction(compatibility_decomposition(c)),
        r matches Some((numerator, denominator)) ==> digit_string(numerator@) && digit_string(
            denominator@,
        ),
        (c as u32) < 0x80 ==> r is None,
{
    let decomposed = nfkd(c);
    proof {
        if (c as u32) < 0x80 {
            lemma_one_character_is_no_fraction(c);
        }
    }
    parse_decomposed_fraction(decomposed.as_str())
}

/// Tells whether `c` is a vulgar fraction written as one character.
pub fn is_unicode_fraction(c: char) -> (r: bool)
    ensures
        r == (decomposed_fraction(compatibility_decomposition(c)) is Some),
        (c as u32) < 0x80 ==> !r,
{
    parse_unicode_fraction(c).is_some()
}

} // verus!
