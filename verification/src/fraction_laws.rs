//! What holds of the fraction recognizers for every text.

use vstd::prelude::*;
use crate::fraction::{
    after_leading_digits, ascii_form, ascii_forms, braced_content, braces_of,
    decomposed_fraction,
    frac_command, is_sole_slash, latex_fraction, leading_digits, normalized_digit,
    operands_around, plain_latex_fraction, plain_text, without_white_space, FractionExpression,
    FRACTION_SLASH,
};
use crate::text::{
    all_ascii_digits, ascii_digit, digit_string, trim, trim_end, trim_start, white_space,
};

verus! {

/// The digit-like characters at the start of a text are recorded as ASCII
/// decimal digits.
pub proof fn lemma_leading_digits_are_digits(s: Seq<char>)
    ensures
        all_ascii_digits(leading_digits(s)),
    decreases s.len(),
{
    if s.len() > 0 && normalized_digit(s[0]) is Some {
        lemma_leading_digits_are_digits(s.drop_first());
        let rest = leading_digits(s.drop_first());
        let d = normalized_digit(s[0])->0;
        assert forall|i: int| 0 <= i < leading_digits(s).len() implies ascii_digit(
            #[trigger] leading_digits(s)[i],
        ) by {
            if i > 0 {
                assert(leading_digits(s)[i] == rest[i - 1]);
            }
        }
    }
}

/// Every field of a fraction recognized in LaTeX notation is a string of
/// ASCII decimal digits that holds at least one digit, and the whole number
/// is absent unless the text gave one.
pub proof fn lemma_latex_fraction_is_normalized(s: Seq<char>)
    ensures
        latex_fraction(s) matches Some(f) ==> {
            &&& digit_string(f.numerator)
            &&& digit_string(f.denominator)
            &&& f.whole matches Some(w) ==> digit_string(w)
        },
{
    if let Some(f) = latex_fraction(s) {
        let s0 = trim(s);
        let s1 = trim_start(s0.drop_first());
        let s2 = trim_start(after_leading_digits(s1));
        let s3 = braced_content(s2.skip(5)).1;
        lemma_leading_digits_are_digits(s1);
        lemma_leading_digits_are_digits(trim_start(trim_start(s2.skip(5)).drop_first()));
        lemma_leading_digits_are_digits(trim_start(trim_start(s3).drop_first()));
    }
}

/// Both operands of a fraction recognized in a decomposed character are
/// strings of ASCII decimal digits that hold at least one digit.
pub proof fn lemma_decomposed_fraction_is_normalized(s: Seq<char>)
    ensures
        decomposed_fraction(s) matches Some((numerator, denominator)) ==> {
            &&& digit_string(numerator)
            &&& digit_string(denominator)
        },
{
}

/// A decomposed character is a fraction only with exactly one fraction
/// slash: with none, or with more than one, it is none. With one, the
/// operands are the texts before and behind the slash, without the white
/// space at their ends, and both hold ASCII decimal digits and nothing
/// else, at least one each.
pub proof fn lemma_decomposed_fraction_needs_one_slash(s: Seq<char>)
    ensures
        (forall|i: int| 0 <= i < s.len() ==> s[i] != FRACTION_SLASH) ==> decomposed_fraction(s)
            is None,
        (exists|i: int, j: int|
            0 <= i < j < s.len() && s[i] == FRACTION_SLASH && s[j] == FRACTION_SLASH)
            ==> decomposed_fraction(s) is None,
        forall|k: int| is_sole_slash(s, k) ==> decomposed_fraction(s) == operands_around(s, k),
{
    if exists|i: int, j: int|
        0 <= i < j < s.len() && s[i] == FRACTION_SLASH && s[j] == FRACTION_SLASH {
        let (i, j) = choose|i: int, j: int|
            0 <= i < j < s.len() && s[i] == FRACTION_SLASH && s[j] == FRACTION_SLASH;
        assert forall|k: int| !is_sole_slash(s, k) by {
            if is_sole_slash(s, k) {
                assert(i == k && j == k);
            }
        }
    }
    assert forall|k: int| is_sole_slash(s, k) implies decomposed_fraction(s) == operands_around(
        s,
        k,
    ) by {
        let chosen = choose|k: int| is_sole_slash(s, k);
        assert(chosen == k);
    }
}

/// A text of one character is no fraction: beside a fraction slash there
/// is no room for an operand.
pub proof fn lemma_one_character_is_no_fraction(c: char)
    ensures
        decomposed_fraction(seq![c]) is None,
{
    let s = seq![c];
    if exists|k: int| is_sole_slash(s, k) {
        let k = choose|k: int| is_sole_slash(s, k);
        assert(s.subrange(0, k).len() == 0);
        assert(trim(s.subrange(0, k)).len() == 0);
    }
}

/// A text without white space at its ends is its own trimmed form.
pub proof fn lemma_trim_keeps_bare_text(s: Seq<char>)
    requires
        s.len() > 0 ==> !white_space(s[0]) && !white_space(s.last()),
    ensures
        trim(s) == s,
{
}

/// A string of ASCII decimal digits is no fraction in either notation:
/// it neither starts with a dollar sign nor holds a fraction slash.
pub proof fn lemma_digits_are_no_fraction(s: Seq<char>)
    requires
        all_ascii_digits(s),
    ensures
        latex_fraction(s) is None,
        decomposed_fraction(s) is None,
{
    if s.len() > 0 {
        assert(ascii_digit(s[0]) && ascii_digit(s.last()));
    }
    lemma_trim_keeps_bare_text(s);
    assert forall|k: int| !is_sole_slash(s, k) by {
        if 0 <= k < s.len() {
            assert(ascii_digit(s[k]));
        }
    }
}

/// Recognition does not nest: no field of a recognized fraction is itself
/// recognized as a fraction, in either notation.
pub proof fn lemma_recognized_fields_are_no_fractions(s: Seq<char>)
    ensures
        latex_fraction(s) matches Some(f) ==> {
            &&& latex_fraction(f.numerator) is None && decomposed_fraction(f.numerator) is None
            &&& latex_fraction(f.denominator) is None && decomposed_fraction(f.denominator)
                is None
            &&& f.whole matches Some(w) ==> latex_fraction(w) is None && decomposed_fraction(w)
                is None
        },
        decomposed_fraction(s) matches Some((numerator, denominator)) ==> {
            &&& latex_fraction(numerator) is None && decomposed_fraction(numerator) is None
            &&& latex_fraction(denominator) is None && decomposed_fraction(denominator) is None
        },
{
    lemma_latex_fraction_is_normalized(s);
    if let Some(f) = latex_fraction(s) {
        lemma_digits_are_no_fraction(f.numerator);
        lemma_digits_are_no_fraction(f.denominator);
        if let Some(w) = f.whole {
            lemma_digits_are_no_fraction(w);
        }
    }
    if let Some((numerator, denominator)) = decomposed_fraction(s) {
        lemma_digits_are_no_fraction(numerator);
        lemma_digits_are_no_fraction(denominator);
    }
}


/// Writing a digit-like character as its ASCII digit changes nothing that
/// the grammar of a LaTeX fraction looks at: the digit it stands for,
/// whether it is white space, and whether it is one of the marks.
proof fn lemma_ascii_form_keeps_class(c: char)
    ensures
        normalized_digit(ascii_form(c)) == normalized_digit(c),
        white_space(ascii_form(c)) == white_space(c),
        (ascii_form(c) == '$') == (c == '$'),
        (ascii_form(c) == '{') == (c == '{'),
        (ascii_form(c) == '}') == (c == '}'),
        (ascii_form(c) == '\\') == (c == '\\'),
        (ascii_form(c) == 'f') == (c == 'f'),
        (ascii_form(c) == 'r') == (c == 'r'),
        (ascii_form(c) == 'a') == (c == 'a'),
        (ascii_form(c) == 'c') == (c == 'c'),
{
}

/// White space at the start of a text stays where it is when the digits
/// are written in ASCII.
proof fn lemma_ascii_forms_trim_start(s: Seq<char>)
    ensures
        trim_start(ascii_forms(s)) == ascii_forms(trim_start(s)),
    decreases s.len(),
{
    if s.len() > 0 {
        lemma_ascii_form_keeps_class(s[0]);
        assert(ascii_forms(s).drop_first() =~= ascii_forms(s.drop_first()));
        lemma_ascii_forms_trim_start(s.drop_first());
    }
}

/// White space at the end of a text stays where it is when the digits are
/// written in ASCII.
proof fn lemma_ascii_forms_trim_end(s: Seq<char>)
    ensures
        trim_end(ascii_forms(s)) == ascii_forms(trim_end(s)),
    decreases s.len(),
{
    if s.len() > 0 {
        lemma_ascii_form_keeps_class(s.last());
        assert(ascii_forms(s).drop_last() =~= ascii_forms(s.drop_last()));
        lemma_ascii_forms_trim_end(s.drop_last());
    }
}

/// The digits at the start of a text, and where they end, do not depend on
/// how the digits are written.
proof fn lemma_ascii_forms_leading_digits(s: Seq<char>)
    ensures
        leading_digits(ascii_forms(s)) == leading_digits(s),
        after_leading_digits(ascii_forms(s)) == ascii_forms(after_leading_digits(s)),
    decreases s.len(),
{
    if s.len() > 0 {
        lemma_ascii_form_keeps_class(s[0]);
        assert(ascii_forms(s).drop_first() =~= ascii_forms(s.drop_first()));
        lemma_ascii_forms_leading_digits(s.drop_first());
    }
}

/// The digits of a braced group, and where the reading of it ends, do not
/// depend on how the digits are written.
proof fn lemma_ascii_forms_braced_content(s: Seq<char>)
    ensures
        braced_content(ascii_forms(s)) == (braced_content(s).0, ascii_forms(braced_content(s).1)),
{
    lemma_ascii_forms_trim_start(s);
    let t = trim_start(s);
    if t.len() > 0 {
        lemma_ascii_form_keeps_class(t[0]);
        assert(ascii_forms(t).drop_first() =~= ascii_forms(t.drop_first()));
        lemma_ascii_forms_trim_start(t.drop_first());
        let inside = trim_start(t.drop_first());
        lemma_ascii_forms_leading_digits(inside);
        lemma_ascii_forms_trim_start(after_leading_digits(inside));
        let end = trim_start(after_leading_digits(inside));
        if end.len() > 0 {
            lemma_ascii_form_keeps_class(end[0]);
            assert(ascii_forms(end).drop_first() =~= ascii_forms(end.drop_first()));
        }
    }
}

/// Whether a text starts with the command, and what follows the command,
/// do not depend on how the digits are written.
proof fn lemma_ascii_forms_frac_command(s: Seq<char>)
    ensures
        frac_command().is_prefix_of(ascii_forms(s)) == frac_command().is_prefix_of(s),
        s.len() >= 5 ==> ascii_forms(s).skip(5) == ascii_forms(s.skip(5)),
{
    if s.len() >= 5 {
        lemma_ascii_form_keeps_class(s[0]);
        lemma_ascii_form_keeps_class(s[1]);
        lemma_ascii_form_keeps_class(s[2]);
        lemma_ascii_form_keeps_class(s[3]);
        lemma_ascii_form_keeps_class(s[4]);
        assert(ascii_forms(s).skip(5) =~= ascii_forms(s.skip(5)));
        if frac_command().is_prefix_of(s) {
            assert(forall|i: int| 0 <= i < 5 ==> s[i] == frac_command()[i]);
            assert(frac_command() =~= ascii_forms(s).subrange(0, 5));
        }
        if frac_command().is_prefix_of(ascii_forms(s)) {
            assert(forall|i: int| 0 <= i < 5 ==> ascii_forms(s)[i] == frac_command()[i]);
            assert(frac_command() =~= s.subrange(0, 5));
        }
    }
}

/// Superscript and subscript digits count as the ASCII digits they stand
/// for, wherever they are: a text and the same text with each digit-like
/// character written as its ASCII digit give the same fraction, or both
/// give none.
pub proof fn lemma_latex_fraction_reads_digits_alike(s: Seq<char>)
    ensures
        latex_fraction(ascii_forms(s)) == latex_fraction(s),
{
    lemma_ascii_forms_trim_start(s);
    lemma_ascii_forms_trim_end(trim_start(s));
    let s0 = trim(s);
    assert(trim(ascii_forms(s)) == ascii_forms(s0));
    if s0.len() > 0 {
        lemma_ascii_form_keeps_class(s0[0]);
        if s0[0] == '$' {
            assert(ascii_forms(s0).drop_first() =~= ascii_forms(s0.drop_first()));
            lemma_ascii_forms_trim_start(s0.drop_first());
            let s1 = trim_start(s0.drop_first());
            lemma_ascii_forms_leading_digits(s1);
            lemma_ascii_forms_trim_start(after_leading_digits(s1));
            let s2 = trim_start(after_leading_digits(s1));
            lemma_ascii_forms_frac_command(s2);
            if frac_command().is_prefix_of(s2) {
                lemma_ascii_forms_braced_content(s2.skip(5));
                let s3 = braced_content(s2.skip(5)).1;
                lemma_ascii_forms_braced_content(s3);
                let s4 = braced_content(s3).1;
                lemma_ascii_forms_trim_start(s4);
                let s5 = trim_start(s4);
                if s5.len() > 0 {
                    lemma_ascii_form_keeps_class(s5[0]);
                    assert(ascii_forms(s5).drop_first() =~= ascii_forms(s5.drop_first()));
                    lemma_ascii_forms_trim_start(s5.drop_first());
                }
            }
        }
    }
}

/// A run of ASCII digits in front of a character that is not digit-like is
/// read whole, and the reading stops behind it.
proof fn lemma_leading_digits_of_run(run: Seq<char>, rest: Seq<char>)
    requires
        all_ascii_digits(run),
        rest.len() == 0 || normalized_digit(rest[0]) is None,
    ensures
        leading_digits(run + rest) == run,
        after_leading_digits(run + rest) == rest,
    decreases run.len(),
{
    if run.len() == 0 {
        assert(run + rest =~= rest);
        assert(leading_digits(rest) =~= run);
    } else {
        assert(ascii_digit(run[0]));
        assert((run + rest).drop_first() =~= run.drop_first() + rest);
        lemma_leading_digits_of_run(run.drop_first(), rest);
        assert(seq![run[0]] + run.drop_first() =~= run);
    }
}

/// A fraction written in LaTeX without white space, with ASCII digits, is
/// recognized, and its fields are the digits as written; the whole number
/// is absent exactly when none is written.
pub proof fn lemma_latex_fraction_recognizes_plain_form(
    whole: Seq<char>,
    numerator: Seq<char>,
    denominator: Seq<char>,
)
    requires
        all_ascii_digits(whole),
        digit_string(numerator),
        digit_string(denominator),
    ensures
        latex_fraction(plain_latex_fraction(whole, numerator, denominator)) == Some(
            FractionExpression {
                whole: if whole.len() > 0 {
                    Some(whole)
                } else {
                    None
                },
                numerator,
                denominator,
            },
        ),
{
    let s = plain_latex_fraction(whole, numerator, denominator);
    let end = seq!['$'];
    let second = seq!['{'] + (denominator + (seq!['}'] + end));
    let first = seq!['{'] + (numerator + (seq!['}'] + second));
    let command = frac_command() + first;
    assert(s =~= seq!['$'] + (whole + command));
    assert(s.last() == '$');
    lemma_trim_keeps_bare_text(s);
    assert(s.drop_first() =~= whole + command);
    if whole.len() > 0 {
        assert(ascii_digit(whole[0]));
    }
    assert((whole + command)[0] == if whole.len() > 0 {
        whole[0]
    } else {
        '\\'
    });
    lemma_leading_digits_of_run(whole, command);
    assert(frac_command() =~= command.subrange(0, 5));
    assert(command.skip(5) =~= first);
    assert(first.drop_first() =~= numerator + (seq!['}'] + second));
    assert(ascii_digit(numerator[0]));
    lemma_leading_digits_of_run(numerator, seq!['}'] + second);
    assert((seq!['}'] + second).drop_first() =~= second);
    assert(second.drop_first() =~= denominator + (seq!['}'] + end));
    assert(ascii_digit(denominator[0]));
    lemma_leading_digits_of_run(denominator, seq!['}'] + end);
    assert((seq!['}'] + end).drop_first() =~= end);
    assert(end.drop_first() =~= Seq::<char>::empty());
}

/// A numerator and a denominator of ASCII digits with one fraction slash
/// between them are recognized as they are written.
pub proof fn lemma_decomposed_fraction_recognizes_plain_form(
    numerator: Seq<char>,
    denominator: Seq<char>,
)
    requires
        digit_string(numerator),
        digit_string(denominator),
    ensures
        decomposed_fraction(numerator + seq![FRACTION_SLASH] + denominator) == Some(
            (numerator, denominator),
        ),
{
    let s = numerator + seq![FRACTION_SLASH] + denominator;
    let k = numerator.len() as int;
    assert forall|j: int| 0 <= j < s.len() && s[j] == FRACTION_SLASH implies j == k by {
        if j < k {
            assert(ascii_digit(numerator[j]));
        } else if j > k {
            assert(ascii_digit(denominator[j - k - 1]));
        }
    }
    assert(is_sole_slash(s, k));
    lemma_decomposed_fraction_needs_one_slash(s);
    assert(s.subrange(0, k) =~= numerator);
    assert(s.subrange(k + 1, s.len() as int) =~= denominator);
    assert(ascii_digit(numerator[0]) && ascii_digit(numerator.last()));
    assert(ascii_digit(denominator[0]) && ascii_digit(denominator.last()));
    lemma_trim_keeps_bare_text(numerator);
    lemma_trim_keeps_bare_text(denominator);
}

/// Leaving out white space goes part by part.
proof fn lemma_without_white_space_of_parts(a: Seq<char>, b: Seq<char>)
    ensures
        without_white_space(a + b) == without_white_space(a) + without_white_space(b),
    decreases a.len(),
{
    if a.len() == 0 {
        assert(a + b =~= b);
        assert(without_white_space(a) + without_white_space(b) =~= without_white_space(b));
    } else {
        assert((a + b).drop_first() =~= a.drop_first() + b);
        lemma_without_white_space_of_parts(a.drop_first(), b);
        assert(seq![a[0]] + (without_white_space(a.drop_first()) + without_white_space(b))
            =~= seq![a[0]] + without_white_space(a.drop_first()) + without_white_space(b));
    }
}

/// The plain reading of a text is that of its first character, if it is no
/// white space, before that of the rest.
proof fn lemma_plain_text_step(s: Seq<char>)
    requires
        s.len() > 0,
    ensures
        plain_text(s) == if white_space(s[0]) {
            plain_text(s.drop_first())
        } else {
            seq![ascii_form(s[0])] + plain_text(s.drop_first())
        },
{
    if !white_space(s[0]) {
        assert(plain_text(s) =~= seq![ascii_form(s[0])] + plain_text(s.drop_first()));
    }
}

/// White space at the start of a text does not show in its plain reading.
proof fn lemma_plain_text_trim_start(s: Seq<char>)
    ensures
        plain_text(trim_start(s)) == plain_text(s),
    decreases s.len(),
{
    if s.len() > 0 && white_space(s[0]) {
        lemma_plain_text_trim_start(s.drop_first());
    }
}

/// White space at the end of a text does not show in its plain reading.
proof fn lemma_plain_text_trim_end(s: Seq<char>)
    ensures
        plain_text(trim_end(s)) == plain_text(s),
    decreases s.len(),
{
    if s.len() > 0 && white_space(s.last()) {
        lemma_plain_text_trim_end(s.drop_last());
        assert(s =~= s.drop_last() + seq![s.last()]);
        lemma_without_white_space_of_parts(s.drop_last(), seq![s.last()]);
        let last = seq![s.last()];
        assert(white_space(last[0]) && last.drop_first().len() == 0);
        reveal_with_fuel(without_white_space, 2);
        assert(without_white_space(last) =~= Seq::<char>::empty());
        assert(without_white_space(s.drop_last()) + Seq::<char>::empty()
            =~= without_white_space(s.drop_last()));
    }
}

/// A text of white space alone has an empty plain reading.
proof fn lemma_plain_text_of_blank(s: Seq<char>)
    requires
        trim_start(s).len() == 0,
    ensures
        plain_text(s) == Seq::<char>::empty(),
    decreases s.len(),
{
    if s.len() > 0 {
        lemma_plain_text_of_blank(s.drop_first());
    } else {
        assert(plain_text(s) =~= Seq::<char>::empty());
    }
}

/// The plain reading of a text starts with the digits at its start.
proof fn lemma_plain_text_leading_digits(s: Seq<char>)
    ensures
        plain_text(s) == leading_digits(s) + plain_text(after_leading_digits(s)),
    decreases s.len(),
{
    if s.len() > 0 && normalized_digit(s[0]) is Some {
        lemma_plain_text_step(s);
        lemma_plain_text_leading_digits(s.drop_first());
        assert(seq![ascii_form(s[0])] + (leading_digits(s.drop_first()) + plain_text(
            after_leading_digits(s),
        )) =~= leading_digits(s) + plain_text(after_leading_digits(s)));
    } else {
        assert(leading_digits(s) + plain_text(s) =~= plain_text(s));
    }
}

/// The plain reading of a text that starts with a braced group of digits
/// is the group without white space, before the plain reading of what
/// follows the group.
proof fn lemma_plain_text_braced_content(s: Seq<char>)
    ensures
        braced_content(s).0 matches Some(digits) ==> plain_text(s) == seq!['{'] + digits
            + seq!['}'] + plain_text(braced_content(s).1),
{
    if let Some(digits) = braced_content(s).0 {
        let t = trim_start(s);
        lemma_plain_text_trim_start(s);
        lemma_plain_text_step(t);
        let inside = trim_start(t.drop_first());
        lemma_plain_text_trim_start(t.drop_first());
        lemma_plain_text_leading_digits(inside);
        let end = trim_start(after_leading_digits(inside));
        lemma_plain_text_trim_start(after_leading_digits(inside));
        lemma_plain_text_step(end);
        assert(seq!['{'] + (digits + (seq!['}'] + plain_text(end.drop_first()))) =~= seq!['{']
            + digits + seq!['}'] + plain_text(end.drop_first()));
    }
}

/// The plain reading of a text that starts with the command is the
/// command, before the plain reading of what follows it.
proof fn lemma_plain_text_frac_command(s: Seq<char>)
    requires
        frac_command().is_prefix_of(s),
    ensures
        plain_text(s) == frac_command() + plain_text(s.skip(5)),
{
    assert(forall|i: int| 0 <= i < 5 ==> s[i] == frac_command()[i]);
    assert(s =~= frac_command() + s.skip(5));
    lemma_without_white_space_of_parts(frac_command(), s.skip(5));
    let c = frac_command();
    assert(c.drop_first() =~= seq!['f', 'r', 'a', 'c']);
    assert(c.drop_first().drop_first() =~= seq!['r', 'a', 'c']);
    assert(c.drop_first().drop_first().drop_first() =~= seq!['a', 'c']);
    assert(c.drop_first().drop_first().drop_first().drop_first() =~= seq!['c']);
    assert(seq!['c'].drop_first() =~= Seq::<char>::empty());
    reveal_with_fuel(without_white_space, 6);
    assert(without_white_space(c) =~= c);
    assert(ascii_forms(c + without_white_space(s.skip(5))) =~= c + plain_text(s.skip(5)));
}

/// Every text that is recognized as a fraction in LaTeX is, once it is
/// trimmed, its white space is left out and its digits are written in
/// ASCII, the plain form of that fraction: a dollar sign, the whole number
/// if there is one, the command, the numerator in braces, the denominator
/// in braces, a dollar sign. Nothing else is recognized.
pub proof fn lemma_recognized_text_is_plain_form(s: Seq<char>)
    ensures
        latex_fraction(s) matches Some(f) ==> {
            let whole = match f.whole {
                Some(w) => w,
                None => Seq::empty(),
            };
            &&& plain_text(trim(s)) == plain_latex_fraction(whole, f.numerator, f.denominator)
            &&& plain_text(s) == plain_text(trim(s))
        },
{
    if let Some(f) = latex_fraction(s) {
        let whole = leading_digits(trim_start(trim(s).drop_first()));
        lemma_plain_text_trim_start(s);
        lemma_plain_text_trim_end(trim_start(s));
        let s0 = trim(s);
        lemma_plain_text_step(s0);
        lemma_plain_text_trim_start(s0.drop_first());
        let s1 = trim_start(s0.drop_first());
        lemma_plain_text_leading_digits(s1);
        lemma_plain_text_trim_start(after_leading_digits(s1));
        let s2 = trim_start(after_leading_digits(s1));
        lemma_plain_text_frac_command(s2);
        lemma_plain_text_braced_content(s2.skip(5));
        let s3 = braced_content(s2.skip(5)).1;
        lemma_plain_text_braced_content(s3);
        let s4 = braced_content(s3).1;
        lemma_plain_text_trim_start(s4);
        let s5 = trim_start(s4);
        lemma_plain_text_step(s5);
        lemma_plain_text_of_blank(s5.drop_first());
        assert(plain_text(s5) =~= seq!['$']);
        assert(plain_text(s3) =~= seq!['{'] + f.denominator + seq!['}', '$']);
        assert(plain_text(s2.skip(5)) =~= seq!['{'] + f.numerator + seq!['}', '{']
            + f.denominator + seq!['}', '$']);
        assert(plain_text(s1) =~= whole + frac_command() + seq!['{'] + f.numerator + seq![
            '}',
            '{',
        ] + f.denominator + seq!['}', '$']);
        assert(plain_text(s0) =~= plain_latex_fraction(whole, f.numerator, f.denominator));
    }
}

/// White space in front of a character that is none is all that
/// `trim_start` takes away.
proof fn lemma_trim_start_of_gap(gap: Seq<char>, rest: Seq<char>)
    requires
        forall|i: int| 0 <= i < gap.len() ==> white_space(#[trigger] gap[i]),
        rest.len() == 0 || !white_space(rest[0]),
    ensures
        trim_start(gap + rest) == rest,
    decreases gap.len(),
{
    if gap.len() == 0 {
        assert(gap + rest =~= rest);
    } else {
        assert(white_space(gap[0]));
        assert((gap + rest).drop_first() =~= gap.drop_first() + rest);
        assert forall|i: int| 0 <= i < gap.drop_first().len() implies white_space(
            #[trigger] gap.drop_first()[i],
        ) by {
            assert(gap.drop_first()[i] == gap[i + 1]);
        }
        lemma_trim_start_of_gap(gap.drop_first(), rest);
    }
}

/// White space between two digits of a braced group refuses the group,
/// whatever follows: the digit behind the white space stands where the
/// closing brace is due, and the reading ends at that digit.
pub proof fn lemma_digit_run_is_not_split(
    before: Seq<char>,
    gap: Seq<char>,
    digit: char,
    rest: Seq<char>,
)
    requires
        digit_string(before),
        gap.len() > 0,
        forall|i: int| 0 <= i < gap.len() ==> white_space(#[trigger] gap[i]),
        normalized_digit(digit) is Some,
    ensures
        braced_content(seq!['{'] + before + gap + seq![digit] + rest) == (
            None::<Seq<char>>,
            seq![digit] + rest,
        ),
{
    let tail = seq![digit] + rest;
    let s = seq!['{'] + before + gap + seq![digit] + rest;
    assert(s =~= seq!['{'] + (before + (gap + tail)));
    assert(s.drop_first() =~= before + (gap + tail));
    assert(ascii_digit(before[0]));
    assert(white_space(gap[0]));
    lemma_leading_digits_of_run(before, gap + tail);
    lemma_trim_start_of_gap(gap, tail);
}

/// The braces of a text are those of its parts.
proof fn lemma_braces_of_parts(a: Seq<char>, b: Seq<char>)
    ensures
        braces_of(a + b) == braces_of(a) + braces_of(b),
    decreases a.len(),
{
    if a.len() == 0 {
        assert(a + b =~= b);
        assert(braces_of(a) + braces_of(b) =~= braces_of(b));
    } else {
        assert((a + b).drop_first() =~= a.drop_first() + b);
        lemma_braces_of_parts(a.drop_first(), b);
        assert(seq![a[0]] + (braces_of(a.drop_first()) + braces_of(b)) =~= seq![a[0]]
            + braces_of(a.drop_first()) + braces_of(b));
    }
}

/// A text without a brace has no braces.
proof fn lemma_braces_of_none(s: Seq<char>)
    requires
        forall|i: int| 0 <= i < s.len() ==> #[trigger] s[i] != '{' && s[i] != '}',
    ensures
        braces_of(s) == Seq::<char>::empty(),
    decreases s.len(),
{
    if s.len() > 0 {
        assert(s[0] != '{' && s[0] != '}');
        assert forall|i: int| 0 <= i < s.drop_first().len() implies #[trigger] s.drop_first()[i]
            != '{' && s.drop_first()[i] != '}' by {
            assert(s.drop_first()[i] == s[i + 1]);
        }
        lemma_braces_of_none(s.drop_first());
    }
}

/// The plain reading of a text has the braces of the text.
proof fn lemma_braces_of_plain_text(s: Seq<char>)
    ensures
        braces_of(plain_text(s)) == braces_of(s),
    decreases s.len(),
{
    if s.len() == 0 {
        assert(plain_text(s) =~= s);
    } else {
        lemma_plain_text_step(s);
        lemma_ascii_form_keeps_class(s[0]);
        lemma_braces_of_plain_text(s.drop_first());
        if !white_space(s[0]) {
            let head = seq![ascii_form(s[0])];
            assert((head + plain_text(s.drop_first())).drop_first() =~= plain_text(
                s.drop_first(),
            ));
        }
    }
}

/// The braces of a fraction in its plain form are those of its two groups.
proof fn lemma_braces_of_plain_form(
    whole: Seq<char>,
    numerator: Seq<char>,
    denominator: Seq<char>,
)
    requires
        all_ascii_digits(whole),
        all_ascii_digits(numerator),
        all_ascii_digits(denominator),
    ensures
        braces_of(plain_latex_fraction(whole, numerator, denominator)) == seq!['{', '}', '{', '}'],
{
    let start = seq!['$'] + whole + frac_command();
    let open = seq!['{'];
    let middle = seq!['}', '{'];
    let end = seq!['}', '$'];
    assert forall|i: int| 0 <= i < start.len() implies #[trigger] start[i] != '{' && start[i]
        != '}' by {
        if 1 <= i < 1 + whole.len() {
            assert(ascii_digit(whole[i - 1]));
        }
    }
    lemma_braces_of_none(start);
    assert forall|i: int| 0 <= i < numerator.len() implies #[trigger] numerator[i] != '{'
        && numerator[i] != '}' by {
        assert(ascii_digit(numerator[i]));
    }
    lemma_braces_of_none(numerator);
    assert forall|i: int| 0 <= i < denominator.len() implies #[trigger] denominator[i] != '{'
        && denominator[i] != '}' by {
        assert(ascii_digit(denominator[i]));
    }
    lemma_braces_of_none(denominator);
    reveal_with_fuel(braces_of, 3);
    assert(open.drop_first() =~= Seq::<char>::empty());
    assert(braces_of(open) =~= open);
    assert(middle.drop_first() =~= seq!['{']);
    assert(middle.drop_first().drop_first() =~= Seq::<char>::empty());
    assert(braces_of(middle) =~= middle);
    assert(end.drop_first() =~= seq!['$']);
    assert(end.drop_first().drop_first() =~= Seq::<char>::empty());
    assert(braces_of(end) =~= seq!['}']);
    let s = plain_latex_fraction(whole, numerator, denominator);
    assert(s =~= start + (open + (numerator + (middle + (denominator + end)))));
    lemma_braces_of_parts(start, open + (numerator + (middle + (denominator + end))));
    lemma_braces_of_parts(open, numerator + (middle + (denominator + end)));
    lemma_braces_of_parts(numerator, middle + (denominator + end));
    lemma_braces_of_parts(middle, denominator + end);
    lemma_braces_of_parts(denominator, end);
    assert(braces_of(s) =~= seq!['{', '}', '{', '}']);
}

/// The braces of a text that is recognized as a fraction in LaTeX are
/// those of two groups, one behind the other: no group is nested, left
/// open or closed twice.
pub proof fn lemma_recognized_text_has_two_groups(s: Seq<char>)
    ensures
        latex_fraction(s) is Some ==> braces_of(s) == seq!['{', '}', '{', '}'],
{
    if let Some(f) = latex_fraction(s) {
        lemma_recognized_text_is_plain_form(s);
        lemma_latex_fraction_is_normalized(s);
        lemma_braces_of_plain_text(s);
        let whole = match f.whole {
            Some(w) => w,
            None => Seq::empty(),
        };
        lemma_braces_of_plain_form(whole, f.numerator, f.denominator);
    }
}

} // verus!
