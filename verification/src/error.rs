//! The errors of the transliteration, and the message each one carries.

use vstd::prelude::*;
use vstd::string::StringExecFns;
use crate::text::{decimal, push_decimal};

verus! {

/// What can go wrong while text is turned into Braille cells. A position,
/// where one is known, counts characters of the input from zero.
#[derive(Debug, Clone)]
pub enum BraillifyError {
    InvalidCharacter { character: char, position: Option<usize>, context: String },
    InvalidKoreanCharacter { character: char, position: Option<usize> },
    InvalidKoreanChoseong { character: char, position: Option<usize> },
    InvalidKoreanJungseong { character: char, position: Option<usize> },
    InvalidKoreanJongseong { character: char, position: Option<usize> },
    InvalidKoreanPart { character: char, position: Option<usize> },
    InvalidEnglishCharacter { character: char, position: Option<usize> },
    InvalidNumberCharacter { character: char, position: Option<usize> },
    InvalidSymbolCharacter { character: char, position: Option<usize> },
    InvalidMathSymbolCharacter { character: char, position: Option<usize> },
    InvalidShortcutCharacter { character: char, position: Option<usize> },
    InvalidFractionPart { part_name: String, character: char, position: Option<usize> },
    InputTooLong { length: usize, max_length: usize },
    FractionParseError { input: String, error: String },
    Other { message: String, context: String },
}

/// The offending character between single quotes, followed by its position
/// where one is known: `'c'` or `'c' at position 7`.
pub open spec fn quoted_at(character: char, position: Option<usize>) -> Seq<char> {
    "'"@.push(character) + "'"@ + match position {
        Some(p) => " at position "@ + decimal(p as nat),
        None => Seq::empty(),
    }
}

/// Appends the quoted character, and its position where one is known.
fn push_quoted_at(out: &mut String, character: char, position: Option<usize>)
    ensures
        final(out)@ == old(out)@ + quoted_at(character, position),
{
    out.append("'");
    out.push(character);
    out.append("'");
    if let Some(p) = position {
        out.append(" at position ");
        push_decimal(out, p);
    }
}

impl BraillifyError {
    /// The words that name the kind of an error about one character, and
    /// nothing for the other kinds.
    pub open spec fn kind_label(&self) -> Seq<char> {
        match self {
            BraillifyError::InvalidCharacter { .. } => "Invalid character "@,
            BraillifyError::InvalidKoreanCharacter { .. } => "Invalid Korean character "@,
            BraillifyError::InvalidKoreanChoseong { .. } => "Invalid Korean choseong character "@,
            BraillifyError::InvalidKoreanJungseong { .. } => "Invalid Korean jungseong character "@,
            BraillifyError::InvalidKoreanJongseong { .. } => "Invalid Korean jongseong character "@,
            BraillifyError::InvalidKoreanPart { .. } => "Invalid Korean part character "@,
            BraillifyError::InvalidEnglishCharacter { .. } => "Invalid English character "@,
            BraillifyError::InvalidNumberCharacter { .. } => "Invalid number character "@,
            BraillifyError::InvalidSymbolCharacter { .. } => "Invalid symbol character "@,
            BraillifyError::InvalidMathSymbolCharacter { .. } => "Invalid math symbol character "@,
            BraillifyError::InvalidShortcutCharacter { .. } => "Invalid shortcut character "@,
            _ => Seq::empty(),
        }
    }

    /// The message of the error, character by character.
    pub open spec fn message(&self) -> Seq<char> {
        match self {
            BraillifyError::InvalidCharacter { character, position, context } => {
                self.kind_label() + quoted_at(*character, *position) + ", context: "@ + context@
            },
            BraillifyError::InvalidKoreanCharacter { character, position }
            | BraillifyError::InvalidKoreanChoseong { character, position }
            | BraillifyError::InvalidKoreanJungseong { character, position }
            | BraillifyError::InvalidKoreanJongseong { character, position }
            | BraillifyError::InvalidKoreanPart { character, position }
            | BraillifyError::InvalidEnglishCharacter { character, position }
            | BraillifyError::InvalidNumberCharacter { character, position }
            | BraillifyError::InvalidSymbolCharacter { character, position }
            | BraillifyError::InvalidMathSymbolCharacter { character, position }
            | BraillifyError::InvalidShortcutCharacter { character, position } => {
                self.kind_label() + quoted_at(*character, *position)
            },
            BraillifyError::InvalidFractionPart { part_name, character, position } => {
                "Invalid "@ + part_name@ + " part (non-ascii digit): "@ + quoted_at(
                    *character,
                    *position,
                )
            },
            BraillifyError::InputTooLong { length, max_length } => {
                "Input text length ("@ + decimal(*length as nat)
                    + ") exceeds maximum allowed length ("@ + decimal(*max_length as nat) + ")"@
            },
            BraillifyError::FractionParseError { input, error } => {
                "Fraction parse error for '"@ + input@ + "': "@ + error@
            },
            BraillifyError::Other { message, context } => {
                "Error: "@ + message@ + " (context: "@ + context@ + ")"@
            },
        }
    }

    /// Writes the message of the error.
    pub fn to_string(&self) -> (s: String)
        ensures
            s@ == self.message(),
    {
        let mut out = String::new();
        match self {
            BraillifyError::InvalidCharacter { character, position, context } => {
                out.append("Invalid character ");
                push_quoted_at(&mut out, *character, *position);
                out.append(", context: ");
                out.append(context.as_str());
            },
            BraillifyError::InvalidKoreanCharacter { character, position } => {
                out.append("Invalid Korean character ");
                push_quoted_at(&mut out, *character, *position);
            },
            BraillifyError::InvalidKoreanChoseong { character, position } => {
                out.append("Invalid Korean choseong character ");
                push_quoted_at(&mut out, *character, *position);
            },
            BraillifyError::InvalidKoreanJungseong { character, position } => {
                out.append("Invalid Korean jungseong character ");
                push_quoted_at(&mut out, *character, *position);
            },
            BraillifyError::InvalidKoreanJongseong { character, position } => {
                out.append("Invalid Korean jongseong character ");
                push_quoted_at(&mut out, *character, *position);
            },
            BraillifyError::InvalidKoreanPart { character, position } => {
                out.append("Invalid Korean part character ");
                push_quoted_at(&mut out, *character, *position);
            },
            BraillifyError::InvalidEnglishCharacter { character, position } => {
                out.append("Invalid English character ");
                push_quoted_at(&mut out, *character, *position);
            },
            BraillifyError::InvalidNumberCharacter { character, position } => {
                out.append("Invalid number character ");
                push_quoted_at(&mut out, *character, *position);
            },
            BraillifyError::InvalidSymbolCharacter { character, position } => {
                out.append("Invalid symbol character ");
                push_quoted_at(&mut out, *character, *position);
            },
            BraillifyError::InvalidMathSymbolCharacter { character, position } => {
                out.append("Invalid math symbol character ");
                push_quoted_at(&mut out, *character, *position);
            },
            BraillifyError::InvalidShortcutCharacter { character, position } => {
                out.append("Invalid shortcut character ");
                push_quoted_at(&mut out, *character, *position);
            },
            BraillifyError::InvalidFractionPart { part_name, character, position } => {
                out.append("Invalid ");
                out.append(part_name.as_str());
                out.append(" part (non-ascii digit): ");
                push_quoted_at(&mut out, *character, *position);
            },
            BraillifyError::InputTooLong { length, max_length } => {
                out.append("Input text length (");
                push_decimal(&mut out, *length);
                out.append(") exceeds maximum allowed length (");
                push_decimal(&mut out, *max_length);
                out.append(")");
            },
            BraillifyError::FractionParseError { input, error } => {
                out.append("Fraction parse error for '");
                out.append(input.as_str());
                out.append("': ");
                out.append(error.as_str());
            },
            BraillifyError::Other { message, context } => {
                out.append("Error: ");
                out.append(message.as_str());
                out.append(" (context: ");
                out.append(context.as_str());
                out.append(")");
            },
        }
        out
    }
}

} // verus!
