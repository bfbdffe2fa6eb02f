//! Transliteration of text into Braille cell codes: fractions in LaTeX and
//! vulgar-fraction notation, precomposed Hangul syllables, digits and the
//! arithmetic shortcut symbols.

pub mod cursor;
pub mod error;
pub mod fraction;
pub mod fraction_laws;
pub mod korean;
pub mod math_symbol_shortcut;
pub mod normalization;
pub mod number;
pub mod text;
pub mod unicode;
