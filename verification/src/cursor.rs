//! A cursor over the characters of a string, for the recognizers that read
//! their input from left to right with one character of lookahead.

use vstd::prelude::*;
use crate::text::{chars_of, trim, trim_range};

verus! {

/// The characters of a string that are still to be read.
pub struct CharCursor {
    chars: Vec<char>,
    pos: usize,
    end: usize,
}

impl View for CharCursor {
    type V = Seq<char>;

    /// The characters that are still to be read, the next one first.
    closed spec fn view(&self) -> Seq<char> {
        self.chars@.subrange(self.pos as int, self.end as int)
    }
}

impl CharCursor {
    #[verifier::type_invariant]
    spec fn well_formed(self) -> bool {
        self.pos <= self.end <= self.chars.len()
    }

    /// A cursor at the start of `s`.
    pub fn new(s: &str) -> (cursor: CharCursor)
        ensures
            cursor@ == s@,
    {
        let chars = chars_of(s);
        let end = chars.len();
        let cursor = CharCursor { chars, pos: 0, end };
        assert(cursor@ =~= s@);
        cursor
    }

    /// A cursor over `s` without the white space at its two ends.
    pub fn trimmed(s: &str) -> (cursor: CharCursor)
        ensures
            cursor@ == trim(s@),
    {
        let chars = chars_of(s);
        let (pos, end) = trim_range(&chars, 0, chars.len());
        assert(chars@.subrange(0, chars.len() as int) =~= s@);
        CharCursor { chars, pos, end }
    }

    /// The next character, which stays to be read.
    pub fn peek(&self) -> (c: Option<char>)
        ensures
            c == (if self@.len() > 0 {
                Some(self@[0])
            } else {
                None
            }),
    {
        proof {
            use_type_invariant(self);
        }
        if self.pos < self.end {
            Some(self.chars[self.pos])
        } else {
            None
        }
    }

    /// Reads the next character, if one is left.
    pub fn next(&mut self) -> (c: Option<char>)
        ensures
            c == (if old(self)@.len() > 0 {
                Some(old(self)@[0])
            } else {
                None
            }),
            final(self)@ == (if old(self)@.len() > 0 {
                old(self)@.drop_first()
            } else {
                old(self)@
            }),
    {
        proof {
            use_type_invariant(&*self);
        }
        if self.pos < self.end {
            let c = self.chars[self.pos];
            self.pos = self.pos + 1;
            assert(self@ =~= old(self)@.drop_first());
            Some(c)
        } else {
            None
        }
    }
}

} // verus!
