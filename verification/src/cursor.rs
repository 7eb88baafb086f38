//! A cursor over the input with one character of lookahead.

use vstd::prelude::*;
use crate::grammar::{advance_from, peek_at};

verus! {

/// The input text and the position of the next character to read.
pub struct CharCursor {
    chars: Vec<char>,
    pos: usize,
}

impl CharCursor {
    /// The whole input, read and unread.
    pub closed spec fn text(&self) -> Seq<char> {
        self.chars@
    }

    /// How many characters have been consumed: the index of the next one to
    /// read, and the length of the input once all of it has been read.
    pub closed spec fn position(&self) -> int {
        if self.pos <= self.chars.len() {
            self.pos as int
        } else {
            self.chars.len() as int
        }
    }

    /// The position never leaves the input.
    pub proof fn lemma_in_bounds(&self)
        ensures
            0 <= self.position() <= self.text().len(),
    {
    }

    /// A cursor at the start of `chars`.
    pub fn new(chars: Vec<char>) -> (cursor: Self)
        ensures
            cursor.text() == chars@,
            cursor.position() == 0,
    {
        CharCursor { chars, pos: 0 }
    }

    /// The next character, which stays in the input; `None` at the end of
    /// input, however often it is asked.
    pub fn peek(&self) -> (c: Option<char>)
        ensures
            c == peek_at(self.text(), self.position()),
    {
        if self.pos < self.chars.len() {
            Some(self.chars[self.pos])
        } else {
            None
        }
    }

    /// Consumes the next character and returns it; at the end of input
    /// nothing is consumed.
    pub fn advance(&mut self) -> (c: Option<char>)
        ensures
            final(self).text() == old(self).text(),
            final(self).position() == advance_from(old(self).text(), old(self).position()),
            c == peek_at(old(self).text(), old(self).position()),
    {
        if self.pos < self.chars.len() {
            let c = self.chars[self.pos];
            self.pos = self.pos + 1;
            Some(c)
        } else {
            None
        }
    }
}

} // verus!
