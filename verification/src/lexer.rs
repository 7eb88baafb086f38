//! The token producer: scan routines over a character cursor, and the loop
//! that drives them.

use vstd::prelude::*;
use crate::chars::{
    char_is_digit, char_is_line_end, char_is_name_char, char_is_name_start, char_is_quote,
    char_is_whitespace, char_to_digit, char_unescape, unescape,
};
use crate::cursor::CharCursor;
use crate::dispatch::{punctuation_token, word_token};
use crate::grammar::{
    advance_from, comment_end, decimal_value, digits_end, lemma_next_token_advances, name_end,
    next_token, scan_comment, scan_integer, scan_minus, scan_name, scan_string, skip_whitespace,
    string_body, token_stream,
};
pub use crate::token::{LexError, LexResult, Token};
use crate::token::{outcome_of, outcomes_of, Outcome};

verus! {

/// The largest magnitude that an integer literal can have: that of
/// `i32::MIN`.
const MAX_MAGNITUDE: i64 = 2147483648;

/// Whether `number` stands for `value` in the accumulator of the integer
/// scanner: it is the value itself while that is at most [`MAX_MAGNITUDE`],
/// and from then on some number above it. So a literal of any length can be
/// read without overflow, and whether it is in range can still be told.
spec fn stands_for(number: i64, value: int) -> bool {
    &&& 0 <= value
    &&& 0 <= number <= 10 * MAX_MAGNITUDE + 9
    &&& value <= MAX_MAGNITUDE ==> number == value
    &&& value > MAX_MAGNITUDE ==> number > MAX_MAGNITUDE
}

/// A lazy producer of tokens over an input held in memory. Each call of
/// [`LexerIterator::next`] scans one token and no more.
pub struct LexerIterator {
    code_iter: CharCursor,
}

impl LexerIterator {
    /// The whole input of this tokenization pass.
    pub closed spec fn source(&self) -> Seq<char> {
        self.code_iter.text()
    }

    /// The position in [`Self::source`] at which the next step starts.
    pub closed spec fn position(&self) -> int {
        self.code_iter.position()
    }

    /// The position never leaves the input.
    pub proof fn lemma_in_bounds(&self)
        ensures
            0 <= self.position() <= self.source().len(),
    {
        self.code_iter.lemma_in_bounds();
    }

    /// Everything that is still to be produced.
    pub open spec fn remaining(&self) -> Seq<Outcome> {
        token_stream(self.source(), self.position())
    }

    /// Scans an integer literal from the digits at the cursor. With
    /// `negative` set the value is negated before its range is checked.
    pub fn parse_integer(&mut self, negative: bool) -> (result: LexResult)
        ensures
            final(self).source() == old(self).source(),
            final(self).position() == scan_integer(
                old(self).source(),
                old(self).position(),
                negative,
            ).end,
            outcome_of(result) == scan_integer(
                old(self).source(),
                old(self).position(),
                negative,
            ).outcome,
    {
        let ghost s = self.source();
        let ghost start = self.position();
        let mut number: i64 = 0;
        proof {
            self.lemma_in_bounds();
        }
        loop
            invariant
                self.source() == s,
                0 <= start <= self.position() <= s.len(),
                digits_end(s, start) == digits_end(s, self.position()),
                stands_for(number, decimal_value(s, start, self.position())),
            ensures
                self.source() == s,
                self.position() == digits_end(s, start),
                stands_for(number, decimal_value(s, start, self.position())),
            decreases s.len() - self.position(),
        {
            let digit = match self.code_iter.peek() {
                Some(c) => char_to_digit(c),
                None => None,
            };
            match digit {
                Some(digit) => {
                    if number <= MAX_MAGNITUDE {
                        number = number * 10 + digit;
                    }
                    self.code_iter.advance();
                },
                None => {
                    break ;
                },
            }
        }
        let value = if negative {
            -number
        } else {
            number
        };
        if value < i32::MIN as i64 || value > i32::MAX as i64 {
            Err(LexError::IntegerOverflow)
        } else {
            Ok(Token::Integer(value as i32))
        }
    }

    /// Scans what a `-` at the cursor begins: a negative integer literal
    /// where a digit follows directly, an arrow where `>` does, and a minus
    /// otherwise.
    pub fn parse_minus(&mut self) -> (result: LexResult)
        ensures
            final(self).source() == old(self).source(),
            final(self).position() == scan_minus(old(self).source(), old(self).position()).end,
            outcome_of(result) == scan_minus(old(self).source(), old(self).position()).outcome,
    {
        proof {
            self.lemma_in_bounds();
        }
        self.code_iter.advance();
        match self.code_iter.peek() {
            Some(c) => {
                if char_is_digit(c) {
                    self.parse_integer(true)
                } else if c == '>' {
                    self.code_iter.advance();
                    Ok(Token::Arrow)
                } else {
                    Ok(Token::Minus)
                }
            },
            None => Ok(Token::Minus),
        }
    }

    /// Scans the longest run of identifier characters at the cursor and
    /// classifies the complete spelling as a keyword or a name.
    pub fn parse_name(&mut self) -> (result: LexResult)
        ensures
            final(self).source() == old(self).source(),
            final(self).position() == scan_name(old(self).source(), old(self).position()).end,
            outcome_of(result) == scan_name(old(self).source(), old(self).position()).outcome,
    {
        let ghost s = self.source();
        let ghost start = self.position();
        let mut identifier = String::new();
        proof {
            self.lemma_in_bounds();
        }
        loop
            invariant
                self.source() == s,
                0 <= start <= self.position() <= s.len(),
                name_end(s, start) == name_end(s, self.position()),
                identifier@ == s.subrange(start, self.position()),
            ensures
                self.source() == s,
                self.position() == name_end(s, start),
                identifier@ == s.subrange(start, self.position()),
            decreases s.len() - self.position(),
        {
            match self.code_iter.peek() {
                Some(c) if char_is_name_char(c) => {
                    identifier.push(c);
                    self.code_iter.advance();
                },
                _ => {
                    break ;
                },
            }
        }
        Ok(word_token(identifier))
    }

    /// Scans a comment: the character at the cursor, which opens it, is
    /// dropped, and the text up to the next line terminator is kept. The
    /// terminator stays in the input.
    pub fn parse_comment(&mut self) -> (result: LexResult)
        ensures
            final(self).source() == old(self).source(),
            final(self).position() == scan_comment(old(self).source(), old(self).position()).end,
            outcome_of(result) == scan_comment(old(self).source(), old(self).position()).outcome,
    {
        let ghost s = self.source();
        proof {
            self.lemma_in_bounds();
        }
        self.code_iter.advance();
        let ghost start = self.position();
        let mut comment = String::new();
        loop
            invariant
                self.source() == s,
                0 <= start <= self.position() <= s.len(),
                comment_end(s, start) == comment_end(s, self.position()),
                comment@ == s.subrange(start, self.position()),
            ensures
                self.source() == s,
                self.position() == comment_end(s, start),
                comment@ == s.subrange(start, self.position()),
            decreases s.len() - self.position(),
        {
            match self.code_iter.peek() {
                Some(c) if !char_is_line_end(c) => {
                    comment.push(c);
                    self.code_iter.advance();
                },
                _ => {
                    break ;
                },
            }
        }
        Ok(Token::Comment(comment))
    }

    /// Scans a string literal: the character at the cursor, which opens it,
    /// is dropped, and the content up to the first unescaped `start_quote` is
    /// decoded. Where the input ends first, all of it is consumed and the
    /// literal is reported as unterminated.
    pub fn parse_string_literal(&mut self, start_quote: char) -> (result: LexResult)
        ensures
            final(self).source() == old(self).source(),
            final(self).position() == scan_string(
                old(self).source(),
                old(self).position(),
                start_quote,
            ).end,
            outcome_of(result) == scan_string(
                old(self).source(),
                old(self).position(),
                start_quote,
            ).outcome,
    {
        let ghost s = self.source();
        proof {
            self.lemma_in_bounds();
        }
        self.code_iter.advance();
        let ghost start = self.position();
        let mut string_literal = String::new();
        loop
            invariant
                self.source() == s,
                s == old(self).source(),
                0 <= old(self).position() <= s.len(),
                start == advance_from(s, old(self).position()),
                0 <= start <= self.position() <= s.len(),
                match string_body(s, self.position(), start_quote) {
                    Some((rest, end)) => string_body(s, start, start_quote) == Some(
                        (string_literal@ + rest, end),
                    ),
                    None => string_body(s, start, start_quote) is None,
                },
            decreases s.len() - self.position(),
        {
            let ghost before = string_literal@;
            let ghost here = self.position();
            let c = match self.code_iter.advance() {
                Some(c) => c,
                None => return Err(LexError::UnterminatedStringLiteral),
            };
            if c == '\\' {
                let escaped = match self.code_iter.advance() {
                    Some(escaped) => escaped,
                    None => return Err(LexError::UnterminatedStringLiteral),
                };
                string_literal.push(char_unescape(escaped));
                assert forall|rest: Seq<char>|
                    before + (seq![unescape(escaped)] + rest) == #[trigger] (string_literal@
                        + rest) by {
                    assert(before + (seq![unescape(escaped)] + rest) =~= string_literal@ + rest);
                }
            } else if c == start_quote {
                assert(before + Seq::<char>::empty() =~= before);
                return Ok(Token::StringLiteral(string_literal));
            } else {
                string_literal.push(c);
                assert forall|rest: Seq<char>|
                    before + (seq![c] + rest) == #[trigger] (string_literal@ + rest) by {
                    assert(before + (seq![c] + rest) =~= string_literal@ + rest);
                }
            }
        }
    }

    /// Produces the next token: whitespace is skipped, the next character
    /// selects the scan routine, and exactly one token or error is returned.
    /// `None` once only whitespace was left; from then on every call
    /// returns `None`.
    ///
    /// An error ends only the token it stands for: the cursor is behind the
    /// characters that were consumed, and the next call goes on from there.
    pub fn next(&mut self) -> (result: Option<LexResult>)
        ensures
            final(self).source() == old(self).source(),
            match next_token(old(self).source(), old(self).position()) {
                Some(step) => {
                    &&& result matches Some(r)
                    &&& outcome_of(r) == step.outcome
                    &&& final(self).position() == step.end
                    &&& old(self).position() < step.end <= old(self).source().len()
                },
                None => {
                    &&& result is None
                    &&& final(self).position() == old(self).source().len()
                    &&& next_token(final(self).source(), final(self).position()) is None
                },
            },
    {
        let ghost s = self.source();
        let ghost start = self.position();
        proof {
            self.lemma_in_bounds();
            lemma_next_token_advances(s, start);
        }
        loop
            invariant
                self.source() == s,
                0 <= start <= self.position() <= s.len(),
                skip_whitespace(s, start) == skip_whitespace(s, self.position()),
            ensures
                self.source() == s,
                0 <= start <= self.position() <= s.len(),
                self.position() == skip_whitespace(s, start),
            decreases s.len() - self.position(),
        {
            match self.code_iter.peek() {
                Some(c) if char_is_whitespace(c) => {
                    self.code_iter.advance();
                },
                _ => {
                    break ;
                },
            }
        }
        match self.code_iter.peek() {
            None => None,
            Some(ch) => {
                if char_is_digit(ch) {
                    Some(self.parse_integer(false))
                } else if ch == '-' {
                    Some(self.parse_minus())
                } else if char_is_name_start(ch) {
                    Some(self.parse_name())
                } else if char_is_quote(ch) {
                    Some(self.parse_string_literal(ch))
                } else if ch == '#' {
                    Some(self.parse_comment())
                } else {
                    self.code_iter.advance();
                    match punctuation_token(ch) {
                        Some(token) => Some(Ok(token)),
                        None => Some(Err(LexError::UnrecognizedCharacter)),
                    }
                }
            },
        }
    }

    /// Produces all tokens that are left, in order, errors included.
    pub fn collect_tokens(&mut self) -> (results: Vec<LexResult>)
        ensures
            final(self).source() == old(self).source(),
            final(self).position() == old(self).source().len(),
            outcomes_of(results@) == old(self).remaining(),
    {
        let ghost s = self.source();
        let ghost start = self.position();
        let mut results: Vec<LexResult> = Vec::new();
        proof {
            self.lemma_in_bounds();
        }
        loop
            invariant
                self.source() == s,
                0 <= self.position() <= s.len(),
                token_stream(s, start) == outcomes_of(results@) + token_stream(
                    s,
                    self.position(),
                ),
            ensures
                self.source() == s,
                self.position() == s.len(),
                token_stream(s, start) == outcomes_of(results@),
            decreases s.len() - self.position(),
        {
            let ghost before = results@;
            let ghost here = self.position();
            match self.next() {
                Some(r) => {
                    results.push(r);
                    proof {
                        let rest = token_stream(s, self.position());
                        assert(outcomes_of(results@) =~= outcomes_of(before).push(outcome_of(r)));
                        assert(outcomes_of(before) + (seq![outcome_of(r)] + rest)
                            =~= outcomes_of(results@) + rest);
                    }
                },
                None => {
                    assert(token_stream(s, here) =~= Seq::<Outcome>::empty());
                    assert(outcomes_of(results@) + Seq::<Outcome>::empty()
                        =~= outcomes_of(results@));
                    break ;
                },
            }
        }
        results
    }
}

/// The entry point of the lexer.
#[derive(Default)]
pub struct Lexer {}

impl Lexer {
    /// Starts a tokenization pass over `source_code`. Nothing is scanned
    /// before the first token is asked for.
    pub fn tokenize(source_code: Vec<char>) -> (tokens: LexerIterator)
        ensures
            tokens.source() == source_code@,
            tokens.position() == 0,
    {
        LexerIterator { code_iter: CharCursor::new(source_code) }
    }
}

} // verus!
