//! The lexical grammar, stated over a sequence of characters and a position
//! in it.
//!
//! Every function here is a specification: it says where a token that starts
//! at a position ends and what it is. The executable lexer is proved to
//! compute exactly these values.

use vstd::prelude::*;
use crate::chars::{
    digit_value, is_digit, is_line_end, is_name_char, is_name_start, is_quote, is_whitespace, unescape,
};
use crate::token::{LexError, Outcome, TokenModel};

verus! {

/// What scanning one token yields: the token or the error, and the position
/// behind the characters that were consumed.
pub struct Step {
    pub outcome: Outcome,
    pub end: int,
}

/// The character at position `i`, if the input reaches that far.
pub open spec fn peek_at(s: Seq<char>, i: int) -> Option<char> {
    if 0 <= i < s.len() {
        Some(s[i])
    } else {
        None
    }
}

/// The position behind the character at `i`; the end of input stays where
/// it is.
pub open spec fn advance_from(s: Seq<char>, i: int) -> int {
    if 0 <= i < s.len() {
        i + 1
    } else {
        i
    }
}

/// The end of the longest run of characters of `class` that starts at `i`.
pub open spec fn run_end(s: Seq<char>, i: int, class: spec_fn(char) -> bool) -> int
    decreases s.len() - i,
{
    if 0 <= i < s.len() && class(s[i]) {
        run_end(s, i + 1, class)
    } else {
        i
    }
}

/// The first position at or behind `i` that holds no whitespace.
pub open spec fn skip_whitespace(s: Seq<char>, i: int) -> int {
    run_end(s, i, |c: char| is_whitespace(c))
}

/// The end of the decimal digits that start at `i`.
pub open spec fn digits_end(s: Seq<char>, i: int) -> int {
    run_end(s, i, |c: char| is_digit(c))
}

/// The end of the identifier characters that start at `i`.
pub open spec fn name_end(s: Seq<char>, i: int) -> int {
    run_end(s, i, |c: char| is_name_char(c))
}

/// The position of the first line terminator at or behind `i`, or the end of
/// input.
pub open spec fn comment_end(s: Seq<char>, i: int) -> int {
    run_end(s, i, |c: char| !is_line_end(c))
}

/// The number that the decimal digits `s[i..j]` denote. No digits denote 0.
pub open spec fn decimal_value(s: Seq<char>, i: int, j: int) -> int
    decreases j - i,
{
    if j <= i {
        0
    } else {
        decimal_value(s, i, j - 1) * 10 + digit_value(s[j - 1])
    }
}

/// The token of a single punctuation character.
pub open spec fn punctuation(c: char) -> Option<TokenModel> {
    if c == '+' {
        Some(TokenModel::Plus)
    } else if c == '-' {
        Some(TokenModel::Minus)
    } else if c == '*' {
        Some(TokenModel::Star)
    } else if c == '/' {
        Some(TokenModel::Slash)
    } else if c == '.' {
        Some(TokenModel::Dot)
    } else if c == ',' {
        Some(TokenModel::Comma)
    } else if c == ':' {
        Some(TokenModel::Colon)
    } else if c == ';' {
        Some(TokenModel::Semicolon)
    } else if c == '=' {
        Some(TokenModel::Assign)
    } else if c == '>' {
        Some(TokenModel::Greater)
    } else if c == '<' {
        Some(TokenModel::Lower)
    } else if c == '!' {
        Some(TokenModel::ExclamationMark)
    } else if c == '{' {
        Some(TokenModel::LeftBrace)
    } else if c == '}' {
        Some(TokenModel::RightBrace)
    } else if c == '(' {
        Some(TokenModel::LeftParenthesis)
    } else if c == ')' {
        Some(TokenModel::RightParenthesis)
    } else if c == '[' {
        Some(TokenModel::LeftSquareBracket)
    } else if c == ']' {
        Some(TokenModel::RightSquareBracket)
    } else {
        None
    }
}

/// The keyword with exactly this spelling, if there is one.
pub open spec fn keyword(spelling: Seq<char>) -> Option<TokenModel> {
    if spelling == "if"@ {
        Some(TokenModel::If)
    } else if spelling == "else"@ {
        Some(TokenModel::Else)
    } else if spelling == "return"@ {
        Some(TokenModel::Return)
    } else if spelling == "fn"@ {
        Some(TokenModel::Function)
    } else if spelling == "loop"@ {
        Some(TokenModel::Loop)
    } else if spelling == "for"@ {
        Some(TokenModel::For)
    } else if spelling == "in"@ {
        Some(TokenModel::In)
    } else if spelling == "let"@ {
        Some(TokenModel::Let)
    } else if spelling == "const"@ {
        Some(TokenModel::Const)
    } else {
        None
    }
}

/// The token of a complete identifier spelling: its keyword, or a name.
pub open spec fn word(spelling: Seq<char>) -> TokenModel {
    match keyword(spelling) {
        Some(token) => token,
        None => TokenModel::Name(spelling),
    }
}

/// The integer literal made of the digits that start at `i`, negated where
/// `negative` is set. A value outside the 32-bit signed range is an error.
pub open spec fn scan_integer(s: Seq<char>, i: int, negative: bool) -> Step {
    let end = digits_end(s, i);
    let magnitude = decimal_value(s, i, end);
    let value = if negative {
        -magnitude
    } else {
        magnitude
    };
    Step {
        outcome: if i32::MIN <= value <= i32::MAX {
            Ok(TokenModel::Integer(value as i32))
        } else {
            Err(LexError::IntegerOverflow)
        },
        end,
    }
}

/// What a `-` at `i` begins: a negative literal where a digit follows
/// directly, an arrow where `>` follows directly, a minus otherwise.
pub open spec fn scan_minus(s: Seq<char>, i: int) -> Step {
    let next = advance_from(s, i);
    match peek_at(s, next) {
        Some(c) if is_digit(c) => scan_integer(s, next, true),
        Some(c) if c == '>' => Step { outcome: Ok(TokenModel::Arrow), end: next + 1 },
        _ => Step { outcome: Ok(TokenModel::Minus), end: next },
    }
}

/// The identifier or keyword made of the identifier characters that start at
/// `i`. The spelling is classified only once it is complete.
pub open spec fn scan_name(s: Seq<char>, i: int) -> Step {
    let end = name_end(s, i);
    Step { outcome: Ok(word(s.subrange(i, end))), end }
}

/// The content of a string literal whose first character behind the opening
/// delimiter is at `i`, and the position behind its closing delimiter.
/// `None` where the input ends before an unescaped `quote`.
///
/// A backslash gives the character behind it the meaning that [`unescape`]
/// assigns, so an escaped delimiter does not close the literal.
pub open spec fn string_body(s: Seq<char>, i: int, quote: char) -> Option<(Seq<char>, int)>
    decreases s.len() - i,
{
    if i < 0 || i >= s.len() {
        None
    } else if s[i] == '\\' {
        if i + 1 >= s.len() {
            None
        } else {
            match string_body(s, i + 2, quote) {
                Some((text, end)) => Some((seq![unescape(s[i + 1])] + text, end)),
                None => None,
            }
        }
    } else if s[i] == quote {
        Some((Seq::empty(), i + 1))
    } else {
        match string_body(s, i + 1, quote) {
            Some((text, end)) => Some((seq![s[i]] + text, end)),
            None => None,
        }
    }
}

/// The string literal whose opening delimiter is at `i` and closes with
/// `quote`. An unterminated literal consumes the rest of the input.
pub open spec fn scan_string(s: Seq<char>, i: int, quote: char) -> Step {
    match string_body(s, advance_from(s, i), quote) {
        Some((text, end)) => Step { outcome: Ok(TokenModel::StringLiteral(text)), end },
        None => Step { outcome: Err(LexError::UnterminatedStringLiteral), end: s.len() as int },
    }
}

/// The comment whose `#` is at `i`: the text behind it up to, and without,
/// the next line terminator, which is left in the input.
pub open spec fn scan_comment(s: Seq<char>, i: int) -> Step {
    let start = advance_from(s, i);
    let end = comment_end(s, start);
    Step { outcome: Ok(TokenModel::Comment(s.subrange(start, end))), end }
}

/// The token that starts at `i`, by the first rule that the character at `i`
/// meets. A character that meets none is consumed and reported.
pub open spec fn token_at(s: Seq<char>, i: int) -> Step
    recommends
        0 <= i < s.len(),
        !is_whitespace(s[i]),
{
    let c = s[i];
    if is_digit(c) {
        scan_integer(s, i, false)
    } else if c == '-' {
        scan_minus(s, i)
    } else if is_name_start(c) {
        scan_name(s, i)
    } else if is_quote(c) {
        scan_string(s, i, c)
    } else if c == '#' {
        scan_comment(s, i)
    } else {
        match punctuation(c) {
            Some(token) => Step { outcome: Ok(token), end: i + 1 },
            None => Step { outcome: Err(LexError::UnrecognizedCharacter), end: i + 1 },
        }
    }
}

/// One step of the lexer from position `i`: whitespace is skipped, then one
/// token is scanned. `None` where only whitespace is left.
pub open spec fn next_token(s: Seq<char>, i: int) -> Option<Step> {
    let start = skip_whitespace(s, i);
    if 0 <= start < s.len() {
        Some(token_at(s, start))
    } else {
        None
    }
}

/// Everything the lexer yields from position `i` to the end of input.
pub open spec fn token_stream(s: Seq<char>, i: int) -> Seq<Outcome>
    decreases s.len() - i,
    via token_stream_decreases
{
    match next_token(s, i) {
        Some(step) => seq![step.outcome] + token_stream(s, step.end),
        None => Seq::empty(),
    }
}

#[via_fn]
proof fn token_stream_decreases(s: Seq<char>, i: int) {
    lemma_next_token_advances(s, i);
}

/// A run ends inside the input, holds only characters of its class, and is
/// not followed by one.
pub proof fn lemma_run_end(s: Seq<char>, i: int, class: spec_fn(char) -> bool)
    requires
        0 <= i <= s.len(),
    ensures
        i <= run_end(s, i, class) <= s.len(),
        forall|k: int| i <= k < run_end(s, i, class) ==> class(#[trigger] s[k]),
        run_end(s, i, class) < s.len() ==> !class(s[run_end(s, i, class)]),
    decreases s.len() - i,
{
    if i < s.len() && class(s[i]) {
        lemma_run_end(s, i + 1, class);
    }
}

/// The end of a run is the only position of which [`lemma_run_end`] holds.
pub proof fn lemma_run_end_unique(s: Seq<char>, i: int, class: spec_fn(char) -> bool, end: int)
    requires
        0 <= i <= end <= s.len(),
        forall|k: int| i <= k < end ==> class(#[trigger] s[k]),
        end < s.len() ==> !class(s[end]),
    ensures
        run_end(s, i, class) == end,
    decreases end - i,
{
    if i < end {
        lemma_run_end_unique(s, i + 1, class, end);
    }
}

/// A string literal that closes does so inside the input, behind at least its
/// closing delimiter.
pub proof fn lemma_string_body_end(s: Seq<char>, i: int, quote: char)
    ensures
        string_body(s, i, quote) matches Some((_, end)) ==> i < end <= s.len(),
    decreases s.len() - i,
{
    if 0 <= i < s.len() {
        if s[i] == '\\' {
            if i + 1 < s.len() {
                lemma_string_body_end(s, i + 2, quote);
            }
        } else if s[i] != quote {
            lemma_string_body_end(s, i + 1, quote);
        }
    }
}

/// Scanning a token at a position inside the input consumes at least one
/// character and never runs past the end.
pub proof fn lemma_token_at_advances(s: Seq<char>, i: int)
    requires
        0 <= i < s.len(),
    ensures
        i < token_at(s, i).end <= s.len(),
{
    lemma_run_end(s, i, |c: char| is_digit(c));
    lemma_run_end(s, i + 1, |c: char| is_digit(c));
    lemma_run_end(s, i, |c: char| is_name_char(c));
    lemma_run_end(s, i + 1, |c: char| !is_line_end(c));
    lemma_string_body_end(s, i + 1, s[i]);
}

/// Every step of the lexer makes progress: it ends behind the position it
/// started from, inside the input.
pub proof fn lemma_next_token_advances(s: Seq<char>, i: int)
    ensures
        next_token(s, i) matches Some(step) ==> i < step.end <= s.len(),
        next_token(s, i) is None && 0 <= i <= s.len() ==> skip_whitespace(s, i) == s.len(),
{
    if 0 <= i <= s.len() {
        lemma_run_end(s, i, |c: char| is_whitespace(c));
        let start = skip_whitespace(s, i);
        if start < s.len() {
            lemma_token_at_advances(s, start);
        }
    }
}

} // verus!
