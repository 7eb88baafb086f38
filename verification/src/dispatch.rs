//! The fixed tables of the lexer: punctuation characters and keywords.

use vstd::prelude::*;
use vstd::string::StrSliceExecFns;
use crate::grammar::{keyword, punctuation, word};
use crate::token::{Token, TokenModel};

verus! {

/// The model of an optional token.
pub open spec fn token_model(token: Option<Token>) -> Option<TokenModel> {
    match token {
        Some(t) => Some(t@),
        None => None,
    }
}

/// Looks a single character up in the punctuation table.
pub fn punctuation_token(c: char) -> (token: Option<Token>)
    ensures
        token_model(token) == punctuation(c),
{
    match c {
        '+' => Some(Token::Plus),
        '-' => Some(Token::Minus),
        '*' => Some(Token::Star),
        '/' => Some(Token::Slash),
        '.' => Some(Token::Dot),
        ',' => Some(Token::Comma),
        ':' => Some(Token::Colon),
        ';' => Some(Token::Semicolon),
        '=' => Some(Token::Assign),
        '>' => Some(Token::Greater),
        '<' => Some(Token::Lower),
        '!' => Some(Token::ExclamationMark),
        '{' => Some(Token::LeftBrace),
        '}' => Some(Token::RightBrace),
        '(' => Some(Token::LeftParenthesis),
        ')' => Some(Token::RightParenthesis),
        '[' => Some(Token::LeftSquareBracket),
        ']' => Some(Token::RightSquareBracket),
        _ => None,
    }
}

/// Whether `text`, which has `len` characters, reads exactly as `literal`.
fn spells(text: &str, len: usize, literal: &str) -> (same: bool)
    requires
        len == text@.len(),
    ensures
        same == (text@ == literal@),
{
    if literal.unicode_len() != len {
        return false;
    }
    let mut i: usize = 0;
    while i < len
        invariant
            i <= len,
            len == text@.len(),
            len == literal@.len(),
            forall|k: int| 0 <= k < i ==> text@[k] == literal@[k],
        decreases len - i,
    {
        if text.get_char(i) != literal.get_char(i) {
            return false;
        }
        i += 1;
    }
    assert(text@ =~= literal@);
    true
}

/// Whether two texts hold the same characters.
pub fn same_text(text: &str, other: &str) -> (same: bool)
    ensures
        same == (text@ == other@),
{
    spells(text, text.unicode_len(), other)
}

/// Looks a complete spelling up in the keyword table.
pub fn keyword_token(spelling: &str) -> (token: Option<Token>)
    ensures
        token_model(token) == keyword(spelling@),
{
    let len = spelling.unicode_len();
    if spells(spelling, len, "if") {
        Some(Token::If)
    } else if spells(spelling, len, "else") {
        Some(Token::Else)
    } else if spells(spelling, len, "return") {
        Some(Token::Return)
    } else if spells(spelling, len, "fn") {
        Some(Token::Function)
    } else if spells(spelling, len, "loop") {
        Some(Token::Loop)
    } else if spells(spelling, len, "for") {
        Some(Token::For)
    } else if spells(spelling, len, "in") {
        Some(Token::In)
    } else if spells(spelling, len, "let") {
        Some(Token::Let)
    } else if spells(spelling, len, "const") {
        Some(Token::Const)
    } else {
        None
    }
}

/// The token of a complete identifier spelling: its keyword, or a name that
/// holds the spelling.
pub fn word_token(spelling: String) -> (token: Token)
    ensures
        token@ == word(spelling@),
{
    match keyword_token(spelling.as_str()) {
        Some(token) => token,
        None => Token::Name(spelling),
    }
}

} // verus!
