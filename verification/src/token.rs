//! Tokens, their mathematical model and the errors of the lexer.

use vstd::prelude::*;

verus! {

/// One classified lexical unit of source text.
#[derive(Debug, Clone, PartialEq, Eq)]
pub enum Token {
    Plus,
    Minus,
    Star,
    Slash,
    Dot,
    Comma,
    Colon,
    Semicolon,
    Assign,
    Greater,
    Lower,
    ExclamationMark,
    LeftBrace,
    RightBrace,
    LeftParenthesis,
    RightParenthesis,
    LeftSquareBracket,
    RightSquareBracket,
    Arrow,
    If,
    Else,
    Return,
    Function,
    Loop,
    For,
    In,
    Let,
    Const,
    /// The text behind `#`, up to the end of the line.
    Comment(String),
    /// The decoded content of a quoted literal.
    StringLiteral(String),
    /// A decimal literal within the 32-bit signed range.
    Integer(i32),
    /// An identifier that is no keyword.
    Name(String),
}

/// The mathematical value of a [`Token`]: the same variants, with text held
/// as a sequence of characters.
pub enum TokenModel {
    Plus,
    Minus,
    Star,
    Slash,
    Dot,
    Comma,
    Colon,
    Semicolon,
    Assign,
    Greater,
    Lower,
    ExclamationMark,
    LeftBrace,
    RightBrace,
    LeftParenthesis,
    RightParenthesis,
    LeftSquareBracket,
    RightSquareBracket,
    Arrow,
    If,
    Else,
    Return,
    Function,
    Loop,
    For,
    In,
    Let,
    Const,
    Comment(Seq<char>),
    StringLiteral(Seq<char>),
    Integer(i32),
    Name(Seq<char>),
}

impl View for Token {
    type V = TokenModel;

    open spec fn view(&self) -> TokenModel {
        match self {
            Token::Plus => TokenModel::Plus,
            Token::Minus => TokenModel::Minus,
            Token::Star => TokenModel::Star,
            Token::Slash => TokenModel::Slash,
            Token::Dot => TokenModel::Dot,
            Token::Comma => TokenModel::Comma,
            Token::Colon => TokenModel::Colon,
            Token::Semicolon => TokenModel::Semicolon,
            Token::Assign => TokenModel::Assign,
            Token::Greater => TokenModel::Greater,
            Token::Lower => TokenModel::Lower,
            Token::ExclamationMark => TokenModel::ExclamationMark,
            Token::LeftBrace => TokenModel::LeftBrace,
            Token::RightBrace => TokenModel::RightBrace,
            Token::LeftParenthesis => TokenModel::LeftParenthesis,
            Token::RightParenthesis => TokenModel::RightParenthesis,
            Token::LeftSquareBracket => TokenModel::LeftSquareBracket,
            Token::RightSquareBracket => TokenModel::RightSquareBracket,
            Token::Arrow => TokenModel::Arrow,
            Token::If => TokenModel::If,
            Token::Else => TokenModel::Else,
            Token::Return => TokenModel::Return,
            Token::Function => TokenModel::Function,
            Token::Loop => TokenModel::Loop,
            Token::For => TokenModel::For,
            Token::In => TokenModel::In,
            Token::Let => TokenModel::Let,
            Token::Const => TokenModel::Const,
            Token::Comment(text) => TokenModel::Comment(text@),
            Token::StringLiteral(text) => TokenModel::StringLiteral(text@),
            Token::Integer(value) => TokenModel::Integer(*value),
            Token::Name(spelling) => TokenModel::Name(spelling@),
        }
    }
}

/// Why no token could be produced at some place of the input.
#[derive(Debug, Clone, Copy, PartialEq, Eq, Structural)]
pub enum LexError {
    /// The input ended inside a string literal.
    UnterminatedStringLiteral,
    /// A decimal literal lies outside the 32-bit signed range.
    IntegerOverflow,
    /// A character that begins no token.
    UnrecognizedCharacter,
}

impl LexError {
    /// A short description for diagnostics.
    pub fn message(&self) -> (text: &'static str)
        ensures
            text@ == match self {
                LexError::UnterminatedStringLiteral => "Unclosed string literal"@,
                LexError::IntegerOverflow => "Integer overflow"@,
                LexError::UnrecognizedCharacter => "Unrecognized character"@,
            },
    {
        match self {
            LexError::UnterminatedStringLiteral => "Unclosed string literal",
            LexError::IntegerOverflow => "Integer overflow",
            LexError::UnrecognizedCharacter => "Unrecognized character",
        }
    }
}

/// What one step of the lexer yields.
pub type LexResult = Result<Token, LexError>;

/// The mathematical value of a [`LexResult`].
pub type Outcome = Result<TokenModel, LexError>;

/// The model of one lexing result.
pub open spec fn outcome_of(r: LexResult) -> Outcome {
    match r {
        Ok(token) => Ok(token@),
        Err(e) => Err(e),
    }
}

/// The model of a sequence of lexing results.
pub open spec fn outcomes_of(results: Seq<LexResult>) -> Seq<Outcome> {
    results.map_values(|r: LexResult| outcome_of(r))
}

} // verus!
