//! The statements that the executor knows, stated over a sequence of tokens.
//!
//! Two statements exist: a declaration, `let name = literal`, and a call of
//! the builtin `println(literal)`, each with an optional `;` behind it.
//! Every function here is a specification; the executor in
//! [`crate::runtime`] is proved to compute these values.

use vstd::prelude::*;
use crate::runtime::{RuntimeError, ValueModel};
use crate::token::{Token, TokenModel};

verus! {

/// What executing one statement does.
pub enum Effect {
    /// Nothing: the token begins no statement and is passed over.
    Nothing,
    /// The variable `name` is bound to `value`.
    Bind { name: Seq<char>, value: ValueModel },
    /// `value` is printed.
    Print { value: ValueModel },
}

/// A statement that was recognized: what it does, and the position behind
/// its last token.
pub struct Statement {
    pub effect: Effect,
    pub end: int,
}

/// The models of a sequence of tokens.
pub open spec fn models_of(tokens: Seq<Token>) -> Seq<TokenModel> {
    tokens.map_values(|t: Token| t@)
}

/// The value of an integer or string literal; `None` for every other token.
pub open spec fn literal_value(token: TokenModel) -> Option<ValueModel> {
    match token {
        TokenModel::Integer(number) => Some(ValueModel::Integer(number)),
        TokenModel::StringLiteral(text) => Some(ValueModel::String(text)),
        _ => None,
    }
}

/// The position behind a `;` at `i`, or `i` where there is none.
pub open spec fn skip_semicolon(tokens: Seq<TokenModel>, i: int) -> int {
    if 0 <= i < tokens.len() && tokens[i] == TokenModel::Semicolon {
        i + 1
    } else {
        i
    }
}

/// The declaration whose `let` is at `i`: a name, `=`, a literal and an
/// optional `;` must follow.
pub open spec fn declaration_at(tokens: Seq<TokenModel>, i: int) -> Result<
    Statement,
    RuntimeError,
> {
    if i + 1 >= tokens.len() {
        Err(RuntimeError::UnexpectedEnd)
    } else if !(tokens[i + 1] is Name) {
        Err(RuntimeError::VariableNameExpected)
    } else if i + 2 >= tokens.len() {
        Err(RuntimeError::UnexpectedEnd)
    } else if tokens[i + 2] != TokenModel::Assign {
        Err(RuntimeError::AssignExpected)
    } else if i + 3 >= tokens.len() {
        Err(RuntimeError::UnexpectedEnd)
    } else {
        match literal_value(tokens[i + 3]) {
            Some(value) => Ok(
                Statement {
                    effect: Effect::Bind { name: tokens[i + 1]->Name_0, value },
                    end: skip_semicolon(tokens, i + 4),
                },
            ),
            None => Err(RuntimeError::ValueExpected),
        }
    }
}

/// The call whose `println` is at `i`: `(`, a literal, `)` and an optional
/// `;` must follow.
pub open spec fn print_at(tokens: Seq<TokenModel>, i: int) -> Result<Statement, RuntimeError> {
    if i + 1 >= tokens.len() {
        Err(RuntimeError::UnexpectedEnd)
    } else if tokens[i + 1] != TokenModel::LeftParenthesis {
        Err(RuntimeError::LeftParenthesisExpected)
    } else if i + 2 >= tokens.len() {
        Err(RuntimeError::UnexpectedEnd)
    } else if literal_value(tokens[i + 2]) is None {
        Err(RuntimeError::PrintableExpected)
    } else if i + 3 >= tokens.len() {
        Err(RuntimeError::UnexpectedEnd)
    } else if tokens[i + 3] != TokenModel::RightParenthesis {
        Err(RuntimeError::RightParenthesisExpected)
    } else {
        Ok(
            Statement {
                effect: Effect::Print { value: literal_value(tokens[i + 2])->0 },
                end: skip_semicolon(tokens, i + 4),
            },
        )
    }
}

/// The statement that begins at `i`. `let` begins a declaration and the name
/// `println` a call; every other token is passed over.
pub open spec fn statement_at(tokens: Seq<TokenModel>, i: int) -> Result<Statement, RuntimeError>
    recommends
        0 <= i < tokens.len(),
{
    match tokens[i] {
        TokenModel::Let => declaration_at(tokens, i),
        TokenModel::Name(name) if name == "println"@ => print_at(tokens, i),
        _ => Ok(Statement { effect: Effect::Nothing, end: i + 1 }),
    }
}

/// The state of an execution: the variables, what has been printed, and the
/// error that stopped it, if one did.
pub struct RunModel {
    pub variables: Map<Seq<char>, ValueModel>,
    pub printed: Seq<ValueModel>,
    pub failure: Option<RuntimeError>,
}

/// Executes the statements from `i` on, one after the other. The first
/// statement that cannot be executed stops the run; what was bound and
/// printed before it stays.
pub open spec fn execute(
    tokens: Seq<TokenModel>,
    i: int,
    variables: Map<Seq<char>, ValueModel>,
    printed: Seq<ValueModel>,
) -> RunModel
    decreases tokens.len() - i,
{
    if i < 0 || i >= tokens.len() {
        RunModel { variables, printed, failure: None }
    } else {
        match statement_at(tokens, i) {
            Err(e) => RunModel { variables, printed, failure: Some(e) },
            Ok(statement) => match statement.effect {
                Effect::Nothing => execute(tokens, statement.end, variables, printed),
                Effect::Bind { name, value } => execute(
                    tokens,
                    statement.end,
                    variables.insert(name, value),
                    printed,
                ),
                Effect::Print { value } => execute(
                    tokens,
                    statement.end,
                    variables,
                    printed.push(value),
                ),
            },
        }
    }
}

} // verus!
