//! A minimal statement executor over the token stream.
//!
//! The executor binds variables and collects what is to be printed; putting
//! it on the screen is left to the caller. Which statements exist and what
//! they do is stated in [`crate::statements`].

use vstd::prelude::*;
use crate::dispatch::same_text;
use crate::statements::{
    declaration_at, execute, literal_value, models_of, print_at, skip_semicolon, Effect,
};
use crate::token::Token;

verus! {

/// What a variable can hold and what can be printed.
#[derive(Debug, Clone, PartialEq, Eq)]
pub enum Value {
    Integer(i32),
    String(String),
}

/// The mathematical value of a [`Value`].
pub enum ValueModel {
    Integer(i32),
    String(Seq<char>),
}

impl View for Value {
    type V = ValueModel;

    open spec fn view(&self) -> ValueModel {
        match self {
            Value::Integer(number) => ValueModel::Integer(*number),
            Value::String(text) => ValueModel::String(text@),
        }
    }
}

/// Why a statement could not be executed.
#[derive(Debug, Clone, Copy, PartialEq, Eq, Structural)]
pub enum RuntimeError {
    /// The tokens end inside a statement.
    UnexpectedEnd,
    /// `let` is not followed by a name.
    VariableNameExpected,
    /// The name of a declaration is not followed by `=`.
    AssignExpected,
    /// A declaration assigns something other than an integer or string
    /// literal.
    ValueExpected,
    /// `println` is not followed by `(`.
    LeftParenthesisExpected,
    /// The argument of `println` is no integer or string literal.
    PrintableExpected,
    /// The argument of `println` is not followed by `)`.
    RightParenthesisExpected,
}

impl RuntimeError {
    /// A short description for diagnostics.
    pub fn message(&self) -> (text: &'static str)
        ensures
            text@ == match self {
                RuntimeError::UnexpectedEnd => "Unexpected end of statement"@,
                RuntimeError::VariableNameExpected => "Variable name expected"@,
                RuntimeError::AssignExpected => "= sign expected"@,
                RuntimeError::ValueExpected =>
                    "Only simple assignments of int or string are supported now"@,
                RuntimeError::LeftParenthesisExpected => "( sign expected"@,
                RuntimeError::PrintableExpected => "String literal expected"@,
                RuntimeError::RightParenthesisExpected => ") sign expected"@,
            },
    {
        match self {
            RuntimeError::UnexpectedEnd => "Unexpected end of statement",
            RuntimeError::VariableNameExpected => "Variable name expected",
            RuntimeError::AssignExpected => "= sign expected",
            RuntimeError::ValueExpected =>
                "Only simple assignments of int or string are supported now",
            RuntimeError::LeftParenthesisExpected => "( sign expected",
            RuntimeError::PrintableExpected => "String literal expected",
            RuntimeError::RightParenthesisExpected => ") sign expected",
        }
    }
}

/// A variable and the value that is bound to it.
#[derive(Debug, Clone, PartialEq, Eq)]
pub struct Variable {
    pub name: String,
    pub value: Value,
}

/// What a run printed, in order, and the error that stopped it, if one did.
#[derive(Debug, Clone, PartialEq, Eq)]
pub struct Execution {
    pub printed: Vec<Value>,
    pub failure: Option<RuntimeError>,
}

/// The models of a sequence of values.
pub open spec fn values_of(values: Seq<Value>) -> Seq<ValueModel> {
    values.map_values(|v: Value| v@)
}

/// The memory of the executor: every variable that has been declared, each
/// under its name once, with the value that was assigned to it last.
pub struct Runtime {
    variables: Vec<Variable>,
}

impl View for Runtime {
    type V = Map<Seq<char>, ValueModel>;

    closed spec fn view(&self) -> Map<Seq<char>, ValueModel> {
        Map::new(
            |name: Seq<char>| self.holds(name),
            |name: Seq<char>| self.variables[self.index_of(name)].value@,
        )
    }
}

impl Runtime {
    #[verifier::type_invariant]
    spec fn names_distinct(self) -> bool {
        forall|i: int, j: int|
            0 <= i < j < self.variables.len() ==> self.variables[i].name@
                != self.variables[j].name@
    }

    /// Whether the entry at `i` is that of `name`.
    spec fn is_at(&self, name: Seq<char>, i: int) -> bool {
        0 <= i < self.variables.len() && self.variables[i].name@ == name
    }

    spec fn holds(&self, name: Seq<char>) -> bool {
        exists|i: int| self.is_at(name, i)
    }

    spec fn index_of(&self, name: Seq<char>) -> int {
        choose|i: int| self.is_at(name, i)
    }

    /// A memory without variables.
    pub fn new() -> (runtime: Self)
        ensures
            runtime@ == Map::<Seq<char>, ValueModel>::empty(),
    {
        let runtime = Runtime { variables: Vec::new() };
        assert(runtime@ =~= Map::<Seq<char>, ValueModel>::empty()) by {
            assert forall|name: Seq<char>| !runtime.holds(name) by {
                assert forall|i: int| !runtime.is_at(name, i) by {}
            }
        }
        runtime
    }

    /// The variables that are bound, each of them once.
    pub fn variables(&self) -> (variables: &Vec<Variable>)
        ensures
            forall|i: int|
                0 <= i < variables.len() ==> self@.contains_key(#[trigger] variables[i].name@)
                    && self@[variables[i].name@] == variables[i].value@,
            forall|name: Seq<char>|
                self@.contains_key(name) ==> exists|i: int|
                    0 <= i < variables.len() && #[trigger] variables[i].name@ == name,
            forall|i: int, j: int|
                0 <= i < j < variables.len() ==> variables[i].name@ != variables[j].name@,
    {
        proof {
            use_type_invariant(self);
            assert forall|i: int| 0 <= i < self.variables.len() implies self@.contains_key(
                #[trigger] self.variables[i].name@,
            ) && self@[self.variables[i].name@] == self.variables[i].value@ by {
                assert(self.is_at(self.variables[i].name@, i));
            }
            assert forall|name: Seq<char>| self@.contains_key(name) implies exists|i: int|
                0 <= i < self.variables.len() && #[trigger] self.variables[i].name@ == name by {
                assert(self.is_at(name, self.index_of(name)));
            }
        }
        &self.variables
    }

    /// The value that is bound to `name`, if one is.
    pub fn get(&self, name: &str) -> (value: Option<&Value>)
        ensures
            match value {
                Some(v) => self@.contains_key(name@) && self@[name@] == v@,
                None => !self@.contains_key(name@),
            },
    {
        proof {
            use_type_invariant(self);
        }
        let mut i: usize = 0;
        while i < self.variables.len()
            invariant
                i <= self.variables.len(),
                self.names_distinct(),
                forall|k: int| 0 <= k < i ==> !self.is_at(name@, k),
            decreases self.variables.len() - i,
        {
            if same_text(self.variables[i].name.as_str(), name) {
                assert(self.is_at(name@, i as int));
                assert(self.is_at(name@, self.index_of(name@)));
                return Some(&self.variables[i].value);
            }
            i += 1;
        }
        assert forall|k: int| !self.is_at(name@, k) by {}
        None
    }

    /// Binds `name` to `value`. A value that was bound to it before is
    /// replaced; every other variable stays as it is.
    pub fn bind(&mut self, name: String, value: Value)
        ensures
            final(self)@ == old(self)@.insert(name@, value@),
    {
        proof {
            use_type_invariant(&*self);
        }
        let ghost before = *self;
        let mut variables: Vec<Variable> = Vec::new();
        std::mem::swap(&mut self.variables, &mut variables);
        let mut i: usize = 0;
        let mut found = false;
        while i < variables.len() && !found
            invariant
                variables@ == before.variables@,
                before.names_distinct(),
                i <= variables.len(),
                forall|k: int| 0 <= k < i ==> !before.is_at(name@, k),
                found ==> before.is_at(name@, i as int),
            decreases variables.len() - i + if found { 0int } else { 1int },
        {
            if same_text(variables[i].name.as_str(), name.as_str()) {
                found = true;
            } else {
                i += 1;
            }
        }
        if found {
            variables.set(i, Variable { name, value });
        } else {
            variables.push(Variable { name, value });
        }
        assert forall|j: int, k: int| 0 <= j < k < variables.len() implies variables[j].name@
            != variables[k].name@ by {
            if j != i && k != i {
                assert(before.variables[j].name@ != before.variables[k].name@);
            } else if j == i {
                assert(!found ==> k >= variables.len());
                assert(found ==> before.is_at(name@, j) && before.variables[j].name@
                    != before.variables[k].name@);
            } else {
                assert(!before.is_at(name@, j) || before.variables[j].name@
                    != before.variables[k].name@);
            }
        }
        std::mem::swap(&mut self.variables, &mut variables);
        proof {
            let after = *self;
            assert(after.is_at(name@, i as int));
            assert forall|key: Seq<char>, k: int| before.is_at(key, k) && key != name@
                implies after.is_at(key, k) by {}
            assert forall|key: Seq<char>, k: int| after.is_at(key, k) && key != name@
                implies before.is_at(key, k) by {}
            assert forall|key: Seq<char>| #[trigger]
                after.holds(key) == (before.holds(key) || key == name@) by {
                if before.holds(key) && key != name@ {
                    assert(after.is_at(key, before.index_of(key)));
                }
                if after.holds(key) && key != name@ {
                    assert(before.is_at(key, after.index_of(key)));
                }
            }
            assert forall|key: Seq<char>| after.holds(key) implies #[trigger] after@[key]
                == before@.insert(name@, value@)[key] by {
                let k = after.index_of(key);
                assert(after.is_at(key, k));
                if key != name@ {
                    assert(before.is_at(key, k));
                    assert(before.is_at(key, before.index_of(key)));
                }
            }
            assert(after@ =~= before@.insert(name@, value@));
        }
    }
}

/// The model of an optional value.
pub open spec fn value_model(value: Option<Value>) -> Option<ValueModel> {
    match value {
        Some(v) => Some(v@),
        None => None,
    }
}

/// The value of an integer or string literal; `None` for every other token.
pub fn literal_of(token: &Token) -> (value: Option<Value>)
    ensures
        value_model(value) == literal_value(token@),
{
    match token {
        Token::Integer(number) => Some(Value::Integer(*number)),
        Token::StringLiteral(text) => Some(Value::String(text.clone())),
        _ => None,
    }
}

/// The position behind a `;` at `i`, or `i` where there is none.
fn after_semicolon(ast: &Vec<Token>, i: usize) -> (end: usize)
    requires
        i <= ast.len(),
    ensures
        end == skip_semicolon(models_of(ast@), i as int),
{
    if i < ast.len() {
        match &ast[i] {
            Token::Semicolon => i + 1,
            _ => i,
        }
    } else {
        i
    }
}

/// Reads the declaration whose `let` is at `i`: the name, the value and the
/// position behind the statement.
fn declaration(ast: &Vec<Token>, i: usize) -> (result: Result<(String, Value, usize), RuntimeError>)
    requires
        i < ast.len(),
    ensures
        match declaration_at(models_of(ast@), i as int) {
            Ok(statement) => {
                &&& result matches Ok((name, value, end))
                &&& statement.effect == (Effect::Bind { name: name@, value: value@ })
                &&& statement.end == end
                &&& i < end <= ast.len()
            },
            Err(e) => result == Err::<(String, Value, usize), RuntimeError>(e),
        },
{
    if i + 1 >= ast.len() {
        return Err(RuntimeError::UnexpectedEnd);
    }
    let name = match &ast[i + 1] {
        Token::Name(name) => name.clone(),
        _ => {
            return Err(RuntimeError::VariableNameExpected);
        },
    };
    if i + 2 >= ast.len() {
        return Err(RuntimeError::UnexpectedEnd);
    }
    match &ast[i + 2] {
        Token::Assign => {},
        _ => {
            return Err(RuntimeError::AssignExpected);
        },
    }
    if i + 3 >= ast.len() {
        return Err(RuntimeError::UnexpectedEnd);
    }
    match literal_of(&ast[i + 3]) {
        Some(value) => Ok((name, value, after_semicolon(ast, i + 4))),
        None => Err(RuntimeError::ValueExpected),
    }
}

/// Reads the call whose `println` is at `i`: the value to print and the
/// position behind the statement.
fn print_call(ast: &Vec<Token>, i: usize) -> (result: Result<(Value, usize), RuntimeError>)
    requires
        i < ast.len(),
    ensures
        match print_at(models_of(ast@), i as int) {
            Ok(statement) => {
                &&& result matches Ok((value, end))
                &&& statement.effect == (Effect::Print { value: value@ })
                &&& statement.end == end
                &&& i < end <= ast.len()
            },
            Err(e) => result == Err::<(Value, usize), RuntimeError>(e),
        },
{
    if i + 1 >= ast.len() {
        return Err(RuntimeError::UnexpectedEnd);
    }
    match &ast[i + 1] {
        Token::LeftParenthesis => {},
        _ => {
            return Err(RuntimeError::LeftParenthesisExpected);
        },
    }
    if i + 2 >= ast.len() {
        return Err(RuntimeError::UnexpectedEnd);
    }
    let value = match literal_of(&ast[i + 2]) {
        Some(value) => value,
        None => {
            return Err(RuntimeError::PrintableExpected);
        },
    };
    if i + 3 >= ast.len() {
        return Err(RuntimeError::UnexpectedEnd);
    }
    match &ast[i + 3] {
        Token::RightParenthesis => {},
        _ => {
            return Err(RuntimeError::RightParenthesisExpected);
        },
    }
    Ok((value, after_semicolon(ast, i + 4)))
}

impl Runtime {
    /// Executes the statements of `ast` in order: declarations bind their
    /// variable, calls of `println` add their argument to what is printed,
    /// and tokens that begin no statement are passed over. The first
    /// statement that is cut short or out of shape stops the run and is
    /// reported; what was bound and printed before it stays.
    pub fn run(&mut self, ast: Vec<Token>) -> (execution: Execution)
        ensures
            final(self)@ == execute(
                models_of(ast@),
                0,
                old(self)@,
                Seq::<ValueModel>::empty(),
            ).variables,
            values_of(execution.printed@) == execute(
                models_of(ast@),
                0,
                old(self)@,
                Seq::<ValueModel>::empty(),
            ).printed,
            execution.failure == execute(
                models_of(ast@),
                0,
                old(self)@,
                Seq::<ValueModel>::empty(),
            ).failure,
    {
        let ghost tokens = models_of(ast@);
        let ghost whole = execute(tokens, 0, self@, Seq::<ValueModel>::empty());
        let mut printed: Vec<Value> = Vec::new();
        let mut i: usize = 0;
        assert(values_of(printed@) =~= Seq::<ValueModel>::empty());
        while i < ast.len()
            invariant
                i <= ast.len(),
                tokens == models_of(ast@),
                whole == execute(tokens, 0, old(self)@, Seq::<ValueModel>::empty()),
                whole == execute(tokens, i as int, self@, values_of(printed@)),
            decreases ast.len() - i,
        {
            let ghost shown = values_of(printed@);
            match &ast[i] {
                Token::Let => {
                    match declaration(&ast, i) {
                        Ok((name, value, end)) => {
                            self.bind(name, value);
                            i = end;
                        },
                        Err(e) => {
                            return Execution { printed, failure: Some(e) };
                        },
                    }
                },
                Token::Name(name) => {
                    if same_text(name.as_str(), "println") {
                        match print_call(&ast, i) {
                            Ok((value, end)) => {
                                printed.push(value);
                                assert(values_of(printed@) =~= shown.push(value@));
                                i = end;
                            },
                            Err(e) => {
                                return Execution { printed, failure: Some(e) };
                            },
                        }
                    } else {
                        i += 1;
                    }
                },
                _ => {
                    i += 1;
                },
            }
        }
        Execution { printed, failure: None }
    }
}

impl Default for Runtime {
    fn default() -> (runtime: Self)
        ensures
            runtime@ == Map::<Seq<char>, ValueModel>::empty(),
    {
        Runtime::new()
    }
}

} // verus!
