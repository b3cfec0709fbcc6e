use vstd::prelude::*;
use crate::object::{Error, ObjectType};
use crate::token::{Position, TokenType};

verus! {

/// Why evaluation stopped.
#[derive(Clone, Debug, PartialEq)]
pub enum EvaluatorError {
    ObjectNotFound { name: String },
    InvalidExpression { expected: String },
    InvalidType { expected: Vec<ObjectType>, found: ObjectType },
    /// An operator refused its operands.
    Operation { error: Error },
    /// The step budget given to the evaluator ran out.
    StepLimit,
}

/// Why parsing stopped.
#[derive(Clone, Debug, PartialEq)]
pub enum ParserError {
    UnexpectedToken { found: TokenType, pos: Position },
    InvalidToken { expected: Vec<TokenType>, found: TokenType, pos: Position },
    InvalidStatement,
    OutOfBounds { index: String },
}

/// Why lexing stopped.
#[derive(Clone, Debug, PartialEq)]
pub enum LexerError {
    OutOfBounds { index: String },
    InvalidCharacter { character: char, pos: Position },
}

} // verus!
