//! A tree-walking interpreter for a small dynamically typed scripting language:
//! a position-tracking lexer, a recursive-descent parser and an evaluator over a
//! stack-shaped environment.
//!
//! Each stage is proved against a statement of what it computes:
//! - `lexer::Lexer::tokenize` against `lexer::lex`, a function from characters
//!   to tokens;
//! - `parser::Parser::parse` against the grammar in `grammar`, over the plain
//!   syntax tree of `syntax`;
//! - `evaluator::Evaluator::eval` against the semantics in `semantics`, which
//!   reads each float result from the answers the host's float arithmetic
//!   gave, in the order they were asked for;
//! - `interpreter::interpret` against the three in turn.
//!
//! Float arithmetic is supplied by the host through `object::FloatArith`, and
//! output and pauses are handed back to the host as `evaluator::HostAction`s.

pub mod text;
pub mod token;
pub mod ast;
pub mod object;
pub mod environment;
pub mod errors;
pub mod lexer;
pub mod syntax;
pub mod grammar;
pub mod parser;
pub mod semantics;
pub mod evaluator;
pub mod interpreter;
