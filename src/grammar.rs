//! What the parser builds from a token stream, as spec functions: one per
//! rule of the grammar, from a token index to the tree read there and the
//! index after it, or the error.
//!
//! Tests such as `p < q <= ts.len()` before a recursive step keep each
//! definition well founded; every rule that succeeds reads at least one
//! token, so the parser never takes the other branch.

use vstd::prelude::*;
use crate::ast::{ArithmeticOperator, LogicalOperator, Operator};
use crate::errors::ParserError;
use crate::object::FUNCTION_PREFIX;
use crate::syntax::{SExpr, SLit, SNode};
use crate::token::{Position, Token, TokenLiteral, TokenType};
use crate::text::nat_text;

verus! {

/// A parse error as the grammar tells errors apart.
pub enum PErr {
    /// A token other than those expected, as `InvalidToken` reports it.
    Invalid(Seq<TokenType>, TokenType, Position),
    Unexpected(TokenType, Position),
    /// Reading past the tokens, at the index given in decimal.
    Beyond(Seq<char>),
    Statement,
}

pub open spec fn perr_of(e: ParserError) -> PErr {
    match e {
        ParserError::UnexpectedToken { found, pos } => PErr::Unexpected(found, pos),
        ParserError::InvalidToken { expected, found, pos } => PErr::Invalid(expected@, found, pos),
        ParserError::InvalidStatement => PErr::Statement,
        ParserError::OutOfBounds { index } => PErr::Beyond(index@),
    }
}

/// The error for the token at `p` where one of `expected` was wanted, or
/// for running past the tokens.
pub open spec fn err_at(ts: Seq<Token>, p: int, expected: Seq<TokenType>) -> PErr {
    if 0 <= p < ts.len() {
        PErr::Invalid(expected, ts[p].token_type, ts[p].start)
    } else {
        PErr::Beyond(nat_text(p as nat))
    }
}

pub open spec fn at_end(ts: Seq<Token>, p: int) -> bool {
    p < 0 || p >= ts.len() || ts[p].token_type == TokenType::EndOfFile
}

pub open spec fn check(ts: Seq<Token>, p: int, t: TokenType) -> bool {
    !at_end(ts, p) && ts[p].token_type == t
}

pub open spec fn consume(ts: Seq<Token>, p: int, t: TokenType) -> Result<int, PErr> {
    if check(ts, p, t) {
        Ok(p + 1)
    } else {
        Err(err_at(ts, p, seq![t]))
    }
}

pub open spec fn symbol_name(ts: Seq<Token>, p: int) -> Result<Seq<char>, PErr> {
    match ts[p].value {
        Some(TokenLiteral::String(n)) => Ok(n@),
        _ => Err(err_at(ts, p, seq![TokenType::Symbol])),
    }
}

pub open spec fn ok_range(ts: Seq<Token>, p: int) -> bool {
    0 <= p <= ts.len()
}

/// A whole program: statements up to the end of file.
pub open spec fn g_statements(ts: Seq<Token>, p: int, acc: Seq<SNode>) -> Result<(Seq<SNode>, int), PErr>
    decreases ts.len() - p,
{
    if !ok_range(ts, p) || at_end(ts, p) {
        Ok((acc, p))
    } else {
        match g_declaration(ts, p) {
            Err(e) => Err(e),
            Ok((s, q)) => if p < q <= ts.len() {
                g_statements(ts, q, acc.push(s))
            } else {
                Ok((acc, p))
            },
        }
    }
}

/// `name = ...` (a variable or function declaration), or another statement.
pub open spec fn g_declaration(ts: Seq<Token>, p: int) -> Result<(SNode, int), PErr>
    decreases ts.len() - p, 56int,
{
    if !ok_range(ts, p) {
        Err(PErr::Beyond(Seq::empty()))
    } else if check(ts, p, TokenType::Symbol) && p + 1 >= ts.len() {
        Err(PErr::Beyond(nat_text((p + 1) as nat)))
    } else if check(ts, p, TokenType::Symbol) && ts[p + 1].token_type == TokenType::Assign {
        g_var_declaration(ts, p)
    } else {
        g_statement(ts, p)
    }
}

/// `name = (params) { body }` declares a function; otherwise `name =`
/// followed by a statement assigns its value.
pub open spec fn g_var_declaration(ts: Seq<Token>, p: int) -> Result<(SNode, int), PErr>
    decreases ts.len() - p, 55int,
{
    if !ok_range(ts, p) {
        Err(PErr::Beyond(Seq::empty()))
    } else {
        match consume(ts, p, TokenType::Symbol) {
            Err(e) => Err(e),
            Ok(p1) => match symbol_name(ts, p) {
                Err(e) => Err(e),
                Ok(name) => match consume(ts, p1, TokenType::Assign) {
                    Err(e) => Err(e),
                    Ok(p2) => {
                        let declared = if check(ts, p2, TokenType::LeftParen) {
                            match g_parameters(ts, p2 + 1, Seq::empty()) {
                                Ok((params, q)) => if check(ts, q, TokenType::LeftBrace) && p2 < q {
                                    Some(g_func_declaration(ts, name, params, q))
                                } else {
                                    None
                                },
                                Err(_) => None,
                            }
                        } else {
                            None
                        };
                        match declared {
                            Some(r) => r,
                            None => match g_statement(ts, p2) {
                                Err(e) => Err(e),
                                Ok((init, q)) => Ok((SNode::Expr(SExpr::Assign(name, Box::new(init))), q)),
                            },
                        }
                    },
                },
            },
        }
    }
}

/// The parameter names of a declaration, up to and including `)`.
pub open spec fn g_parameters(ts: Seq<Token>, p: int, acc: Seq<Seq<char>>) -> Result<(Seq<Seq<char>>, int), PErr>
    decreases ts.len() - p,
{
    if !ok_range(ts, p) {
        Err(PErr::Beyond(Seq::empty()))
    } else if check(ts, p, TokenType::RightParen) {
        Ok((acc, p + 1))
    } else {
        match consume(ts, p, TokenType::Symbol) {
            Err(e) => Err(e),
            Ok(q) => match symbol_name(ts, p) {
                Err(e) => Err(e),
                Ok(name) => if check(ts, q, TokenType::Comma) {
                    g_parameters(ts, q + 1, acc.push(name))
                } else if check(ts, q, TokenType::RightParen) {
                    Ok((acc.push(name), q + 1))
                } else {
                    g_parameters(ts, q, acc.push(name))
                },
            },
        }
    }
}

pub open spec fn g_func_declaration(ts: Seq<Token>, name: Seq<char>, params: Seq<Seq<char>>, p: int) -> Result<(SNode, int), PErr>
    decreases ts.len() - p, 50int,
{
    match g_block(ts, p) {
        Err(e) => Err(e),
        Ok((body, q)) => Ok((SNode::Expr(SExpr::Declare(FUNCTION_PREFIX@ + name, params, body)), q)),
    }
}

/// `{ statements }`, with an optional statement end after it.
pub open spec fn g_block(ts: Seq<Token>, p: int) -> Result<(Seq<SNode>, int), PErr>
    decreases ts.len() - p, 24int,
{
    if !ok_range(ts, p) {
        Err(PErr::Beyond(Seq::empty()))
    } else {
        match consume(ts, p, TokenType::LeftBrace) {
            Err(e) => Err(e),
            Ok(q) => g_block_items(ts, q, Seq::empty()),
        }
    }
}

pub open spec fn g_block_items(ts: Seq<Token>, p: int, acc: Seq<SNode>) -> Result<(Seq<SNode>, int), PErr>
    decreases ts.len() - p, 60int,
{
    if !ok_range(ts, p) {
        Err(PErr::Beyond(Seq::empty()))
    } else if at_end(ts, p) || check(ts, p, TokenType::RightBrace) {
        match consume(ts, p, TokenType::RightBrace) {
            Err(e) => Err(e),
            Ok(q) => Ok((acc, if check(ts, q, TokenType::EndOfLine) { q + 1 } else { q })),
        }
    } else {
        match g_declaration(ts, p) {
            Err(e) => Err(e),
            Ok((s, q)) => if p < q <= ts.len() {
                g_block_items(ts, q, acc.push(s))
            } else {
                Err(PErr::Beyond(Seq::empty()))
            },
        }
    }
}

pub open spec fn g_statement(ts: Seq<Token>, p: int) -> Result<(SNode, int), PErr>
    decreases ts.len() - p, 54int,
{
    if !ok_range(ts, p) {
        Err(PErr::Beyond(Seq::empty()))
    } else if check(ts, p, TokenType::EndOfLine) {
        Ok((SNode::Empty, p + 1))
    } else if check(ts, p, TokenType::If) {
        g_if(ts, p + 1)
    } else if check(ts, p, TokenType::While) {
        g_while(ts, p + 1)
    } else if check(ts, p, TokenType::For) {
        g_for(ts, p + 1)
    } else if check(ts, p, TokenType::Break) {
        Ok((SNode::Break, p + 1))
    } else if check(ts, p, TokenType::Continue) {
        Ok((SNode::Continue, p + 1))
    } else if check(ts, p, TokenType::Return) {
        g_return(ts, p + 1)
    } else {
        match g_expression_statement(ts, p) {
            Err(e) => Err(e),
            Ok((e, q)) => Ok((SNode::Expr(e), q)),
        }
    }
}

pub open spec fn g_else(ts: Seq<Token>, p: int) -> Result<(SNode, int), PErr>
    decreases ts.len() - p, 51int,
{
    match g_block(ts, p) {
        Err(e) => Err(e),
        Ok((body, q)) => Ok((SNode::Else(body), q)),
    }
}

/// `if cond { ... }` with an optional `elif` chain or `else`.
pub open spec fn g_if(ts: Seq<Token>, p: int) -> Result<(SNode, int), PErr>
    decreases ts.len() - p, 52int,
{
    match g_expression(ts, p) {
        Err(e) => Err(e),
        Ok((c, p1)) => if !(p < p1 <= ts.len()) {
            Err(PErr::Beyond(Seq::empty()))
        } else {
            match g_block(ts, p1) {
                Err(e) => Err(e),
                Ok((body, p2)) => if !(p1 < p2 <= ts.len()) {
                    Err(PErr::Beyond(Seq::empty()))
                } else if check(ts, p2, TokenType::ElIf) {
                    match g_if(ts, p2 + 1) {
                        Err(e) => Err(e),
                        Ok((b, q)) => Ok((SNode::If(c, body, Some(Box::new(b))), q)),
                    }
                } else if check(ts, p2, TokenType::Else) {
                    match g_else(ts, p2 + 1) {
                        Err(e) => Err(e),
                        Ok((b, q)) => Ok((SNode::If(c, body, Some(Box::new(b))), q)),
                    }
                } else {
                    Ok((SNode::If(c, body, None), p2))
                },
            }
        },
    }
}

pub open spec fn g_while(ts: Seq<Token>, p: int) -> Result<(SNode, int), PErr>
    decreases ts.len() - p, 52int,
{
    match g_expression(ts, p) {
        Err(e) => Err(e),
        Ok((c, p1)) => if !(p < p1 <= ts.len()) {
            Err(PErr::Beyond(Seq::empty()))
        } else {
            match g_block(ts, p1) {
                Err(e) => Err(e),
                Ok((body, q)) => Ok((SNode::While(c, body), q)),
            }
        },
    }
}

/// `for (name = init; cond; step) { ... }`; the parentheses may be left out.
pub open spec fn g_for(ts: Seq<Token>, p: int) -> Result<(SNode, int), PErr>
    decreases ts.len() - p, 57int,
{
    if !ok_range(ts, p) {
        Err(PErr::Beyond(Seq::empty()))
    } else {
        let p0 = if check(ts, p, TokenType::LeftParen) { p + 1 } else { p };
        match g_var_declaration(ts, p0) {
            Err(e) => Err(e),
            Ok((variable, p1)) => if !(p0 < p1 <= ts.len()) {
                Err(PErr::Beyond(Seq::empty()))
            } else {
                match g_or(ts, p1) {
                    Err(e) => Err(e),
                    Ok((condition, p2)) => match consume(ts, p2, TokenType::EndOfLine) {
                        Err(e) => Err(e),
                        Ok(p3) => if !(p1 < p3 <= ts.len()) {
                            Err(PErr::Beyond(Seq::empty()))
                        } else {
                            match g_for_step(ts, p3) {
                                Err(e) => Err(e),
                                Ok((step, p4)) => {
                                    let p5 = if check(ts, p4, TokenType::RightParen) { p4 + 1 } else { p4 };
                                    if !(p3 < p5 <= ts.len()) {
                                        Err(PErr::Beyond(Seq::empty()))
                                    } else {
                                        match g_block(ts, p5) {
                                            Err(e) => Err(e),
                                            Ok((body, q)) => match variable {
                                                SNode::Expr(v) => Ok((SNode::For(v, condition, step, body), q)),
                                                _ => Err(PErr::Statement),
                                            },
                                        }
                                    }
                                },
                            }
                        },
                    },
                }
            },
        }
    }
}

/// The step of a `for` loop: `name = expression`, or an assignment expression.
pub open spec fn g_for_step(ts: Seq<Token>, p: int) -> Result<(SExpr, int), PErr>
    decreases ts.len() - p, 47int,
{
    if !ok_range(ts, p) {
        Err(PErr::Beyond(Seq::empty()))
    } else if check(ts, p, TokenType::Symbol) && p + 1 < ts.len() && ts[p + 1].token_type == TokenType::Assign {
        match symbol_name(ts, p) {
            Err(e) => Err(e),
            Ok(name) => match g_expression(ts, p + 2) {
                Err(e) => Err(e),
                Ok((v, q)) => Ok((SExpr::Assign(name, Box::new(SNode::Expr(v))), q)),
            },
        }
    } else {
        g_assignment(ts, p)
    }
}

/// A statement end, or a closing brace or the end of input left in place.
pub open spec fn g_end_statement(ts: Seq<Token>, p: int) -> Result<int, PErr> {
    if check(ts, p, TokenType::EndOfLine) {
        Ok(p + 1)
    } else if at_end(ts, p) || check(ts, p, TokenType::RightBrace) {
        Ok(p)
    } else {
        Err(err_at(ts, p, seq![TokenType::EndOfLine]))
    }
}

pub open spec fn g_return(ts: Seq<Token>, p: int) -> Result<(SNode, int), PErr>
    decreases ts.len() - p, 52int,
{
    if !ok_range(ts, p) {
        Err(PErr::Beyond(Seq::empty()))
    } else if check(ts, p, TokenType::EndOfLine) {
        Ok((SNode::Return(None), p + 1))
    } else if at_end(ts, p) || check(ts, p, TokenType::RightBrace) {
        Err(err_at(ts, p, seq![TokenType::EndOfLine]))
    } else {
        match g_expression(ts, p) {
            Err(e) => Err(e),
            Ok((v, q)) => match g_end_statement(ts, q) {
                Err(e) => Err(e),
                Ok(q2) => Ok((SNode::Return(Some(v)), q2)),
            },
        }
    }
}

pub open spec fn g_expression_statement(ts: Seq<Token>, p: int) -> Result<(SExpr, int), PErr>
    decreases ts.len() - p, 53int,
{
    match g_expression(ts, p) {
        Err(e) => Err(e),
        Ok((e, q)) => if 0 < q <= ts.len() && ts[q - 1].token_type != TokenType::RightBrace
            && ts[q - 1].token_type != TokenType::EndOfLine {
            match g_end_statement(ts, q) {
                Err(x) => Err(x),
                Ok(q2) => Ok((e, q2)),
            }
        } else {
            Ok((e, q))
        },
    }
}

pub open spec fn g_expression(ts: Seq<Token>, p: int) -> Result<(SExpr, int), PErr>
    decreases ts.len() - p, 46int,
{
    g_assignment(ts, p)
}

/// The arithmetic operator of a compound assignment token at `p`.
pub open spec fn compound_at(ts: Seq<Token>, p: int) -> Option<ArithmeticOperator> {
    if check(ts, p, TokenType::PlusAssign) {
        Some(ArithmeticOperator::Plus)
    } else if check(ts, p, TokenType::MinusAssign) {
        Some(ArithmeticOperator::Minus)
    } else if check(ts, p, TokenType::MultiplyAssign) {
        Some(ArithmeticOperator::Multiply)
    } else if check(ts, p, TokenType::DivideAssign) {
        Some(ArithmeticOperator::Divide)
    } else if check(ts, p, TokenType::ModuloAssign) {
        Some(ArithmeticOperator::Modulo)
    } else {
        None
    }
}

/// `x op= e` reads as `x = x op e`.
pub open spec fn g_assignment(ts: Seq<Token>, p: int) -> Result<(SExpr, int), PErr>
    decreases ts.len() - p, 45int,
{
    match g_or(ts, p) {
        Err(e) => Err(e),
        Ok((e, p1)) => match compound_at(ts, p1) {
            None => Ok((e, p1)),
            Some(op) => if !(p < p1 + 1 <= ts.len()) {
                Err(PErr::Beyond(Seq::empty()))
            } else {
                match g_assignment(ts, p1 + 1) {
                    Err(x) => Err(x),
                    Ok((v, q)) => match e {
                        SExpr::Ident(name) => Ok((
                            SExpr::Assign(name, Box::new(SNode::Expr(SExpr::Binary(
                                Box::new(SExpr::Ident(name)),
                                Operator::Arithmetic(op),
                                Box::new(v),
                            )))),
                            q,
                        )),
                        other => Ok((other, q)),
                    },
                }
            },
        },
    }
}

/// The operator of one level of binary precedence at `p`, from lowest (0:
/// `||`) to highest (5: `* / %`).
pub open spec fn level_op(ts: Seq<Token>, p: int, level: int) -> Option<Operator> {
    if level == 0 {
        if check(ts, p, TokenType::Or) { Some(Operator::Logical(LogicalOperator::Or)) } else { None }
    } else if level == 1 {
        if check(ts, p, TokenType::And) { Some(Operator::Logical(LogicalOperator::And)) } else { None }
    } else if level == 2 {
        if check(ts, p, TokenType::Equal) {
            Some(Operator::Logical(LogicalOperator::Equal))
        } else if check(ts, p, TokenType::NotEqual) {
            Some(Operator::Logical(LogicalOperator::NotEqual))
        } else {
            None
        }
    } else if level == 3 {
        if check(ts, p, TokenType::LesserThan) {
            Some(Operator::Logical(LogicalOperator::LesserThan))
        } else if check(ts, p, TokenType::GreaterThan) {
            Some(Operator::Logical(LogicalOperator::GreaterThan))
        } else if check(ts, p, TokenType::LesserThanEqual) {
            Some(Operator::Logical(LogicalOperator::LesserThanEqual))
        } else if check(ts, p, TokenType::GreaterThanEqual) {
            Some(Operator::Logical(LogicalOperator::GreaterThanEqual))
        } else {
            None
        }
    } else if level == 4 {
        if check(ts, p, TokenType::Minus) {
            Some(Operator::Arithmetic(ArithmeticOperator::Minus))
        } else if check(ts, p, TokenType::Plus) {
            Some(Operator::Arithmetic(ArithmeticOperator::Plus))
        } else {
            None
        }
    } else {
        if check(ts, p, TokenType::Multiply) {
            Some(Operator::Arithmetic(ArithmeticOperator::Multiply))
        } else if check(ts, p, TokenType::Divide) {
            Some(Operator::Arithmetic(ArithmeticOperator::Divide))
        } else if check(ts, p, TokenType::Modulo) {
            Some(Operator::Arithmetic(ArithmeticOperator::Modulo))
        } else {
            None
        }
    }
}

/// One level of left-associative binary operators: operands of the next
/// level, joined left to right.
pub open spec fn g_level(ts: Seq<Token>, p: int, level: int) -> Result<(SExpr, int), PErr>
    decreases ts.len() - p, 40 - 2 * level,
{
    if !ok_range(ts, p) || level < 0 || level > 5 {
        Err(PErr::Beyond(Seq::empty()))
    } else {
        match g_operand(ts, p, level) {
            Err(e) => Err(e),
            Ok((e, q)) => if p < q <= ts.len() {
                g_level_rest(ts, e, q, level)
            } else {
                Err(PErr::Beyond(Seq::empty()))
            },
        }
    }
}

/// An operand of a level: the next level up, or a power expression.
pub open spec fn g_operand(ts: Seq<Token>, p: int, level: int) -> Result<(SExpr, int), PErr>
    decreases ts.len() - p, 39 - 2 * level,
{
    if 0 <= level < 5 {
        g_level(ts, p, level + 1)
    } else if level == 5 {
        g_exponent(ts, p)
    } else {
        Err(PErr::Beyond(Seq::empty()))
    }
}

pub open spec fn g_level_rest(ts: Seq<Token>, e: SExpr, p: int, level: int) -> Result<(SExpr, int), PErr>
    decreases ts.len() - p, 40 - 2 * level,
{
    if !ok_range(ts, p) || level < 0 || level > 5 {
        Ok((e, p))
    } else {
        match level_op(ts, p, level) {
            None => Ok((e, p)),
            Some(op) => if p + 1 <= ts.len() {
                match g_operand(ts, p + 1, level) {
                    Err(x) => Err(x),
                    Ok((r, q)) => if p < q <= ts.len() {
                        g_level_rest(ts, SExpr::Binary(Box::new(e), op, Box::new(r)), q, level)
                    } else {
                        Err(PErr::Beyond(Seq::empty()))
                    },
                }
            } else {
                Err(PErr::Beyond(Seq::empty()))
            },
        }
    }
}

pub open spec fn g_or(ts: Seq<Token>, p: int) -> Result<(SExpr, int), PErr>
    decreases ts.len() - p, 44int,
{
    g_level(ts, p, 0)
}

/// `a ^ b`, applied once.
pub open spec fn g_exponent(ts: Seq<Token>, p: int) -> Result<(SExpr, int), PErr>
    decreases ts.len() - p, 28int,
{
    match g_unary(ts, p) {
        Err(e) => Err(e),
        Ok((e, q)) => if check(ts, q, TokenType::Power) && p < q + 1 <= ts.len() {
            match g_unary(ts, q + 1) {
                Err(x) => Err(x),
                Ok((r, q2)) => Ok((
                    SExpr::Binary(Box::new(e), Operator::Arithmetic(ArithmeticOperator::Power), Box::new(r)),
                    q2,
                )),
            }
        } else {
            Ok((e, q))
        },
    }
}

pub open spec fn g_unary(ts: Seq<Token>, p: int) -> Result<(SExpr, int), PErr>
    decreases ts.len() - p, 27int,
{
    if !ok_range(ts, p) {
        Err(PErr::Beyond(Seq::empty()))
    } else if check(ts, p, TokenType::Minus) || check(ts, p, TokenType::Not) {
        let op = if check(ts, p, TokenType::Minus) {
            Operator::Arithmetic(ArithmeticOperator::Minus)
        } else {
            Operator::Logical(LogicalOperator::Not)
        };
        match g_unary(ts, p + 1) {
            Err(e) => Err(e),
            Ok((r, q)) => Ok((SExpr::Unary(op, Box::new(r)), q)),
        }
    } else {
        g_call(ts, p)
    }
}

pub open spec fn g_call(ts: Seq<Token>, p: int) -> Result<(SExpr, int), PErr>
    decreases ts.len() - p, 26int,
{
    if check(ts, p, TokenType::Symbol) && check(ts, p + 1, TokenType::LeftParen) {
        match ts[p].value {
            Some(TokenLiteral::String(n)) => g_call_args(ts, FUNCTION_PREFIX@ + n@, p + 2, Seq::empty()),
            _ => Err(err_at(ts, p, seq![TokenType::String])),
        }
    } else {
        g_primary(ts, p)
    }
}

/// The arguments of a call, up to and including `)`.
pub open spec fn g_call_args(ts: Seq<Token>, name: Seq<char>, p: int, acc: Seq<SExpr>) -> Result<(SExpr, int), PErr>
    decreases ts.len() - p, 48int,
{
    if !ok_range(ts, p) {
        Err(PErr::Beyond(Seq::empty()))
    } else if check(ts, p, TokenType::RightParen) {
        Ok((SExpr::Call(name, acc), p + 1))
    } else {
        match g_expression(ts, p) {
            Err(e) => Err(e),
            Ok((a, q)) => if !(p < q <= ts.len()) {
                Err(PErr::Beyond(Seq::empty()))
            } else if check(ts, q, TokenType::Comma) {
                g_call_args(ts, name, q + 1, acc.push(a))
            } else {
                match consume(ts, q, TokenType::RightParen) {
                    Err(e) => Err(e),
                    Ok(q2) => Ok((SExpr::Call(name, acc.push(a)), q2)),
                }
            },
        }
    }
}

/// A literal, a name, `( expression )` or a block.
pub open spec fn g_primary(ts: Seq<Token>, p: int) -> Result<(SExpr, int), PErr>
    decreases ts.len() - p, 25int,
{
    if !(0 <= p < ts.len()) {
        Err(PErr::Beyond(nat_text(p as nat)))
    } else {
        let t = ts[p];
        if t.token_type == TokenType::LeftBrace {
            match g_block(ts, p) {
                Err(e) => Err(e),
                Ok((b, q)) => Ok((SExpr::Block(b), q)),
            }
        } else if t.token_type == TokenType::LeftParen {
            match g_expression(ts, p + 1) {
                Err(e) => Err(e),
                Ok((e, q)) => match consume(ts, q, TokenType::RightParen) {
                    Err(x) => Err(x),
                    Ok(q2) => Ok((SExpr::Group(Box::new(e)), q2)),
                },
            }
        } else {
            match (t.token_type, t.value) {
                (TokenType::Null, _) => Ok((SExpr::Lit(SLit::Null), p + 1)),
                (TokenType::Integer, Some(TokenLiteral::Integer(v))) => Ok((SExpr::Lit(SLit::Int(v)), p + 1)),
                (TokenType::Float, Some(TokenLiteral::Float(v))) => Ok((SExpr::Lit(SLit::Float(v)), p + 1)),
                (TokenType::Boolean, Some(TokenLiteral::Boolean(v))) => Ok((SExpr::Lit(SLit::Bool(v)), p + 1)),
                (TokenType::String, Some(TokenLiteral::String(v))) => Ok((SExpr::Lit(SLit::Str(v@)), p + 1)),
                (TokenType::Symbol, Some(TokenLiteral::String(v))) => Ok((SExpr::Ident(v@), p + 1)),
                _ => Err(err_at(ts, p, primary_kinds())),
            }
        }
    }
}

/// What a primary expression may start with.
pub open spec fn primary_kinds() -> Seq<TokenType> {
    seq![
        TokenType::Integer,
        TokenType::Float,
        TokenType::Boolean,
        TokenType::String,
        TokenType::Symbol,
        TokenType::LeftParen,
    ]
}

} // verus!
