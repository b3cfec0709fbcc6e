use vstd::prelude::*;
use crate::token::{Token, TokenType};

verus! {

#[derive(Clone, Debug, PartialEq)]
pub struct StringLiteral(pub String);

#[derive(Clone, Debug, PartialEq)]
pub struct IntegerLiteral(pub i32);

/// A float literal, held as the bit pattern of its single-precision value.
#[derive(Clone, Debug, PartialEq)]
pub struct FloatLiteral(pub u32);

#[derive(Clone, Debug, PartialEq)]
pub struct BooleanLiteral(pub bool);

#[derive(Debug, PartialEq)]
pub struct ListLiteral(pub Vec<Expression>);

#[derive(Debug, PartialEq)]
pub enum Literal {
    String(StringLiteral),
    Integer(IntegerLiteral),
    Float(FloatLiteral),
    Boolean(BooleanLiteral),
    List(ListLiteral),
    Null,
}

#[derive(Clone, Copy, Debug, PartialEq, Eq, Structural)]
pub enum ArithmeticOperator {
    Plus,
    Minus,
    Divide,
    Multiply,
    Modulo,
    Power,
}

#[derive(Clone, Copy, Debug, PartialEq, Eq, Structural)]
pub enum AssignmentOperator {
    PlusAssign,
    MinusAssign,
    DivideAssign,
    MultiplyAssign,
    ModuloAssign,
    PowerAssign,
    Assign,
}

#[derive(Clone, Copy, Debug, PartialEq, Eq, Structural)]
pub enum LogicalOperator {
    Or,
    And,
    Not,
    Equal,
    NotEqual,
    LesserThan,
    GreaterThan,
    LesserThanEqual,
    GreaterThanEqual,
}

#[derive(Clone, Copy, Debug, PartialEq, Eq, Structural)]
pub enum Operator {
    Assignment(AssignmentOperator),
    Arithmetic(ArithmeticOperator),
    Logical(LogicalOperator),
}

/// The arithmetic operator that a token kind stands for.
pub open spec fn arithmetic_of(t: TokenType) -> Option<ArithmeticOperator> {
    match t {
        TokenType::Plus => Some(ArithmeticOperator::Plus),
        TokenType::Minus => Some(ArithmeticOperator::Minus),
        TokenType::Divide => Some(ArithmeticOperator::Divide),
        TokenType::Multiply => Some(ArithmeticOperator::Multiply),
        TokenType::Modulo => Some(ArithmeticOperator::Modulo),
        TokenType::Power => Some(ArithmeticOperator::Power),
        _ => None,
    }
}

/// The arithmetic operator that a compound assignment applies.
pub open spec fn compound_arithmetic(op: AssignmentOperator) -> Option<ArithmeticOperator> {
    match op {
        AssignmentOperator::PlusAssign => Some(ArithmeticOperator::Plus),
        AssignmentOperator::MinusAssign => Some(ArithmeticOperator::Minus),
        AssignmentOperator::DivideAssign => Some(ArithmeticOperator::Divide),
        AssignmentOperator::MultiplyAssign => Some(ArithmeticOperator::Multiply),
        AssignmentOperator::ModuloAssign => Some(ArithmeticOperator::Modulo),
        AssignmentOperator::PowerAssign => Some(ArithmeticOperator::Power),
        AssignmentOperator::Assign => None,
    }
}

/// The assignment operator that a token kind stands for.
pub open spec fn assignment_of(t: TokenType) -> Option<AssignmentOperator> {
    match t {
        TokenType::PlusAssign => Some(AssignmentOperator::PlusAssign),
        TokenType::MinusAssign => Some(AssignmentOperator::MinusAssign),
        TokenType::DivideAssign => Some(AssignmentOperator::DivideAssign),
        TokenType::MultiplyAssign => Some(AssignmentOperator::MultiplyAssign),
        TokenType::ModuloAssign => Some(AssignmentOperator::ModuloAssign),
        TokenType::PowerAssign => Some(AssignmentOperator::PowerAssign),
        TokenType::Assign => Some(AssignmentOperator::Assign),
        _ => None,
    }
}

/// The logical or comparison operator that a token kind stands for.
pub open spec fn logical_of(t: TokenType) -> Option<LogicalOperator> {
    match t {
        TokenType::Or => Some(LogicalOperator::Or),
        TokenType::And => Some(LogicalOperator::And),
        TokenType::Not => Some(LogicalOperator::Not),
        TokenType::Equal => Some(LogicalOperator::Equal),
        TokenType::NotEqual => Some(LogicalOperator::NotEqual),
        TokenType::LesserThan => Some(LogicalOperator::LesserThan),
        TokenType::GreaterThan => Some(LogicalOperator::GreaterThan),
        TokenType::LesserThanEqual => Some(LogicalOperator::LesserThanEqual),
        TokenType::GreaterThanEqual => Some(LogicalOperator::GreaterThanEqual),
        _ => None,
    }
}

pub fn op_token_to_arithmetic(op: &Token) -> (r: Option<ArithmeticOperator>)
    ensures
        r == arithmetic_of(op.token_type),
{
    match op.token_type {
        TokenType::Plus => Some(ArithmeticOperator::Plus),
        TokenType::Minus => Some(ArithmeticOperator::Minus),
        TokenType::Divide => Some(ArithmeticOperator::Divide),
        TokenType::Multiply => Some(ArithmeticOperator::Multiply),
        TokenType::Modulo => Some(ArithmeticOperator::Modulo),
        TokenType::Power => Some(ArithmeticOperator::Power),
        _ => None,
    }
}

pub fn assignment_to_arithmetic(op: &AssignmentOperator) -> (r: Option<ArithmeticOperator>)
    ensures
        r == compound_arithmetic(*op),
{
    match op {
        AssignmentOperator::PlusAssign => Some(ArithmeticOperator::Plus),
        AssignmentOperator::MinusAssign => Some(ArithmeticOperator::Minus),
        AssignmentOperator::DivideAssign => Some(ArithmeticOperator::Divide),
        AssignmentOperator::MultiplyAssign => Some(ArithmeticOperator::Multiply),
        AssignmentOperator::ModuloAssign => Some(ArithmeticOperator::Modulo),
        AssignmentOperator::PowerAssign => Some(ArithmeticOperator::Power),
        AssignmentOperator::Assign => None,
    }
}

pub fn op_token_to_assignment(op: &Token) -> (r: Option<AssignmentOperator>)
    ensures
        r == assignment_of(op.token_type),
{
    match op.token_type {
        TokenType::PlusAssign => Some(AssignmentOperator::PlusAssign),
        TokenType::MinusAssign => Some(AssignmentOperator::MinusAssign),
        TokenType::DivideAssign => Some(AssignmentOperator::DivideAssign),
        TokenType::MultiplyAssign => Some(AssignmentOperator::MultiplyAssign),
        TokenType::ModuloAssign => Some(AssignmentOperator::ModuloAssign),
        TokenType::PowerAssign => Some(AssignmentOperator::PowerAssign),
        TokenType::Assign => Some(AssignmentOperator::Assign),
        _ => None,
    }
}

pub fn op_token_to_logical(op: &Token) -> (r: Option<LogicalOperator>)
    ensures
        r == logical_of(op.token_type),
{
    match op.token_type {
        TokenType::Or => Some(LogicalOperator::Or),
        TokenType::And => Some(LogicalOperator::And),
        TokenType::Not => Some(LogicalOperator::Not),
        TokenType::Equal => Some(LogicalOperator::Equal),
        TokenType::NotEqual => Some(LogicalOperator::NotEqual),
        TokenType::LesserThan => Some(LogicalOperator::LesserThan),
        TokenType::GreaterThan => Some(LogicalOperator::GreaterThan),
        TokenType::LesserThanEqual => Some(LogicalOperator::LesserThanEqual),
        TokenType::GreaterThanEqual => Some(LogicalOperator::GreaterThanEqual),
        _ => None,
    }
}

#[derive(Clone, Debug, PartialEq)]
pub struct Identifier(pub String);

/// `name = <statement>`; a compound assignment is written in this same shape,
/// with an arithmetic expression on the right.
#[derive(Debug, PartialEq)]
pub struct Assignment(pub Identifier, pub Box<Node>);

#[derive(Debug, PartialEq)]
pub struct BinaryExpression(pub Box<Expression>, pub Operator, pub Box<Expression>);

#[derive(Debug, PartialEq)]
pub struct UnaryExpression(pub Operator, pub Box<Expression>);

/// A call; the name carries the reserved function prefix.
#[derive(Debug, PartialEq)]
pub struct FunctionCallExpression(pub Identifier, pub Vec<Expression>);

/// A function declaration; the name carries the reserved function prefix.
#[derive(Debug, PartialEq)]
pub struct FunctionDeclareExpression(pub Identifier, pub Vec<Identifier>, pub Box<BlockStatement>);

#[derive(Debug, PartialEq)]
pub enum Expression {
    AssignmentExpr(Assignment),
    LiteralExpr(Literal),
    IdentifierExpr(Identifier),
    BinaryExpr(BinaryExpression),
    UnaryExpr(UnaryExpression),
    GroupExpr(Box<Expression>),
    BlockExpr(BlockStatement),
    FunctionCallExpr(FunctionCallExpression),
    FunctionDeclareExpr(FunctionDeclareExpression),
}

#[derive(Debug, PartialEq)]
pub struct BlockStatement(pub Vec<Node>);

#[derive(Debug, PartialEq)]
pub struct EmptyStatement();

#[derive(Debug, PartialEq)]
pub struct ContinueStatement();

#[derive(Debug, PartialEq)]
pub struct BreakStatement();

#[derive(Debug, PartialEq)]
pub struct ExpressionStatement(pub Expression);

#[derive(Debug, PartialEq)]
pub struct ReturnStatement(pub Option<Expression>);

#[derive(Debug, PartialEq)]
pub struct IfStatement(pub Expression, pub Box<BlockStatement>, pub Option<Box<Node>>);

#[derive(Debug, PartialEq)]
pub struct ElseStatement(pub Box<BlockStatement>);

#[derive(Debug, PartialEq)]
pub struct WhileStatement(pub Expression, pub Box<BlockStatement>);

/// `for (init; condition; step) body`.
#[derive(Debug, PartialEq)]
pub struct ForStatement(pub Expression, pub Expression, pub Expression, pub Box<BlockStatement>);

#[derive(Debug, PartialEq)]
pub enum Node {
    Program(Vec<Node>),
    BlockStatement(BlockStatement),
    ExpressionStatement(ExpressionStatement),
    EmptyStatement(EmptyStatement),
    ReturnStatement(ReturnStatement),
    ContinueStatement(ContinueStatement),
    BreakStatement(BreakStatement),
    IfStatement(IfStatement),
    ElseStatement(ElseStatement),
    WhileStatement(WhileStatement),
    ForStatement(ForStatement),
}

} // verus!
