use std::cmp::Ordering;

use another_interpreted_language::ast::{
    op_token_to_arithmetic, op_token_to_assignment, op_token_to_logical, ArithmeticOperator,
    Assignment, AssignmentOperator, BinaryExpression, BlockStatement, Expression, ExpressionStatement,
    FunctionCallExpression, FunctionDeclareExpression, Identifier, IntegerLiteral, Literal,
    LogicalOperator, Node, Operator,
};
use another_interpreted_language::errors::ParserError;
use another_interpreted_language::lexer::Lexer;
use another_interpreted_language::object::FloatArith;
use another_interpreted_language::parser::Parser;
use another_interpreted_language::token::{Position, Token, TokenLiteral, TokenType};

struct HostFloat;

impl FloatArith for HostFloat {
    fn parse(text: &str) -> u32 {
        text.parse::<f32>().map(f32::to_bits).unwrap_or(0)
    }

    fn from_integer(v: i32) -> u32 {
        (v as f32).to_bits()
    }

    fn arith(_op: ArithmeticOperator, lhs: u32, _rhs: u32) -> u32 {
        lhs
    }

    fn negate(v: u32) -> u32 {
        v
    }

    fn compare(lhs: u32, rhs: u32) -> Option<Ordering> {
        f32::from_bits(lhs).partial_cmp(&f32::from_bits(rhs))
    }

    fn render(v: u32) -> String {
        f32::from_bits(v).to_string()
    }
}

fn parse(source: &str) -> Result<Node, ParserError> {
    let tokens = Lexer::from(source).tokenize::<HostFloat>().unwrap();
    let mut parser = Parser::from(&tokens);
    parser.parse()
}

fn statements(source: &str) -> Vec<Node> {
    match parse(source).unwrap() {
        Node::Program(v) => v,
        other => panic!("not a program: {:?}", other),
    }
}

fn integer(v: i32) -> Expression {
    Expression::LiteralExpr(Literal::Integer(IntegerLiteral(v)))
}

fn ident(name: &str) -> Expression {
    Expression::IdentifierExpr(Identifier(name.to_string()))
}

fn binary(l: Expression, op: Operator, r: Expression) -> Expression {
    Expression::BinaryExpr(BinaryExpression(Box::new(l), op, Box::new(r)))
}

#[test]
fn multiplication_binds_tighter_than_addition() {
    let s = statements("1 + 2 * 3");
    let expected = binary(
        integer(1),
        Operator::Arithmetic(ArithmeticOperator::Plus),
        binary(integer(2), Operator::Arithmetic(ArithmeticOperator::Multiply), integer(3)),
    );
    assert_eq!(s, vec![Node::ExpressionStatement(ExpressionStatement(expected))]);
}

#[test]
fn subtraction_associates_left() {
    let s = statements("7 - 2 - 1");
    let expected = binary(
        binary(integer(7), Operator::Arithmetic(ArithmeticOperator::Minus), integer(2)),
        Operator::Arithmetic(ArithmeticOperator::Minus),
        integer(1),
    );
    assert_eq!(s, vec![Node::ExpressionStatement(ExpressionStatement(expected))]);
}

#[test]
fn compound_assignment_reads_as_plain_assignment() {
    let s = statements("x += 2");
    let rhs = binary(ident("x"), Operator::Arithmetic(ArithmeticOperator::Plus), integer(2));
    let expected = Expression::AssignmentExpr(Assignment(
        Identifier("x".to_string()),
        Box::new(Node::ExpressionStatement(ExpressionStatement(rhs))),
    ));
    assert_eq!(s, vec![Node::ExpressionStatement(ExpressionStatement(expected))]);
}

#[test]
fn declaration_and_call_use_the_reserved_prefix() {
    let s = statements("f = (a) { a }\nf(1)");
    let body = BlockStatement(vec![Node::ExpressionStatement(ExpressionStatement(ident("a")))]);
    let declare = Expression::FunctionDeclareExpr(FunctionDeclareExpression(
        Identifier("__fc_f".to_string()),
        vec![Identifier("a".to_string())],
        Box::new(body),
    ));
    let call = Expression::FunctionCallExpr(FunctionCallExpression(Identifier("__fc_f".to_string()), vec![integer(1)]));
    assert_eq!(
        s,
        vec![
            Node::ExpressionStatement(ExpressionStatement(declare)),
            Node::ExpressionStatement(ExpressionStatement(call)),
        ]
    );
}

#[test]
fn parenthesised_value_is_not_a_declaration() {
    let s = statements("x = (1)");
    let expected = Expression::AssignmentExpr(Assignment(
        Identifier("x".to_string()),
        Box::new(Node::ExpressionStatement(ExpressionStatement(Expression::GroupExpr(Box::new(integer(1)))))),
    ));
    assert_eq!(s, vec![Node::ExpressionStatement(ExpressionStatement(expected))]);
}

#[test]
fn logical_precedence() {
    let s = statements("a || b && c == d");
    let expected = binary(
        ident("a"),
        Operator::Logical(LogicalOperator::Or),
        binary(
            ident("b"),
            Operator::Logical(LogicalOperator::And),
            binary(ident("c"), Operator::Logical(LogicalOperator::Equal), ident("d")),
        ),
    );
    assert_eq!(s, vec![Node::ExpressionStatement(ExpressionStatement(expected))]);
}

#[test]
fn missing_statement_end_is_an_error() {
    assert_eq!(
        parse("1 2"),
        Err(ParserError::InvalidToken {
            expected: vec![TokenType::EndOfLine],
            found: TokenType::Integer,
            pos: Position { line: 1, col: 2 },
        })
    );
}

#[test]
fn for_needs_an_assignment_first() {
    assert!(parse("for (1; i < 2; i = i + 1) { }").is_err());
}

#[test]
fn operator_tokens_map_to_operators() {
    assert_eq!(op_token_to_arithmetic(&Token::from(TokenType::Power)), Some(ArithmeticOperator::Power));
    assert_eq!(op_token_to_arithmetic(&Token::from(TokenType::Comma)), None);
    assert_eq!(op_token_to_assignment(&Token::from(TokenType::ModuloAssign)), Some(AssignmentOperator::ModuloAssign));
    assert_eq!(op_token_to_assignment(&Token::from(TokenType::Plus)), None);
    assert_eq!(op_token_to_logical(&Token::from(TokenType::GreaterThanEqual)), Some(LogicalOperator::GreaterThanEqual));
    assert_eq!(op_token_to_logical(&Token::from(TokenType::Assign)), None);
}

#[test]
fn token_builders() {
    let t = Token::from_value(TokenType::Integer, Some(TokenLiteral::Integer(4)));
    assert_eq!(t.start, Position { line: 0, col: 0 });
    assert_eq!(t.value, Some(TokenLiteral::Integer(4)));
    let u = Token::from_pos(TokenType::Comma, Position::from(2, 3), Position::from(2, 4));
    assert_eq!(u.pos_range(), (Position { line: 2, col: 3 }, Position { line: 2, col: 4 }));
    assert_eq!(u.value, None);
}
