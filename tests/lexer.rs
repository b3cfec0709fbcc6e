use std::cmp::Ordering;

use another_interpreted_language::ast::ArithmeticOperator;
use another_interpreted_language::lexer::Lexer;
use another_interpreted_language::object::FloatArith;
use another_interpreted_language::token::{Position, Token, TokenLiteral, TokenType};

struct HostFloat;

impl FloatArith for HostFloat {
    fn parse(text: &str) -> u32 {
        text.parse::<f32>().map(f32::to_bits).unwrap_or(0)
    }

    fn from_integer(v: i32) -> u32 {
        (v as f32).to_bits()
    }

    fn arith(_op: ArithmeticOperator, lhs: u32, _rhs: u32) -> u32 {
        lhs
    }

    fn negate(v: u32) -> u32 {
        (-f32::from_bits(v)).to_bits()
    }

    fn compare(lhs: u32, rhs: u32) -> Option<Ordering> {
        f32::from_bits(lhs).partial_cmp(&f32::from_bits(rhs))
    }

    fn render(v: u32) -> String {
        f32::from_bits(v).to_string()
    }
}

fn lex(source: &str) -> Vec<Token> {
    Lexer::from(source).tokenize::<HostFloat>().unwrap()
}

fn kinds(source: &str) -> Vec<TokenType> {
    lex(source).iter().map(|t| t.token_type).collect()
}

fn before(a: &Position, b: &Position) -> bool {
    a.line < b.line || (a.line == b.line && a.col <= b.col)
}

fn check_stream(tokens: &[Token]) {
    let n = tokens.len();
    assert!(n >= 2);
    assert_eq!(tokens[n - 1].token_type, TokenType::EndOfFile);
    assert_eq!(tokens[n - 2].token_type, TokenType::EndOfLine);
    for i in 0..n {
        assert!(before(&tokens[i].start, &tokens[i].end));
        if i + 1 < n {
            assert!(before(&tokens[i].end, &tokens[i + 1].start));
            assert!(!(tokens[i].token_type == TokenType::EndOfLine && tokens[i + 1].token_type == TokenType::EndOfLine));
        }
    }
}

#[test]
fn positions_span_each_lexeme() {
    let t = lex("x = 12");
    assert_eq!(t[0].start, Position { line: 1, col: 0 });
    assert_eq!(t[0].end, Position { line: 1, col: 1 });
    assert_eq!(t[1].token_type, TokenType::Assign);
    assert_eq!(t[1].start, Position { line: 1, col: 2 });
    assert_eq!(t[2].value, Some(TokenLiteral::Integer(12)));
    assert_eq!(t[2].start, Position { line: 1, col: 4 });
    assert_eq!(t[2].end, Position { line: 1, col: 6 });
    assert_eq!(t[3].token_type, TokenType::EndOfLine);
    assert_eq!(t[4].token_type, TokenType::EndOfFile);
}

#[test]
fn newline_moves_to_the_next_line() {
    let t = lex("a\n  b");
    assert_eq!(t[2].token_type, TokenType::Symbol);
    assert_eq!(t[2].start, Position { line: 2, col: 2 });
}

#[test]
fn stream_shape_holds_for_a_script() {
    let src = "fact = (n) {\n  if n <= 1 { return 1 }\n  return n * fact(n - 1)\n}\n\n\n;fact(6) # done\n";
    check_stream(&lex(src));
    check_stream(&lex(""));
    check_stream(&lex("\n\n;;"));
    check_stream(&lex("x"));
}

#[test]
fn statement_ends_collapse() {
    assert_eq!(kinds(""), vec![TokenType::EndOfLine, TokenType::EndOfFile]);
    assert_eq!(
        kinds("\n\n;;x;;\n"),
        vec![TokenType::Symbol, TokenType::EndOfLine, TokenType::EndOfFile]
    );
}

#[test]
fn two_character_operators() {
    assert_eq!(
        kinds("a += 1 -= *= /= %= ^= == != <= >= && ||"),
        vec![
            TokenType::Symbol,
            TokenType::PlusAssign,
            TokenType::Integer,
            TokenType::MinusAssign,
            TokenType::MultiplyAssign,
            TokenType::DivideAssign,
            TokenType::ModuloAssign,
            TokenType::PowerAssign,
            TokenType::Equal,
            TokenType::NotEqual,
            TokenType::LesserThanEqual,
            TokenType::GreaterThanEqual,
            TokenType::And,
            TokenType::Or,
            TokenType::EndOfLine,
            TokenType::EndOfFile,
        ]
    );
}

#[test]
fn words_become_numbers_keywords_or_symbols() {
    let t = lex("1_000 2.5 true false null if elif else while for return break continue name");
    assert_eq!(t[0].value, Some(TokenLiteral::Integer(1000)));
    assert_eq!(t[1].token_type, TokenType::Float);
    assert_eq!(t[1].value, Some(TokenLiteral::Float(2.5f32.to_bits())));
    assert_eq!(t[2].value, Some(TokenLiteral::Boolean(true)));
    assert_eq!(t[3].value, Some(TokenLiteral::Boolean(false)));
    let k: Vec<TokenType> = t.iter().skip(4).map(|t| t.token_type).collect();
    assert_eq!(
        k,
        vec![
            TokenType::Null,
            TokenType::If,
            TokenType::ElIf,
            TokenType::Else,
            TokenType::While,
            TokenType::For,
            TokenType::Return,
            TokenType::Break,
            TokenType::Continue,
            TokenType::Symbol,
            TokenType::EndOfLine,
            TokenType::EndOfFile,
        ]
    );
    assert_eq!(t[13].value, Some(TokenLiteral::String("name".to_string())));
}

#[test]
fn integer_too_large_reads_as_float() {
    let t = lex("3000000000");
    assert_eq!(t[0].token_type, TokenType::Float);
    let t = lex("2147483647");
    assert_eq!(t[0].value, Some(TokenLiteral::Integer(2147483647)));
}

#[test]
fn comment_runs_to_the_end_of_line() {
    assert_eq!(
        kinds("x # note + - \"\ny"),
        vec![TokenType::Symbol, TokenType::EndOfLine, TokenType::Symbol, TokenType::EndOfLine, TokenType::EndOfFile]
    );
}

#[test]
fn string_literal_value() {
    let t = lex("\"a\\nb\"");
    assert_eq!(t[0].token_type, TokenType::String);
    assert_eq!(t[0].value, Some(TokenLiteral::String("a\nb".to_string())));
}

#[test]
fn float_words_follow_the_float_grammar() {
    for w in ["inf", "NaN", "infinity", "1e5", "1.", ".5", "2.5E3", "1_0.5"] {
        assert_eq!(lex(w)[0].token_type, TokenType::Float, "{}", w);
    }
    for w in ["1e", "e5", "x1", "_", "in"] {
        assert_eq!(lex(w)[0].token_type, TokenType::Symbol, "{}", w);
    }
}

#[test]
fn exponent_sign_splits_the_word() {
    assert_eq!(
        kinds("1e-5"),
        vec![TokenType::Symbol, TokenType::Minus, TokenType::Integer, TokenType::EndOfLine, TokenType::EndOfFile]
    );
}
