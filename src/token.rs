use vstd::prelude::*;

verus! {

/// A place in the source text: lines count from 1, columns from 0.
#[derive(Clone, Copy, Debug, PartialEq, Eq, Structural)]
pub struct Position {
    pub line: usize,
    pub col: usize,
}

/// `a` comes no later than `b` in the source text.
pub open spec fn pos_le(a: Position, b: Position) -> bool {
    a.line < b.line || (a.line == b.line && a.col <= b.col)
}

/// `a` comes strictly before `b` in the source text.
pub open spec fn pos_lt(a: Position, b: Position) -> bool {
    a.line < b.line || (a.line == b.line && a.col < b.col)
}

impl Position {
    pub fn from(line: usize, col: usize) -> (r: Position)
        ensures
            r.line == line,
            r.col == col,
    {
        Position { line, col }
    }

    pub fn to_tuple(&self) -> (r: (usize, usize))
        ensures
            r == (self.line, self.col),
    {
        (self.line, self.col)
    }
}

/// The value carried by a literal or identifier token. A float is held as the
/// bit pattern of its single-precision value.
#[derive(Clone, Debug, PartialEq)]
pub enum TokenLiteral {
    Float(u32),
    Integer(i32),
    Boolean(bool),
    String(String),
}

#[derive(Clone, Copy, Debug, PartialEq, Eq, Structural)]
pub enum TokenType {
    // Types
    Integer,
    Float,
    Boolean,
    String,
    Null,
    // Operators
    Plus,
    Minus,
    Divide,
    Multiply,
    Modulo,
    Power,
    PlusAssign,
    MinusAssign,
    DivideAssign,
    MultiplyAssign,
    ModuloAssign,
    PowerAssign,
    Assign,
    Or,
    And,
    Not,
    Equal,
    NotEqual,
    LesserThan,
    GreaterThan,
    LesserThanEqual,
    GreaterThanEqual,
    // Keywords
    If,
    ElIf,
    Else,
    While,
    For,
    Return,
    Break,
    Continue,
    // Other
    LeftParen,
    LeftBrace,
    LeftBracket,
    RightParen,
    RightBrace,
    RightBracket,
    EndOfLine,
    EndOfFile,
    Symbol,
    Comma,
    Unknown,
}

#[derive(Clone, Debug, PartialEq)]
pub struct Token {
    pub token_type: TokenType,
    pub start: Position,
    pub end: Position,
    pub value: Option<TokenLiteral>,
}

impl Token {
    pub fn from_value_pos(
        token: TokenType,
        start: Position,
        end: Position,
        value: Option<TokenLiteral>,
    ) -> (r: Token)
        ensures
            r == (Token { token_type: token, start, end, value }),
    {
        Token { token_type: token, start, end, value }
    }

    pub fn from_pos(token: TokenType, start: Position, end: Position) -> (r: Token)
        ensures
            r == (Token { token_type: token, start, end, value: None }),
    {
        Token::from_value_pos(token, start, end, None)
    }

    pub fn from_value(token: TokenType, value: Option<TokenLiteral>) -> (r: Token)
        ensures
            r == (Token {
                token_type: token,
                start: Position { line: 0, col: 0 },
                end: Position { line: 0, col: 0 },
                value,
            }),
    {
        Token::from_value_pos(token, Position::from(0, 0), Position::from(0, 0), value)
    }

    pub fn from(token: TokenType) -> (r: Token)
        ensures
            r == (Token {
                token_type: token,
                start: Position { line: 0, col: 0 },
                end: Position { line: 0, col: 0 },
                value: None,
            }),
    {
        Token::from_value_pos(token, Position::from(0, 0), Position::from(0, 0), None)
    }

    pub fn pos_range(&self) -> (r: (Position, Position))
        ensures
            r == (self.start, self.end),
    {
        (self.start, self.end)
    }
}

pub type Tokens = Vec<Token>;

} // verus!
