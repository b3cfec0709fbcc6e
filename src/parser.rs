use vstd::prelude::*;
use crate::ast::{
    ArithmeticOperator, Assignment, BinaryExpression, BlockStatement, BooleanLiteral,
    BreakStatement, ContinueStatement, ElseStatement, EmptyStatement, Expression,
    ExpressionStatement, FloatLiteral, ForStatement, FunctionCallExpression,
    FunctionDeclareExpression, Identifier, IfStatement, IntegerLiteral, Literal, LogicalOperator,
    Node, Operator, ReturnStatement, StringLiteral, UnaryExpression, WhileStatement,
};
use crate::errors::ParserError;
use crate::grammar::{
    at_end, check, consume, err_at, g_assignment, g_block, g_block_items, g_call_args,
    g_declaration, g_else, g_end_statement, g_exponent, g_expression, g_expression_statement,
    g_for, g_for_step, g_func_declaration, g_if, g_level, g_level_rest, g_operand, g_parameters,
    g_or, g_primary, g_return, g_statement, g_statements, g_unary, g_var_declaration, g_while, g_call,
    level_op, perr_of, primary_kinds, symbol_name, PErr,
};
use crate::object::FUNCTION_PREFIX;
use crate::syntax::{
    expr_of, exprs_of, lemma_exprs_push, lemma_views_empty, lit_of, SLit, lemma_names_push, lemma_nodes_push, names_of, node_of,
    nodes_of, SExpr, SNode,
};
use crate::text::count_string;
use crate::token::{Token, TokenLiteral, TokenType, Tokens};

verus! {

/// A parsed item and the index of the first token after it.
pub type ParserResult<T> = Result<(T, usize), ParserError>;

/// `r` is what the grammar gives: the same tree and index, or the same error.
pub open spec fn same_node(r: ParserResult<Node>, g: Result<(SNode, int), PErr>) -> bool {
    match g {
        Ok((v, q)) => r is Ok && node_of(r->Ok_0.0) == v && r->Ok_0.1 == q,
        Err(e) => r is Err && perr_of(r->Err_0) == e,
    }
}

pub open spec fn same_expr(r: ParserResult<Expression>, g: Result<(SExpr, int), PErr>) -> bool {
    match g {
        Ok((v, q)) => r is Ok && expr_of(r->Ok_0.0) == v && r->Ok_0.1 == q,
        Err(e) => r is Err && perr_of(r->Err_0) == e,
    }
}

pub open spec fn same_block(r: ParserResult<BlockStatement>, g: Result<(Seq<SNode>, int), PErr>) -> bool {
    match g {
        Ok((v, q)) => r is Ok && nodes_of(r->Ok_0.0.0@) == v && r->Ok_0.1 == q,
        Err(e) => r is Err && perr_of(r->Err_0) == e,
    }
}

/// A list of one expected token kind.
fn expect_one(t: TokenType) -> (r: Vec<TokenType>)
    ensures
        r@ == seq![t],
{
    let mut v = Vec::new();
    v.push(t);
    assert(v@ =~= seq![t]);
    v
}

/// The token kinds a primary expression may start with.
fn primary_expected() -> (r: Vec<TokenType>)
    ensures
        r@ == primary_kinds(),
{
    let mut v = Vec::new();
    v.push(TokenType::Integer);
    v.push(TokenType::Float);
    v.push(TokenType::Boolean);
    v.push(TokenType::String);
    v.push(TokenType::Symbol);
    v.push(TokenType::LeftParen);
    assert(v@ =~= primary_kinds());
    v
}

/// Builds a program tree from tokens by recursive descent, one level of
/// precedence per function.
pub struct Parser<'a> {
    pub tokens: &'a Tokens,
    pub current: usize,
}

/// The name a function is bound under: the reserved prefix, then its own name.
fn prefixed(name: &String) -> (r: String)
    ensures
        r@ == FUNCTION_PREFIX@ + name@,
{
    String::from_str(FUNCTION_PREFIX).concat(name.as_str())
}

impl<'a> Parser<'a> {
    pub fn from(tokens: &'a Tokens) -> (r: Parser<'a>)
        ensures
            r.tokens == tokens,
            r.current == 0,
    {
        Parser { tokens, current: 0 }
    }

    /// Parses the whole token stream into a program: the tree that the
    /// grammar (`g_statements`) reads from the first token, or its error.
    pub fn parse(&mut self) -> (r: Result<Node, ParserError>)
        ensures
            r matches Ok(n) ==> n is Program,
            match g_statements(old(self).tokens@, 0, Seq::empty()) {
                Ok((v, _)) => r is Ok && node_of(r->Ok_0) == SNode::Program(v),
                Err(e) => r is Err && perr_of(r->Err_0) == e,
            },
    {
        let (statements, p) = self.parse_statements(0)?;
        self.current = p;
        Ok(Node::Program(statements))
    }

    fn parse_statements(&self, pos: usize) -> (r: ParserResult<Vec<Node>>)
        requires
            pos <= self.tokens@.len(),
        ensures
            r matches Ok(v) ==> pos <= v.1 <= self.tokens@.len(),
            match g_statements(self.tokens@, pos as int, Seq::empty()) {
                Ok((v, q)) => r is Ok && nodes_of(r->Ok_0.0@) == v && r->Ok_0.1 == q,
                Err(e) => r is Err && perr_of(r->Err_0) == e,
            },
    {
        let mut statements: Vec<Node> = Vec::new();
        proof {
            lemma_views_empty();
        }
        let mut p = pos;
        while !self.is_at_end(p)
            invariant
                pos <= p <= self.tokens@.len(),
                g_statements(self.tokens@, pos as int, Seq::empty())
                    == g_statements(self.tokens@, p as int, nodes_of(statements@)),
            decreases self.tokens@.len() - p,
        {
            let (statement, next) = self.declaration(p)?;
            proof {
                lemma_nodes_push(statements@, statement);
            }
            statements.push(statement);
            p = next;
        }
        Ok((statements, p))
    }

    fn is_at_end(&self, pos: usize) -> (r: bool)
        ensures
            !r ==> pos < self.tokens@.len() && self.tokens@[pos as int].token_type != TokenType::EndOfFile,
            self.tokens@.len() <= usize::MAX,
            r == at_end(self.tokens@, pos as int),
    {
        pos >= self.tokens.len() || self.tokens[pos].token_type == TokenType::EndOfFile
    }

    fn check(&self, pos: usize, t: TokenType) -> (r: bool)
        ensures
            r ==> pos < self.tokens@.len() && self.tokens@[pos as int].token_type == t,
            self.tokens@.len() <= usize::MAX,
            r == check(self.tokens@, pos as int, t),
    {
        !self.is_at_end(pos) && self.tokens[pos].token_type == t
    }

    /// The error for a token that is not among `expected`.
    fn error_at(&self, pos: usize, expected: Vec<TokenType>) -> (r: ParserError)
        ensures
            perr_of(r) == err_at(self.tokens@, pos as int, expected@),
    {
        if pos < self.tokens.len() {
            ParserError::InvalidToken {
                expected,
                found: self.tokens[pos].token_type,
                pos: self.tokens[pos].start,
            }
        } else {
            ParserError::OutOfBounds { index: count_string(pos) }
        }
    }

    fn consume(&self, pos: usize, t: TokenType) -> (r: Result<usize, ParserError>)
        ensures
            r matches Ok(p) ==> p == pos + 1 && p <= self.tokens@.len(),
            match consume(self.tokens@, pos as int, t) {
                Ok(q) => r is Ok && r->Ok_0 == q,
                Err(e) => r is Err && perr_of(r->Err_0) == e,
            },
    {
        if self.check(pos, t) {
            Ok(pos + 1)
        } else {
            Err(self.error_at(pos, expect_one(t)))
        }
    }

    /// The name that an identifier token carries.
    fn symbol_name(&self, pos: usize) -> (r: Result<String, ParserError>)
        requires
            pos < self.tokens@.len(),
        ensures
            match symbol_name(self.tokens@, pos as int) {
                Ok(n) => r is Ok && r->Ok_0@ == n,
                Err(e) => r is Err && perr_of(r->Err_0) == e,
            },
    {
        match &self.tokens[pos].value {
            Some(TokenLiteral::String(name)) => Ok(name.clone()),
            _ => Err(self.error_at(pos, expect_one(TokenType::Symbol))),
        }
    }

    fn declaration(&self, pos: usize) -> (r: ParserResult<Node>)
        requires
            pos <= self.tokens@.len(),
        ensures
            r matches Ok(v) ==> pos < v.1 <= self.tokens@.len(),
            same_node(r, g_declaration(self.tokens@, pos as int)),
        decreases self.tokens@.len() - pos, 56int,
    {
        if self.check(pos, TokenType::Symbol) {
            if pos + 1 >= self.tokens.len() {
                return Err(ParserError::OutOfBounds { index: count_string(pos + 1) });
            }
            if self.tokens[pos + 1].token_type == TokenType::Assign {
                return self.var_declaration(pos);
            }
        }
        self.statement(pos)
    }

    fn var_declaration(&self, pos: usize) -> (r: ParserResult<Node>)
        requires
            pos <= self.tokens@.len(),
        ensures
            r matches Ok(v) ==> pos < v.1 <= self.tokens@.len(),
            same_node(r, g_var_declaration(self.tokens@, pos as int)),
        decreases self.tokens@.len() - pos, 55int,
    {
        let p = self.consume(pos, TokenType::Symbol)?;
        let name = self.symbol_name(pos)?;
        let p = self.consume(p, TokenType::Assign)?;
        if self.check(p, TokenType::LeftParen) {
            match self.collect_parameters(p + 1) {
                Ok((parameters, q)) => {
                    if self.check(q, TokenType::LeftBrace) {
                        return self.func_declaration(name, parameters, q);
                    }
                },
                Err(_) => {},
            }
        }
        let (initializer, q) = self.statement(p)?;
        let ghost init = node_of(initializer);
        let ghost n = name@;
        let assigned = Expression::AssignmentExpr(Assignment(Identifier(name), Box::new(initializer)));
        assert(expr_of(assigned) == SExpr::Assign(n, Box::new(init)));
        Ok((Node::ExpressionStatement(ExpressionStatement(assigned)), q))
    }

    fn collect_parameters(&self, pos: usize) -> (r: ParserResult<Vec<Identifier>>)
        requires
            pos <= self.tokens@.len(),
        ensures
            r matches Ok(v) ==> pos <= v.1 <= self.tokens@.len(),
            match g_parameters(self.tokens@, pos as int, Seq::empty()) {
                Ok((v, q)) => r is Ok && names_of(r->Ok_0.0@) == v && r->Ok_0.1 == q,
                Err(e) => r is Err && perr_of(r->Err_0) == e,
            },
    {
        let mut arguments: Vec<Identifier> = Vec::new();
        proof {
            lemma_views_empty();
        }
        let mut p = pos;
        loop
            invariant
                pos <= p <= self.tokens@.len(),
                g_parameters(self.tokens@, pos as int, Seq::empty())
                    == g_parameters(self.tokens@, p as int, names_of(arguments@)),
            decreases self.tokens@.len() - p,
        {
            if self.check(p, TokenType::RightParen) {
                return Ok((arguments, p + 1));
            }
            let q = self.consume(p, TokenType::Symbol)?;
            let name = self.symbol_name(p)?;
            let id = Identifier(name);
            proof {
                lemma_names_push(arguments@, id);
            }
            arguments.push(id);
            p = q;
            if self.check(p, TokenType::Comma) {
                p = p + 1;
            } else if self.check(p, TokenType::RightParen) {
                return Ok((arguments, p + 1));
            }
        }
    }

    fn func_declaration(&self, name: String, parameters: Vec<Identifier>, pos: usize) -> (r: ParserResult<Node>)
        requires
            pos <= self.tokens@.len(),
        ensures
            r matches Ok(v) ==> pos < v.1 <= self.tokens@.len(),
            same_node(r, g_func_declaration(self.tokens@, name@, names_of(parameters@), pos as int)),
        decreases self.tokens@.len() - pos, 50int,
    {
        let (body, p) = self.block(pos)?;
        let identifier = Identifier(prefixed(&name));
        let ghost params = names_of(parameters@);
        let ghost nodes = nodes_of(body.0@);
        let declared = Expression::FunctionDeclareExpr(FunctionDeclareExpression(identifier, parameters, Box::new(body)));
        assert(expr_of(declared) == SExpr::Declare(FUNCTION_PREFIX@ + name@, params, nodes));
        Ok((Node::ExpressionStatement(ExpressionStatement(declared)), p))
    }

    fn block(&self, pos: usize) -> (r: ParserResult<BlockStatement>)
        requires
            pos <= self.tokens@.len(),
        ensures
            r matches Ok(v) ==> pos < v.1 <= self.tokens@.len(),
            same_block(r, g_block(self.tokens@, pos as int)),
        decreases self.tokens@.len() - pos, 24int,
    {
        let mut p = self.consume(pos, TokenType::LeftBrace)?;
        let mut statements: Vec<Node> = Vec::new();
        proof {
            lemma_views_empty();
        }
        while !self.is_at_end(p) && !self.check(p, TokenType::RightBrace)
            invariant
                pos < p <= self.tokens@.len(),
                g_block(self.tokens@, pos as int) == g_block_items(self.tokens@, p as int, nodes_of(statements@)),
            decreases self.tokens@.len() - p,
        {
            let (statement, next) = self.declaration(p)?;
            proof {
                lemma_nodes_push(statements@, statement);
            }
            statements.push(statement);
            p = next;
        }
        p = self.consume(p, TokenType::RightBrace)?;
        if self.check(p, TokenType::EndOfLine) {
            p = p + 1;
        }
        Ok((BlockStatement(statements), p))
    }

    fn statement(&self, pos: usize) -> (r: ParserResult<Node>)
        requires
            pos <= self.tokens@.len(),
        ensures
            r matches Ok(v) ==> pos < v.1 <= self.tokens@.len(),
            same_node(r, g_statement(self.tokens@, pos as int)),
        decreases self.tokens@.len() - pos, 54int,
    {
        if self.check(pos, TokenType::EndOfLine) {
            return Ok((Node::EmptyStatement(EmptyStatement()), pos + 1));
        }
        if self.check(pos, TokenType::If) {
            return self.if_statement(pos + 1);
        }
        if self.check(pos, TokenType::While) {
            return self.while_statement(pos + 1);
        }
        if self.check(pos, TokenType::For) {
            return self.for_statement(pos + 1);
        }
        if self.check(pos, TokenType::Break) {
            return Ok((Node::BreakStatement(BreakStatement()), pos + 1));
        }
        if self.check(pos, TokenType::Continue) {
            return Ok((Node::ContinueStatement(ContinueStatement()), pos + 1));
        }
        if self.check(pos, TokenType::Return) {
            return self.return_statement(pos + 1);
        }
        let (statement, p) = self.expression_statement(pos)?;
        Ok((Node::ExpressionStatement(statement), p))
    }

    fn else_statement(&self, pos: usize) -> (r: ParserResult<Node>)
        requires
            pos <= self.tokens@.len(),
        ensures
            r matches Ok(v) ==> pos < v.1 <= self.tokens@.len(),
            same_node(r, g_else(self.tokens@, pos as int)),
        decreases self.tokens@.len() - pos, 51int,
    {
        let (body, p) = self.block(pos)?;
        Ok((Node::ElseStatement(ElseStatement(Box::new(body))), p))
    }

    fn if_statement(&self, pos: usize) -> (r: ParserResult<Node>)
        requires
            pos <= self.tokens@.len(),
        ensures
            r matches Ok(v) ==> pos < v.1 <= self.tokens@.len(),
            same_node(r, g_if(self.tokens@, pos as int)),
        decreases self.tokens@.len() - pos, 52int,
    {
        let (condition, p) = self.expression(pos)?;
        let (body, p) = self.block(p)?;
        let (alternative, p) = if self.check(p, TokenType::ElIf) {
            let (branch, q) = self.if_statement(p + 1)?;
            (Some(Box::new(branch)), q)
        } else if self.check(p, TokenType::Else) {
            let (branch, q) = self.else_statement(p + 1)?;
            (Some(Box::new(branch)), q)
        } else {
            (None, p)
        };
        Ok((Node::IfStatement(IfStatement(condition, Box::new(body), alternative)), p))
    }

    fn while_statement(&self, pos: usize) -> (r: ParserResult<Node>)
        requires
            pos <= self.tokens@.len(),
        ensures
            r matches Ok(v) ==> pos < v.1 <= self.tokens@.len(),
            same_node(r, g_while(self.tokens@, pos as int)),
        decreases self.tokens@.len() - pos, 52int,
    {
        let (condition, p) = self.expression(pos)?;
        let (body, p) = self.block(p)?;
        Ok((Node::WhileStatement(WhileStatement(condition, Box::new(body))), p))
    }

    #[verifier::rlimit(100)]
    fn for_statement(&self, pos: usize) -> (r: ParserResult<Node>)
        requires
            pos <= self.tokens@.len(),
        ensures
            r matches Ok(v) ==> pos < v.1 <= self.tokens@.len(),
            same_node(r, g_for(self.tokens@, pos as int)),
        decreases self.tokens@.len() - pos, 57int,
    {
        let mut p = pos;
        if self.check(p, TokenType::LeftParen) {
            p = p + 1;
        }
        let (variable, q) = self.var_declaration(p)?;
        let (condition, q) = self.or(q)?;
        let q = self.consume(q, TokenType::EndOfLine)?;
        let (step, q) = self.for_step(q)?;
        let mut q = q;
        if self.check(q, TokenType::RightParen) {
            q = q + 1;
        }
        let (body, q) = self.block(q)?;
        let variable = match variable {
            Node::ExpressionStatement(ExpressionStatement(assignment)) => assignment,
            _ => {
                return Err(ParserError::InvalidStatement);
            },
        };
        Ok((Node::ForStatement(ForStatement(variable, condition, step, Box::new(body))), q))
    }

    /// The step of a `for` loop: a plain `name = expression`, or any assignment
    /// expression.
    fn for_step(&self, pos: usize) -> (r: ParserResult<Expression>)
        requires
            pos <= self.tokens@.len(),
        ensures
            r matches Ok(v) ==> pos < v.1 <= self.tokens@.len(),
            same_expr(r, g_for_step(self.tokens@, pos as int)),
        decreases self.tokens@.len() - pos, 47int,
    {
        if self.check(pos, TokenType::Symbol) && pos + 1 < self.tokens.len()
            && self.tokens[pos + 1].token_type == TokenType::Assign {
            let name = self.symbol_name(pos)?;
            let (value, p) = self.expression(pos + 2)?;
            let ghost v = expr_of(value);
            let ghost n = name@;
            let rhs = Node::ExpressionStatement(ExpressionStatement(value));
            assert(node_of(rhs) == SNode::Expr(v));
            let assigned = Expression::AssignmentExpr(Assignment(Identifier(name), Box::new(rhs)));
            assert(expr_of(assigned) == SExpr::Assign(n, Box::new(SNode::Expr(v))));
            return Ok((assigned, p));
        }
        self.assignment(pos)
    }

    /// Ends a statement: a statement end is consumed; a closing brace or the
    /// end of input is left for the enclosing rule.
    fn end_statement(&self, pos: usize) -> (r: Result<usize, ParserError>)
        requires
            pos <= self.tokens@.len(),
        ensures
            r matches Ok(p) ==> pos <= p <= self.tokens@.len(),
            match g_end_statement(self.tokens@, pos as int) {
                Ok(q) => r is Ok && r->Ok_0 == q,
                Err(e) => r is Err && perr_of(r->Err_0) == e,
            },
    {
        if self.check(pos, TokenType::EndOfLine) {
            Ok(pos + 1)
        } else if self.is_at_end(pos) || self.check(pos, TokenType::RightBrace) {
            Ok(pos)
        } else {
            Err(self.error_at(pos, expect_one(TokenType::EndOfLine)))
        }
    }

    fn return_statement(&self, pos: usize) -> (r: ParserResult<Node>)
        requires
            pos <= self.tokens@.len(),
        ensures
            r matches Ok(v) ==> pos < v.1 <= self.tokens@.len(),
            same_node(r, g_return(self.tokens@, pos as int)),
        decreases self.tokens@.len() - pos, 52int,
    {
        if self.check(pos, TokenType::EndOfLine) {
            return Ok((Node::ReturnStatement(ReturnStatement(None)), pos + 1));
        }
        if self.is_at_end(pos) || self.check(pos, TokenType::RightBrace) {
            return Err(self.error_at(pos, expect_one(TokenType::EndOfLine)));
        }
        let (value, p) = self.expression(pos)?;
        let p = self.end_statement(p)?;
        Ok((Node::ReturnStatement(ReturnStatement(Some(value))), p))
    }

    fn expression_statement(&self, pos: usize) -> (r: ParserResult<ExpressionStatement>)
        requires
            pos <= self.tokens@.len(),
        ensures
            r matches Ok(v) ==> pos < v.1 <= self.tokens@.len(),
            match g_expression_statement(self.tokens@, pos as int) {
                Ok((v, q)) => r is Ok && expr_of(r->Ok_0.0.0) == v && r->Ok_0.1 == q,
                Err(e) => r is Err && perr_of(r->Err_0) == e,
            },
        decreases self.tokens@.len() - pos, 53int,
    {
        let (expression, p) = self.expression(pos)?;
        let last = self.tokens[p - 1].token_type;
        let p = if last != TokenType::RightBrace && last != TokenType::EndOfLine {
            self.end_statement(p)?
        } else {
            p
        };
        Ok((ExpressionStatement(expression), p))
    }

    fn expression(&self, pos: usize) -> (r: ParserResult<Expression>)
        requires
            pos <= self.tokens@.len(),
        ensures
            r matches Ok(v) ==> pos < v.1 <= self.tokens@.len(),
            same_expr(r, g_expression(self.tokens@, pos as int)),
        decreases self.tokens@.len() - pos, 46int,
    {
        self.assignment(pos)
    }

    fn assignment(&self, pos: usize) -> (r: ParserResult<Expression>)
        requires
            pos <= self.tokens@.len(),
        ensures
            r matches Ok(v) ==> pos < v.1 <= self.tokens@.len(),
            same_expr(r, g_assignment(self.tokens@, pos as int)),
        decreases self.tokens@.len() - pos, 45int,
    {
        let (expression, p) = self.or(pos)?;
        let op = if self.check(p, TokenType::PlusAssign) {
            Some(ArithmeticOperator::Plus)
        } else if self.check(p, TokenType::MinusAssign) {
            Some(ArithmeticOperator::Minus)
        } else if self.check(p, TokenType::MultiplyAssign) {
            Some(ArithmeticOperator::Multiply)
        } else if self.check(p, TokenType::DivideAssign) {
            Some(ArithmeticOperator::Divide)
        } else if self.check(p, TokenType::ModuloAssign) {
            Some(ArithmeticOperator::Modulo)
        } else {
            None
        };
        match op {
            None => Ok((expression, p)),
            Some(op) => {
                let (value, q) = self.assignment(p + 1)?;
                match expression {
                    Expression::IdentifierExpr(identifier) => {
                        let ghost n = identifier.0@;
                        let ghost v = expr_of(value);
                        let target = Identifier(identifier.0.clone());
                        let lhs = Expression::IdentifierExpr(identifier);
                        assert(expr_of(lhs) == SExpr::Ident(n));
                        let rhs = Expression::BinaryExpr(BinaryExpression(
                            Box::new(lhs),
                            Operator::Arithmetic(op),
                            Box::new(value),
                        ));
                        let ghost b = SExpr::Binary(Box::new(SExpr::Ident(n)), Operator::Arithmetic(op), Box::new(v));
                        assert(expr_of(rhs) == b);
                        let stmt = Node::ExpressionStatement(ExpressionStatement(rhs));
                        assert(node_of(stmt) == SNode::Expr(b));
                        let assigned = Expression::AssignmentExpr(Assignment(target, Box::new(stmt)));
                        assert(expr_of(assigned) == SExpr::Assign(n, Box::new(SNode::Expr(b))));
                        Ok((assigned, q))
                    },
                    other => Ok((other, q)),
                }
            },
        }
    }

    /// One level of left-associative binary operators; `level` counts from
    /// `||` (0) to `* / %` (5).
    fn binary_level(&self, pos: usize, level: u8) -> (r: ParserResult<Expression>)
        requires
            pos <= self.tokens@.len(),
            level <= 5,
        ensures
            r matches Ok(v) ==> pos < v.1 <= self.tokens@.len(),
            same_expr(r, g_level(self.tokens@, pos as int, level as int)),
        decreases self.tokens@.len() - pos, 40 - 2 * level,
    {
        let (mut expression, mut p) = self.operand(pos, level)?;
        loop
            invariant
                pos < p <= self.tokens@.len(),
                level <= 5,
                g_level(self.tokens@, pos as int, level as int)
                    == g_level_rest(self.tokens@, expr_of(expression), p as int, level as int),
            decreases self.tokens@.len() - p,
        {
            let op = match self.level_operator(p, level) {
                Some(op) => op,
                None => {
                    return Ok((expression, p));
                },
            };
            let (right, q) = self.operand(p + 1, level)?;
            expression = Expression::BinaryExpr(BinaryExpression(Box::new(expression), op, Box::new(right)));
            p = q;
        }
    }

    /// An operand of a binary level: the next level up, or a power expression.
    fn operand(&self, pos: usize, level: u8) -> (r: ParserResult<Expression>)
        requires
            pos <= self.tokens@.len(),
            level <= 5,
        ensures
            r matches Ok(v) ==> pos < v.1 <= self.tokens@.len(),
            same_expr(r, g_operand(self.tokens@, pos as int, level as int)),
        decreases self.tokens@.len() - pos, 39 - 2 * level,
    {
        if level < 5 {
            self.binary_level(pos, level + 1)
        } else {
            self.exponent(pos)
        }
    }

    /// The operator of a binary level at `pos`.
    fn level_operator(&self, pos: usize, level: u8) -> (r: Option<Operator>)
        requires
            level <= 5,
        ensures
            r == level_op(self.tokens@, pos as int, level as int),
            r is Some ==> pos < self.tokens@.len(),
            self.tokens@.len() <= usize::MAX,
    {
        if level == 0 {
            if self.check(pos, TokenType::Or) { Some(Operator::Logical(LogicalOperator::Or)) } else { None }
        } else if level == 1 {
            if self.check(pos, TokenType::And) { Some(Operator::Logical(LogicalOperator::And)) } else { None }
        } else if level == 2 {
            if self.check(pos, TokenType::Equal) {
                Some(Operator::Logical(LogicalOperator::Equal))
            } else if self.check(pos, TokenType::NotEqual) {
                Some(Operator::Logical(LogicalOperator::NotEqual))
            } else {
                None
            }
        } else if level == 3 {
            if self.check(pos, TokenType::LesserThan) {
                Some(Operator::Logical(LogicalOperator::LesserThan))
            } else if self.check(pos, TokenType::GreaterThan) {
                Some(Operator::Logical(LogicalOperator::GreaterThan))
            } else if self.check(pos, TokenType::LesserThanEqual) {
                Some(Operator::Logical(LogicalOperator::LesserThanEqual))
            } else if self.check(pos, TokenType::GreaterThanEqual) {
                Some(Operator::Logical(LogicalOperator::GreaterThanEqual))
            } else {
                None
            }
        } else if level == 4 {
            if self.check(pos, TokenType::Minus) {
                Some(Operator::Arithmetic(ArithmeticOperator::Minus))
            } else if self.check(pos, TokenType::Plus) {
                Some(Operator::Arithmetic(ArithmeticOperator::Plus))
            } else {
                None
            }
        } else {
            if self.check(pos, TokenType::Multiply) {
                Some(Operator::Arithmetic(ArithmeticOperator::Multiply))
            } else if self.check(pos, TokenType::Divide) {
                Some(Operator::Arithmetic(ArithmeticOperator::Divide))
            } else if self.check(pos, TokenType::Modulo) {
                Some(Operator::Arithmetic(ArithmeticOperator::Modulo))
            } else {
                None
            }
        }
    }

    fn or(&self, pos: usize) -> (r: ParserResult<Expression>)
        requires
            pos <= self.tokens@.len(),
        ensures
            r matches Ok(v) ==> pos < v.1 <= self.tokens@.len(),
            same_expr(r, g_or(self.tokens@, pos as int)),
        decreases self.tokens@.len() - pos, 44int,
    {
        self.binary_level(pos, 0)
    }

    fn exponent(&self, pos: usize) -> (r: ParserResult<Expression>)
        requires
            pos <= self.tokens@.len(),
        ensures
            r matches Ok(v) ==> pos < v.1 <= self.tokens@.len(),
            same_expr(r, g_exponent(self.tokens@, pos as int)),
        decreases self.tokens@.len() - pos, 28int,
    {
        let (expression, p) = self.unary(pos)?;
        if self.check(p, TokenType::Power) {
            let (right, q) = self.unary(p + 1)?;
            return Ok((
                Expression::BinaryExpr(BinaryExpression(
                    Box::new(expression),
                    Operator::Arithmetic(ArithmeticOperator::Power),
                    Box::new(right),
                )),
                q,
            ));
        }
        Ok((expression, p))
    }

    fn unary(&self, pos: usize) -> (r: ParserResult<Expression>)
        requires
            pos <= self.tokens@.len(),
        ensures
            r matches Ok(v) ==> pos < v.1 <= self.tokens@.len(),
            same_expr(r, g_unary(self.tokens@, pos as int)),
        decreases self.tokens@.len() - pos, 27int,
    {
        let op = if self.check(pos, TokenType::Minus) {
            Some(Operator::Arithmetic(ArithmeticOperator::Minus))
        } else if self.check(pos, TokenType::Not) {
            Some(Operator::Logical(LogicalOperator::Not))
        } else {
            None
        };
        match op {
            Some(op) => {
                let (right, p) = self.unary(pos + 1)?;
                Ok((Expression::UnaryExpr(UnaryExpression(op, Box::new(right))), p))
            },
            None => self.call(pos),
        }
    }

    fn call(&self, pos: usize) -> (r: ParserResult<Expression>)
        requires
            pos <= self.tokens@.len(),
        ensures
            r matches Ok(v) ==> pos < v.1 <= self.tokens@.len(),
            same_expr(r, g_call(self.tokens@, pos as int)),
        decreases self.tokens@.len() - pos, 26int,
    {
        if self.check(pos, TokenType::Symbol) && self.check(pos + 1, TokenType::LeftParen) {
            return self.finish_call(pos, pos + 2);
        }
        self.primary(pos)
    }

    /// The arguments of a call to the function named at `name_at`, from just
    /// after the opening parenthesis.
    fn finish_call(&self, name_at: usize, pos: usize) -> (r: ParserResult<Expression>)
        requires
            name_at < pos <= self.tokens@.len(),
        ensures
            r matches Ok(v) ==> pos <= v.1 <= self.tokens@.len(),
            same_expr(r, match self.tokens@[name_at as int].value {
                Some(TokenLiteral::String(n)) => g_call_args(self.tokens@, FUNCTION_PREFIX@ + n@, pos as int, Seq::empty()),
                _ => Err(err_at(self.tokens@, name_at as int, seq![TokenType::String])),
            }),
        decreases self.tokens@.len() - pos, 48int,
    {
        let name = match &self.tokens[name_at].value {
            Some(TokenLiteral::String(name)) => prefixed(name),
            _ => {
                return Err(self.error_at(name_at, expect_one(TokenType::String)));
            },
        };
        assert(self.tokens@[name_at as int].value matches Some(TokenLiteral::String(n)) && name@ == FUNCTION_PREFIX@ + n@);
        let mut arguments: Vec<Expression> = Vec::new();
        proof {
            lemma_views_empty();
        }
        let ghost whole = g_call_args(self.tokens@, name@, pos as int, Seq::empty());
        let mut p = pos;
        loop
            invariant
                pos <= p <= self.tokens@.len(),
                name_at < self.tokens@.len(),
                whole == g_call_args(self.tokens@, name@, pos as int, Seq::empty()),
                whole == (match self.tokens@[name_at as int].value {
                    Some(TokenLiteral::String(n)) => g_call_args(self.tokens@, FUNCTION_PREFIX@ + n@, pos as int, Seq::empty()),
                    _ => Err(err_at(self.tokens@, name_at as int, seq![TokenType::String])),
                }),
                whole == g_call_args(self.tokens@, name@, p as int, exprs_of(arguments@)),
            decreases self.tokens@.len() - p,
        {
            if self.check(p, TokenType::RightParen) {
                return Ok((Expression::FunctionCallExpr(FunctionCallExpression(Identifier(name), arguments)), p + 1));
            }
            let (argument, q) = self.expression(p)?;
            proof {
                lemma_exprs_push(arguments@, argument);
            }
            arguments.push(argument);
            p = q;
            if self.check(p, TokenType::Comma) {
                p = p + 1;
            } else {
                p = self.consume(p, TokenType::RightParen)?;
                return Ok((Expression::FunctionCallExpr(FunctionCallExpression(Identifier(name), arguments)), p));
            }
        }
    }

    #[verifier::rlimit(100)]
    fn primary(&self, pos: usize) -> (r: ParserResult<Expression>)
        requires
            pos <= self.tokens@.len(),
        ensures
            r matches Ok(v) ==> pos < v.1 <= self.tokens@.len(),
            same_expr(r, g_primary(self.tokens@, pos as int)),
        decreases self.tokens@.len() - pos, 25int,
    {
        if pos >= self.tokens.len() {
            return Err(ParserError::OutOfBounds { index: count_string(pos) });
        }
        let token: &Token = &self.tokens[pos];
        let kind = token.token_type;
        if kind == TokenType::LeftBrace {
            let (block, p) = self.block(pos)?;
            return Ok((Expression::BlockExpr(block), p));
        }
        if kind == TokenType::LeftParen {
            let (expression, p) = self.expression(pos + 1)?;
            let p = self.consume(p, TokenType::RightParen)?;
            return Ok((Expression::GroupExpr(Box::new(expression)), p));
        }
        let result = match (kind, &token.value) {
            (TokenType::Null, _) => {
                assert(lit_of(Literal::Null) == SLit::Null);
                Expression::LiteralExpr(Literal::Null)
            },
            (TokenType::Integer, Some(TokenLiteral::Integer(v))) => {
                let l = Literal::Integer(IntegerLiteral(*v));
                assert(lit_of(l) == SLit::Int(*v));
                Expression::LiteralExpr(l)
            },
            (TokenType::Float, Some(TokenLiteral::Float(v))) => {
                let l = Literal::Float(FloatLiteral(*v));
                assert(lit_of(l) == SLit::Float(*v));
                Expression::LiteralExpr(l)
            },
            (TokenType::Boolean, Some(TokenLiteral::Boolean(v))) => {
                let l = Literal::Boolean(BooleanLiteral(*v));
                assert(lit_of(l) == SLit::Bool(*v));
                Expression::LiteralExpr(l)
            },
            (TokenType::String, Some(TokenLiteral::String(v))) => {
                let l = Literal::String(StringLiteral(v.clone()));
                assert(lit_of(l) == SLit::Str(v@));
                Expression::LiteralExpr(l)
            },
            (TokenType::Symbol, Some(TokenLiteral::String(v))) => Expression::IdentifierExpr(Identifier(v.clone())),
            _ => {
                return Err(self.error_at(pos, primary_expected()));
            },
        };
        Ok((result, pos + 1))
    }
}

} // verus!
