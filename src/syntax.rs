//! The syntax tree as plain values, for stating what the parser builds.

use vstd::prelude::*;
use crate::ast::{Expression, FunctionDeclareExpression, Identifier, Literal, Node, Operator};

verus! {

pub enum SLit {
    Str(Seq<char>),
    Int(i32),
    Float(u32),
    Bool(bool),
    List(Seq<SExpr>),
    Null,
}

pub enum SExpr {
    Assign(Seq<char>, Box<SNode>),
    Lit(SLit),
    Ident(Seq<char>),
    Binary(Box<SExpr>, Operator, Box<SExpr>),
    Unary(Operator, Box<SExpr>),
    Group(Box<SExpr>),
    Block(Seq<SNode>),
    Call(Seq<char>, Seq<SExpr>),
    Declare(Seq<char>, Seq<Seq<char>>, Seq<SNode>),
}

pub enum SNode {
    Program(Seq<SNode>),
    Block(Seq<SNode>),
    Expr(SExpr),
    Empty,
    Return(Option<SExpr>),
    Continue,
    Break,
    If(SExpr, Seq<SNode>, Option<Box<SNode>>),
    Else(Seq<SNode>),
    While(SExpr, Seq<SNode>),
    For(SExpr, SExpr, SExpr, Seq<SNode>),
}

pub open spec fn lit_of(l: Literal) -> SLit
    decreases l, 0int,
{
    match l {
        Literal::String(s) => SLit::Str(s.0@),
        Literal::Integer(v) => SLit::Int(v.0),
        Literal::Float(v) => SLit::Float(v.0),
        Literal::Boolean(v) => SLit::Bool(v.0),
        Literal::List(v) => SLit::List(exprs_from(v.0@, 0)),
        Literal::Null => SLit::Null,
    }
}

/// A function declaration as plain values.
pub open spec fn decl_of(d: FunctionDeclareExpression) -> SExpr {
    SExpr::Declare(d.0.0@, names_of(d.1@), nodes_of(d.2.0@))
}

pub open spec fn names_of(ids: Seq<Identifier>) -> Seq<Seq<char>> {
    ids.map_values(|i: Identifier| i.0@)
}

pub open spec fn expr_of(e: Expression) -> SExpr
    decreases e, 0int,
{
    match e {
        Expression::AssignmentExpr(a) => SExpr::Assign(a.0.0@, Box::new(node_of(*a.1))),
        Expression::LiteralExpr(l) => SExpr::Lit(lit_of(l)),
        Expression::IdentifierExpr(i) => SExpr::Ident(i.0@),
        Expression::BinaryExpr(b) => SExpr::Binary(Box::new(expr_of(*b.0)), b.1, Box::new(expr_of(*b.2))),
        Expression::UnaryExpr(u) => SExpr::Unary(u.0, Box::new(expr_of(*u.1))),
        Expression::GroupExpr(g) => SExpr::Group(Box::new(expr_of(*g))),
        Expression::BlockExpr(b) => SExpr::Block(nodes_from(b.0@, 0)),
        Expression::FunctionCallExpr(c) => SExpr::Call(c.0.0@, exprs_from(c.1@, 0)),
        Expression::FunctionDeclareExpr(d) => SExpr::Declare(d.0.0@, names_of(d.1@), nodes_from(d.2.0@, 0)),
    }
}

pub open spec fn exprs_of(v: Seq<Expression>) -> Seq<SExpr> {
    exprs_from(v, 0)
}

pub open spec fn exprs_from(v: Seq<Expression>, i: int) -> Seq<SExpr>
    decreases v, v.len() - i,
{
    if 0 <= i < v.len() {
        seq![expr_of(v[i])] + exprs_from(v, i + 1)
    } else {
        Seq::empty()
    }
}

pub open spec fn node_of(n: Node) -> SNode
    decreases n, 0int,
{
    match n {
        Node::Program(v) => SNode::Program(nodes_from(v@, 0)),
        Node::BlockStatement(b) => SNode::Block(nodes_from(b.0@, 0)),
        Node::ExpressionStatement(e) => SNode::Expr(expr_of(e.0)),
        Node::EmptyStatement(_) => SNode::Empty,
        Node::ReturnStatement(r) => SNode::Return(match r.0 { Some(e) => Some(expr_of(e)), None => None }),
        Node::ContinueStatement(_) => SNode::Continue,
        Node::BreakStatement(_) => SNode::Break,
        Node::IfStatement(s) => SNode::If(expr_of(s.0), nodes_from(s.1.0@, 0), match s.2 {
            Some(n) => Some(Box::new(node_of(*n))),
            None => None,
        }),
        Node::ElseStatement(s) => SNode::Else(nodes_from(s.0.0@, 0)),
        Node::WhileStatement(s) => SNode::While(expr_of(s.0), nodes_from(s.1.0@, 0)),
        Node::ForStatement(s) => SNode::For(expr_of(s.0), expr_of(s.1), expr_of(s.2), nodes_from(s.3.0@, 0)),
    }
}

pub open spec fn nodes_of(v: Seq<Node>) -> Seq<SNode> {
    nodes_from(v, 0)
}

pub open spec fn nodes_from(v: Seq<Node>, i: int) -> Seq<SNode>
    decreases v, v.len() - i,
{
    if 0 <= i < v.len() {
        seq![node_of(v[i])] + nodes_from(v, i + 1)
    } else {
        Seq::empty()
    }
}

pub proof fn lemma_nodes_from(v: Seq<Node>, i: int)
    requires
        0 <= i <= v.len(),
    ensures
        nodes_from(v, i) == Seq::new((v.len() - i) as nat, |k: int| node_of(v[i + k])),
    decreases v.len() - i,
{
    if i < v.len() {
        lemma_nodes_from(v, i + 1);
        assert(nodes_from(v, i) =~= Seq::new((v.len() - i) as nat, |k: int| node_of(v[i + k])));
    } else {
        assert(nodes_from(v, i) =~= Seq::new((v.len() - i) as nat, |k: int| node_of(v[i + k])));
    }
}

pub proof fn lemma_exprs_from(v: Seq<Expression>, i: int)
    requires
        0 <= i <= v.len(),
    ensures
        exprs_from(v, i) == Seq::new((v.len() - i) as nat, |k: int| expr_of(v[i + k])),
    decreases v.len() - i,
{
    if i < v.len() {
        lemma_exprs_from(v, i + 1);
        assert(exprs_from(v, i) =~= Seq::new((v.len() - i) as nat, |k: int| expr_of(v[i + k])));
    } else {
        assert(exprs_from(v, i) =~= Seq::new((v.len() - i) as nat, |k: int| expr_of(v[i + k])));
    }
}

/// The views of empty sequences are empty.
pub proof fn lemma_views_empty()
    ensures
        nodes_of(Seq::<Node>::empty()) == Seq::<SNode>::empty(),
        exprs_of(Seq::<Expression>::empty()) == Seq::<SExpr>::empty(),
        names_of(Seq::<Identifier>::empty()) == Seq::<Seq<char>>::empty(),
{
    lemma_nodes_from(Seq::<Node>::empty(), 0);
    lemma_exprs_from(Seq::<Expression>::empty(), 0);
    assert(nodes_of(Seq::<Node>::empty()) =~= Seq::<SNode>::empty());
    assert(exprs_of(Seq::<Expression>::empty()) =~= Seq::<SExpr>::empty());
    assert(names_of(Seq::<Identifier>::empty()) =~= Seq::<Seq<char>>::empty());
}

/// Appending a statement appends its view.
pub proof fn lemma_nodes_push(v: Seq<Node>, x: Node)
    ensures
        nodes_of(v.push(x)) == nodes_of(v).push(node_of(x)),
        nodes_of(Seq::<Node>::empty()) == Seq::<SNode>::empty(),
{
    lemma_nodes_from(v, 0);
    lemma_nodes_from(v.push(x), 0);
    lemma_nodes_from(Seq::<Node>::empty(), 0);
    assert(nodes_of(v.push(x)) =~= nodes_of(v).push(node_of(x)));
    assert(nodes_of(Seq::<Node>::empty()) =~= Seq::<SNode>::empty());
}

/// Appending an expression appends its view.
pub proof fn lemma_exprs_push(v: Seq<Expression>, x: Expression)
    ensures
        exprs_of(v.push(x)) == exprs_of(v).push(expr_of(x)),
        exprs_of(Seq::<Expression>::empty()) == Seq::<SExpr>::empty(),
{
    lemma_exprs_from(v, 0);
    lemma_exprs_from(v.push(x), 0);
    lemma_exprs_from(Seq::<Expression>::empty(), 0);
    assert(exprs_of(v.push(x)) =~= exprs_of(v).push(expr_of(x)));
    assert(exprs_of(Seq::<Expression>::empty()) =~= Seq::<SExpr>::empty());
}

/// Appending a name appends its characters.
pub proof fn lemma_names_push(v: Seq<Identifier>, x: Identifier)
    ensures
        names_of(v.push(x)) == names_of(v).push(x.0@),
        names_of(Seq::<Identifier>::empty()) == Seq::<Seq<char>>::empty(),
{
    assert(names_of(v.push(x)) =~= names_of(v).push(x.0@));
    assert(names_of(Seq::<Identifier>::empty()) =~= Seq::<Seq<char>>::empty());
}

/// Whether two literals are the same syntax.
pub fn same_literal(a: &Literal, b: &Literal) -> (r: bool)
    ensures
        r == (lit_of(*a) == lit_of(*b)),
    decreases a,
{
    match (a, b) {
        (Literal::String(x), Literal::String(y)) => x.0.eq(&y.0),
        (Literal::Integer(x), Literal::Integer(y)) => x.0 == y.0,
        (Literal::Float(x), Literal::Float(y)) => x.0 == y.0,
        (Literal::Boolean(x), Literal::Boolean(y)) => x.0 == y.0,
        (Literal::List(x), Literal::List(y)) => same_expressions(&x.0, &y.0),
        (Literal::Null, Literal::Null) => true,
        _ => false,
    }
}

/// Whether two expressions are the same syntax.
pub fn same_expression(a: &Expression, b: &Expression) -> (r: bool)
    ensures
        r == (expr_of(*a) == expr_of(*b)),
    decreases a,
{
    match (a, b) {
        (Expression::AssignmentExpr(x), Expression::AssignmentExpr(y)) => x.0.0.eq(&y.0.0) && same_node(&x.1, &y.1),
        (Expression::LiteralExpr(x), Expression::LiteralExpr(y)) => same_literal(x, y),
        (Expression::IdentifierExpr(x), Expression::IdentifierExpr(y)) => x.0.eq(&y.0),
        (Expression::BinaryExpr(x), Expression::BinaryExpr(y)) => x.1 == y.1 && same_expression(&x.0, &y.0)
            && same_expression(&x.2, &y.2),
        (Expression::UnaryExpr(x), Expression::UnaryExpr(y)) => x.0 == y.0 && same_expression(&x.1, &y.1),
        (Expression::GroupExpr(x), Expression::GroupExpr(y)) => same_expression(x, y),
        (Expression::BlockExpr(x), Expression::BlockExpr(y)) => same_nodes(&x.0, &y.0),
        (Expression::FunctionCallExpr(x), Expression::FunctionCallExpr(y)) => x.0.0.eq(&y.0.0) && same_expressions(&x.1, &y.1),
        (Expression::FunctionDeclareExpr(x), Expression::FunctionDeclareExpr(y)) => same_declaration(x, y),
        _ => false,
    }
}

/// Whether two function declarations are the same syntax.
pub fn same_declaration(a: &FunctionDeclareExpression, b: &FunctionDeclareExpression) -> (r: bool)
    ensures
        r == (decl_of(*a) == decl_of(*b)),
    decreases a,
{
    a.0.0.eq(&b.0.0) && same_names(&a.1, &b.1) && same_nodes(&a.2.0, &b.2.0)
}

/// Whether two lists of names are the same.
pub fn same_names(a: &Vec<Identifier>, b: &Vec<Identifier>) -> (r: bool)
    ensures
        r == (names_of(a@) == names_of(b@)),
{
    if a.len() != b.len() {
        assert(names_of(a@).len() != names_of(b@).len());
        return false;
    }
    let mut i: usize = 0;
    while i < a.len()
        invariant
            a@.len() == b@.len(),
            i <= a@.len(),
            forall|j: int| 0 <= j < i ==> #[trigger] a@[j].0@ == b@[j].0@,
        decreases a@.len() - i,
    {
        if !a[i].0.eq(&b[i].0) {
            assert(names_of(a@)[i as int] != names_of(b@)[i as int]);
            return false;
        }
        i = i + 1;
    }
    assert(names_of(a@) =~= names_of(b@));
    true
}

/// Whether two lists of expressions are the same syntax.
pub fn same_expressions(a: &Vec<Expression>, b: &Vec<Expression>) -> (r: bool)
    ensures
        r == (exprs_of(a@) == exprs_of(b@)),
    decreases a,
{
    proof {
        lemma_exprs_from(a@, 0);
        lemma_exprs_from(b@, 0);
    }
    if a.len() != b.len() {
        assert(exprs_of(a@).len() != exprs_of(b@).len());
        return false;
    }
    let mut i: usize = 0;
    while i < a.len()
        invariant
            a@.len() == b@.len(),
            i <= a@.len(),
            exprs_of(a@) == Seq::new(a@.len(), |k: int| expr_of(a@[k])),
            exprs_of(b@) == Seq::new(b@.len(), |k: int| expr_of(b@[k])),
            forall|j: int| 0 <= j < i ==> #[trigger] expr_of(a@[j]) == expr_of(b@[j]),
        decreases a@.len() - i,
    {
        if !same_expression(&a[i], &b[i]) {
            assert(exprs_of(a@)[i as int] != exprs_of(b@)[i as int]);
            return false;
        }
        i = i + 1;
    }
    assert(exprs_of(a@) =~= exprs_of(b@));
    true
}

/// Whether two statements are the same syntax.
pub fn same_node(a: &Node, b: &Node) -> (r: bool)
    ensures
        r == (node_of(*a) == node_of(*b)),
    decreases a,
{
    match (a, b) {
        (Node::Program(x), Node::Program(y)) => same_nodes(x, y),
        (Node::BlockStatement(x), Node::BlockStatement(y)) => same_nodes(&x.0, &y.0),
        (Node::ExpressionStatement(x), Node::ExpressionStatement(y)) => same_expression(&x.0, &y.0),
        (Node::EmptyStatement(_), Node::EmptyStatement(_)) => true,
        (Node::ReturnStatement(x), Node::ReturnStatement(y)) => match (&x.0, &y.0) {
            (Some(e), Some(f)) => same_expression(e, f),
            (None, None) => true,
            _ => false,
        },
        (Node::ContinueStatement(_), Node::ContinueStatement(_)) => true,
        (Node::BreakStatement(_), Node::BreakStatement(_)) => true,
        (Node::IfStatement(x), Node::IfStatement(y)) => same_expression(&x.0, &y.0) && same_nodes(&x.1.0, &y.1.0)
            && match (&x.2, &y.2) {
                (Some(e), Some(f)) => same_node(e, f),
                (None, None) => true,
                _ => false,
            },
        (Node::ElseStatement(x), Node::ElseStatement(y)) => same_nodes(&x.0.0, &y.0.0),
        (Node::WhileStatement(x), Node::WhileStatement(y)) => same_expression(&x.0, &y.0) && same_nodes(&x.1.0, &y.1.0),
        (Node::ForStatement(x), Node::ForStatement(y)) => same_expression(&x.0, &y.0) && same_expression(&x.1, &y.1)
            && same_expression(&x.2, &y.2) && same_nodes(&x.3.0, &y.3.0),
        _ => false,
    }
}

/// Whether two lists of statements are the same syntax.
pub fn same_nodes(a: &Vec<Node>, b: &Vec<Node>) -> (r: bool)
    ensures
        r == (nodes_of(a@) == nodes_of(b@)),
    decreases a,
{
    proof {
        lemma_nodes_from(a@, 0);
        lemma_nodes_from(b@, 0);
    }
    if a.len() != b.len() {
        assert(nodes_of(a@).len() != nodes_of(b@).len());
        return false;
    }
    let mut i: usize = 0;
    while i < a.len()
        invariant
            a@.len() == b@.len(),
            i <= a@.len(),
            nodes_of(a@) == Seq::new(a@.len(), |k: int| node_of(a@[k])),
            nodes_of(b@) == Seq::new(b@.len(), |k: int| node_of(b@[k])),
            forall|j: int| 0 <= j < i ==> #[trigger] node_of(a@[j]) == node_of(b@[j]),
        decreases a@.len() - i,
    {
        if !same_node(&a[i], &b[i]) {
            assert(nodes_of(a@)[i as int] != nodes_of(b@)[i as int]);
            return false;
        }
        i = i + 1;
    }
    assert(nodes_of(a@) =~= nodes_of(b@));
    true
}

} // verus!
