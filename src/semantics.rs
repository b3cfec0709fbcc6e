//! The meaning of programs, as spec functions over plain values. Float
//! arithmetic is the host's: the semantics reads each float result from a
//! stream of the host's answers, in the order the evaluator asks for them,
//! and the evaluator is proved to agree with it for the answers it was given.

use vstd::prelude::*;
use crate::ast::{
    ArithmeticOperator, Assignment, BinaryExpression, BlockStatement, Expression, ForStatement,
    FunctionCallExpression, FunctionDeclareExpression, Identifier, IfStatement, Literal,
    LogicalOperator, Node, Operator, ReturnStatement, UnaryExpression, WhileStatement,
};
use crate::environment::latest_binding;
use crate::evaluator::decimal_value;
use crate::errors::EvaluatorError;
use crate::evaluator::HostAction;
use crate::object::{
    bool_text, integer_arith, integer_compare, is_comparison, tag_name, text_compare, Error,
    NativeFunctionObject, Object, ObjectType,
};
use crate::text::int_text;
use crate::syntax::{decl_of, exprs_of, SExpr};
use core::cmp::Ordering;

verus! {

/// A runtime value with its text as characters.
pub enum Value {
    Null,
    Integer(i32),
    Boolean(bool),
    Float(u32),
    Str(Seq<char>),
    /// A list literal, by its elements' syntax.
    List(Seq<SExpr>),
    Function(FunctionDeclareExpression),
    Native(NativeFunctionObject),
    Void,
}

/// Why evaluation stops, as the semantics tells errors apart.
pub enum Fault {
    NotFound(Seq<char>),
    /// The tags that were expected, and the one found.
    Type(Seq<ObjectType>, ObjectType),
    /// What was expected instead.
    Expression(Seq<char>),
    Operation(Error),
    StepLimit,
}

/// What the host answered when asked for float arithmetic: the bits of a
/// float result, an ordering, or the text of a float.
pub enum FloatAnswer {
    Bits(u32),
    Order(Option<Ordering>),
    Text(Seq<char>),
}

/// The bits answered at index `i`.
pub open spec fn bits_at(fs: Seq<FloatAnswer>, i: nat) -> u32 {
    if i < fs.len() && fs[i as int] is Bits { fs[i as int]->Bits_0 } else { 0 }
}

/// The ordering answered at index `i`.
pub open spec fn order_at(fs: Seq<FloatAnswer>, i: nat) -> Option<Ordering> {
    if i < fs.len() && fs[i as int] is Order { fs[i as int]->Order_0 } else { None }
}

/// The text answered at index `i`.
pub open spec fn text_at(fs: Seq<FloatAnswer>, i: nat) -> Seq<char> {
    if i < fs.len() && fs[i as int] is Text { fs[i as int]->Text_0 } else { Seq::empty() }
}

/// `fs` holds the answers `a` from index `k` on.
pub open spec fn answers_at(fs: Seq<FloatAnswer>, k: nat, a: Seq<FloatAnswer>) -> bool {
    k + a.len() <= fs.len() && forall|j: int| 0 <= j < a.len() ==> #[trigger] fs[k + j] == a[j]
}

/// `a` is a prefix of `b`.
pub open spec fn prefix(a: Seq<FloatAnswer>, b: Seq<FloatAnswer>) -> bool {
    a.len() <= b.len() && forall|i: int| 0 <= i < a.len() ==> #[trigger] a[i] == b[i]
}

pub proof fn lemma_prefix_trans(a: Seq<FloatAnswer>, b: Seq<FloatAnswer>, c: Seq<FloatAnswer>)
    requires
        prefix(a, b),
        prefix(b, c),
    ensures
        prefix(a, c),
{
    assert forall|i: int| 0 <= i < a.len() implies #[trigger] a[i] == c[i] by {
        assert(a[i] == b[i]);
        assert(b[i] == c[i]);
    }
}

/// A request to the host.
pub enum Act {
    Print(Seq<char>),
    Sleep(u64),
}

pub open spec fn value_of<'a>(o: Object<'a>) -> Value {
    match o {
        Object::Null => Value::Null,
        Object::Integer(i) => Value::Integer(i),
        Object::Boolean(b) => Value::Boolean(b),
        Object::Float(f) => Value::Float(f),
        Object::String(s) => Value::Str(s@),
        Object::List(l) => Value::List(exprs_of(l@)),
        Object::Function(f) => Value::Function(*f),
        Object::NativeFunction(n) => Value::Native(n),
        Object::Void => Value::Void,
    }
}

pub open spec fn values_of<'a>(v: Seq<Object<'a>>) -> Seq<Value> {
    v.map_values(|o: Object<'a>| value_of(o))
}

pub open spec fn fault_of(e: EvaluatorError) -> Fault {
    match e {
        EvaluatorError::ObjectNotFound { name } => Fault::NotFound(name@),
        EvaluatorError::InvalidType { expected, found } => Fault::Type(expected@, found),
        EvaluatorError::InvalidExpression { expected } => Fault::Expression(expected@),
        EvaluatorError::Operation { error } => Fault::Operation(error),
        EvaluatorError::StepLimit => Fault::StepLimit,
    }
}

pub open spec fn act_of(a: HostAction) -> Act {
    match a {
        HostAction::Print(s) => Act::Print(s@),
        HostAction::Sleep(ms) => Act::Sleep(ms),
    }
}

pub open spec fn tag_of(v: Value) -> ObjectType {
    match v {
        Value::Null => ObjectType::Null,
        Value::Integer(_) => ObjectType::Integer,
        Value::Boolean(_) => ObjectType::Boolean,
        Value::Float(_) => ObjectType::Float,
        Value::Str(_) => ObjectType::String,
        Value::List(_) => ObjectType::List,
        Value::Function(_) => ObjectType::Function,
        Value::Native(_) => ObjectType::NativeFunction,
        Value::Void => ObjectType::Void,
    }
}

/// The plain text of a value; `None` for a float.
pub open spec fn plain_of(v: Value) -> Option<Seq<char>> {
    match v {
        Value::Boolean(b) => Some(bool_text(b)),
        Value::Integer(i) => Some(int_text(i as int)),
        Value::Float(_) => None,
        Value::Str(s) => Some(s),
        _ => Some(tag_name(tag_of(v))),
    }
}

pub open spec fn is_number_value(v: Value) -> bool {
    v is Integer || v is Float
}

/// A value's text as `print` writes it, reading a float's text from the
/// answers at `k`; with the index after the answers used.
pub open spec fn text_of(fs: Seq<FloatAnswer>, k: nat, v: Value) -> (Seq<char>, nat) {
    match plain_of(v) {
        Some(t) => (t, k),
        None => (text_at(fs, k), k + 1),
    }
}

/// An arithmetic operator on two values. Integers stay integers; a float on
/// either side gives a float (an integer side is first converted, one answer,
/// then the operation, another); `+` with a string on either side joins the
/// texts; anything else is a type error. With the index after the answers used.
pub open spec fn arith_value(fs: Seq<FloatAnswer>, k: nat, op: ArithmeticOperator, l: Value, r: Value) -> (Result<Value, Error>, nat) {
    match (l, r) {
        (Value::Integer(a), Value::Integer(b)) => (match integer_arith(op, a, b) {
            Ok(v) => Ok(Value::Integer(v)),
            Err(e) => Err(e),
        }, k),
        (Value::Float(_), Value::Float(_)) => (Ok(Value::Float(bits_at(fs, k))), k + 1),
        (Value::Float(_), Value::Integer(_)) => (Ok(Value::Float(bits_at(fs, k + 1))), k + 2),
        (Value::Integer(_), Value::Float(_)) => (Ok(Value::Float(bits_at(fs, k + 1))), k + 2),
        _ => if op == ArithmeticOperator::Plus && l is Str {
            let (t, k2) = text_of(fs, k, r);
            (Ok(Value::Str(l->Str_0 + t)), k2)
        } else if op == ArithmeticOperator::Plus && r is Str {
            let (t, k2) = text_of(fs, k, l);
            (Ok(Value::Str(t + r->Str_0)), k2)
        } else {
            (Err(Error::TypeError { operator: Operator::Arithmetic(op), lhs: tag_of(l), rhs: tag_of(r) }), k)
        },
    }
}

/// Equality of two values other than two floats: never across type tags;
/// functions and lists are equal when their syntax is.
pub open spec fn same_value_of(l: Value, r: Value) -> bool {
    match (l, r) {
        (Value::Null, Value::Null) => true,
        (Value::Void, Value::Void) => true,
        (Value::Integer(a), Value::Integer(b)) => a == b,
        (Value::Boolean(a), Value::Boolean(b)) => a == b,
        (Value::Str(a), Value::Str(b)) => a == b,
        (Value::Native(a), Value::Native(b)) => a == b,
        (Value::Function(a), Value::Function(b)) => decl_of(a) == decl_of(b),
        (Value::List(a), Value::List(b)) => a == b,
        _ => false,
    }
}

/// Whether a comparison operator holds for an ordering.
pub open spec fn order_holds(op: LogicalOperator, ord: Option<Ordering>) -> bool {
    match ord {
        Some(Ordering::Less) => op == LogicalOperator::LesserThan || op == LogicalOperator::LesserThanEqual,
        Some(Ordering::Equal) => op == LogicalOperator::LesserThanEqual || op == LogicalOperator::GreaterThanEqual,
        Some(Ordering::Greater) => op == LogicalOperator::GreaterThan || op == LogicalOperator::GreaterThanEqual,
        None => false,
    }
}

/// A logical, equality or comparison operator on two values. Floats are
/// compared by the ordering answered (an integer side first converted); two
/// floats are equal where that ordering is `Equal`. With the index after the
/// answers used.
pub open spec fn logical_value(fs: Seq<FloatAnswer>, k: nat, op: LogicalOperator, l: Value, r: Value) -> (Result<Value, Error>, nat) {
    let type_error = Err(Error::TypeError { operator: Operator::Logical(op), lhs: tag_of(l), rhs: tag_of(r) });
    if op == LogicalOperator::And || op == LogicalOperator::Or {
        match (l, r) {
            (Value::Boolean(a), Value::Boolean(b)) => (Ok(
                Value::Boolean(if op == LogicalOperator::And { a && b } else { a || b }),
            ), k),
            _ => (type_error, k),
        }
    } else if op == LogicalOperator::Equal || op == LogicalOperator::NotEqual {
        let (same, k2) = match (l, r) {
            (Value::Float(_), Value::Float(_)) => (order_at(fs, k) == Some(Ordering::Equal), k + 1),
            _ => (same_value_of(l, r), k),
        };
        (Ok(Value::Boolean(if op == LogicalOperator::Equal { same } else { !same })), k2)
    } else if is_comparison(op) {
        match (l, r) {
            (Value::Integer(a), Value::Integer(b)) => (Ok(Value::Boolean(integer_compare(op, a, b))), k),
            (Value::Str(a), Value::Str(b)) => (Ok(Value::Boolean(text_compare(op, a, b))), k),
            (Value::Float(_), Value::Float(_)) => (Ok(Value::Boolean(order_holds(op, order_at(fs, k)))), k + 1),
            (Value::Float(_), Value::Integer(_)) => (Ok(Value::Boolean(order_holds(op, order_at(fs, k + 1)))), k + 2),
            (Value::Integer(_), Value::Float(_)) => (Ok(Value::Boolean(order_holds(op, order_at(fs, k + 1)))), k + 2),
            _ => (type_error, k),
        }
    } else {
        (type_error, k)
    }
}

/// A unary operator on a value: an integer negated with wrap-around, a float
/// negated by the answer at `k`, a boolean inverted, or the fault.
pub open spec fn unary_value(fs: Seq<FloatAnswer>, k: nat, op: Operator, v: Value) -> (Result<Value, Fault>, nat) {
    match (op, v) {
        (Operator::Arithmetic(ArithmeticOperator::Minus), Value::Integer(i)) => (Ok(Value::Integer((0i32).wrapping_sub(i))), k),
        (Operator::Arithmetic(ArithmeticOperator::Minus), Value::Float(_)) => (Ok(Value::Float(bits_at(fs, k))), k + 1),
        (Operator::Logical(LogicalOperator::Not), Value::Boolean(b)) => (Ok(Value::Boolean(!b)), k),
        (Operator::Arithmetic(ArithmeticOperator::Minus), _) => (Err(Fault::Type(seq![ObjectType::Integer, ObjectType::Float], tag_of(v))), k),
        (Operator::Logical(LogicalOperator::Not), _) => (Err(Fault::Type(seq![ObjectType::Boolean], tag_of(v))), k),
        _ => (Err(Fault::Expression("UnaryExpression"@)), k),
    }
}

pub open spec fn value_result<'a>(r: Result<Object<'a>, Error>) -> Result<Value, Error> {
    match r {
        Ok(o) => Ok(value_of(o)),
        Err(e) => Err(e),
    }
}

/// A value's tag and plain text are read off its semantic value.
pub proof fn lemma_value_views<'a>(o: Object<'a>)
    ensures
        tag_of(value_of(o)) == o.tag(),
        plain_of(value_of(o)) == o.plain_text(),
{
}

/// The environment and the host requests made so far.
pub struct State {
    pub env: Seq<(Seq<char>, Value)>,
    pub acts: Seq<Act>,
    /// How many float answers have been used.
    pub used: nat,
}

pub open spec fn env_of<'a>(s: Seq<(String, Object<'a>)>) -> Seq<(Seq<char>, Value)> {
    s.map_values(|p: (String, Object<'a>)| (p.0@, value_of(p.1)))
}

pub open spec fn acts_of(s: Seq<HostAction>) -> Seq<Act> {
    s.map_values(|a: HostAction| act_of(a))
}

/// The index of the latest binding of `name`.
pub open spec fn find(env: Seq<(Seq<char>, Value)>, name: Seq<char>) -> Option<int>
    decreases env.len(),
{
    if env.len() == 0 {
        None
    } else if env.last().0 == name {
        Some(env.len() - 1)
    } else {
        find(env.drop_last(), name)
    }
}

pub proof fn lemma_find_view<'a>(s: Seq<(String, Object<'a>)>, name: Seq<char>)
    ensures
        latest_binding(s, name) == find(env_of(s), name),
    decreases s.len(),
{
    if s.len() > 0 {
        assert(env_of(s).drop_last() =~= env_of(s.drop_last()));
        lemma_find_view(s.drop_last(), name);
    }
}

/// Assignment: the latest binding of the name takes the value, or a new
/// binding is pushed where there is none.
pub open spec fn env_assign(env: Seq<(Seq<char>, Value)>, name: Seq<char>, v: Value) -> Seq<(Seq<char>, Value)> {
    match find(env, name) {
        Some(i) => env.update(i, (name, v)),
        None => env.push((name, v)),
    }
}

/// Leaves a scope: the environment goes back to its first `scope` bindings.
pub open spec fn leave(s: State, scope: int) -> State {
    State { env: s.env.subrange(0, scope), acts: s.acts, used: s.used }
}

pub open spec fn literal_value(l: Literal) -> Value {
    match l {
        Literal::Integer(v) => Value::Integer(v.0),
        Literal::Boolean(v) => Value::Boolean(v.0),
        Literal::Float(v) => Value::Float(v.0),
        Literal::String(v) => Value::Str(v.0@),
        Literal::List(v) => Value::List(exprs_of(v.0@)),
        Literal::Null => Value::Null,
    }
}

/// The bindings of a call's parameters, one per argument that has a parameter.
pub open spec fn parameter_bindings(params: Seq<Identifier>, args: Seq<Value>) -> Seq<(Seq<char>, Value)> {
    let n = if params.len() < args.len() { params.len() } else { args.len() };
    Seq::new(n, |k: int| (params[k].0@, args[k]))
}

/// A built-in function on argument values.
pub open spec fn native_step(fs: Seq<FloatAnswer>, s: State, n: NativeFunctionObject, args: Seq<Value>) -> (State, Result<Value, Fault>) {
    match n {
        NativeFunctionObject::Typeof => (
            s,
            Ok(Value::Str(if args.len() == 0 { Seq::<char>::empty() } else { tag_name(tag_of(args[0])) })),
        ),
        NativeFunctionObject::Print | NativeFunctionObject::Println => {
            let line_end = if n == NativeFunctionObject::Println { "\n"@ } else { Seq::<char>::empty() };
            if args.len() == 0 {
                (State { env: s.env, acts: s.acts.push(Act::Print(line_end)), used: s.used }, Ok(Value::Void))
            } else {
                let (t, k) = text_of(fs, s.used, args[0]);
                (State { env: s.env, acts: s.acts.push(Act::Print(t + line_end)), used: k }, Ok(Value::Void))
            }
        },
        NativeFunctionObject::Sleep => if args.len() == 0 {
            (State { env: s.env, acts: s.acts.push(Act::Sleep(0)), used: s.used }, Ok(Value::Void))
        } else {
            let (t, k) = text_of(fs, s.used, args[0]);
            match decimal_value(t) {
                Some(ms) => if ms <= u64::MAX {
                    (State { env: s.env, acts: s.acts.push(Act::Sleep(ms as u64)), used: k }, Ok(Value::Void))
                } else {
                    (State { env: s.env, acts: s.acts, used: k }, Err(Fault::Type(seq![ObjectType::Integer], tag_of(args[0]))))
                },
                None => (State { env: s.env, acts: s.acts, used: k }, Err(Fault::Type(seq![ObjectType::Integer], tag_of(args[0])))),
            }
        },
    }
}

/// What a statement does: the state after it, and its value with the stop
/// signal or the fault it ends in, reading float results from `fs`. `fuel` bounds the depth of evaluation and the rounds of
/// each loop.
pub open spec fn sem_stmt(fs: Seq<FloatAnswer>, s: State, node: Node, fuel: nat) -> (State, Result<(Value, bool), Fault>)
    decreases fuel, 3int, 0int,
{
    if fuel == 0 {
        (s, Err(Fault::StepLimit))
    } else {
        let f = (fuel - 1) as nat;
        match node {
            Node::BlockStatement(b) => sem_block(fs, s, b, f),
            Node::BreakStatement(_) => (s, Ok((Value::Void, true))),
            Node::ContinueStatement(_) => (s, Ok((Value::Void, true))),
            Node::EmptyStatement(_) => (s, Ok((Value::Void, false))),
            Node::ExpressionStatement(e) => match sem_expr(fs, s, e.0, f) {
                (s2, Err(x)) => (s2, Err(x)),
                (s2, Ok(v)) => (s2, Ok((v, false))),
            },
            Node::IfStatement(st) => sem_if(fs, s, st, f),
            Node::ElseStatement(st) => sem_block(fs, s, *st.0, f),
            Node::ReturnStatement(st) => sem_return(fs, s, st, f),
            Node::WhileStatement(st) => sem_while(fs, s, st, f),
            Node::ForStatement(st) => sem_for(fs, s, st, f),
            Node::Program(_) => (s, Err(Fault::Expression("Statement"@))),
        }
    }
}

/// A block runs its statements in order until one signals a stop.
pub open spec fn sem_block(fs: Seq<FloatAnswer>, s: State, b: BlockStatement, fuel: nat) -> (State, Result<(Value, bool), Fault>)
    decreases fuel, 3int, 0int,
{
    if fuel == 0 {
        if b.0@.len() == 0 {
            (s, Ok((Value::Void, false)))
        } else {
            (s, Err(Fault::StepLimit))
        }
    } else {
        sem_block_from(fs, s, b.0@, 0, fuel, (Value::Void, false))
    }
}

pub open spec fn sem_block_from(fs: Seq<FloatAnswer>, 
    s: State,
    stmts: Seq<Node>,
    i: int,
    fuel: nat,
    acc: (Value, bool),
) -> (State, Result<(Value, bool), Fault>)
    decreases fuel, 2int, stmts.len() - i,
{
    if i >= stmts.len() || fuel == 0 {
        (s, Ok(acc))
    } else {
        match sem_stmt(fs, s, stmts[i], (fuel - 1) as nat) {
            (s2, Err(x)) => (s2, Err(x)),
            (s2, Ok(r)) => if r.1 {
                (s2, Ok(r))
            } else {
                sem_block_from(fs, s2, stmts, i + 1, fuel, r)
            },
        }
    }
}

pub open spec fn sem_if(fs: Seq<FloatAnswer>, s: State, st: IfStatement, fuel: nat) -> (State, Result<(Value, bool), Fault>)
    decreases fuel, 3int, 0int,
{
    if fuel == 0 {
        (s, Err(Fault::StepLimit))
    } else {
        let f = (fuel - 1) as nat;
        match sem_expr(fs, s, st.0, f) {
            (s2, Err(x)) => (s2, Err(x)),
            (s2, Ok(Value::Boolean(holds))) => {
                let scope = s2.env.len() as int;
                let branch = if holds {
                    sem_block(fs, s2, *st.1, f)
                } else {
                    match st.2 {
                        Some(alternative) => sem_stmt(fs, s2, *alternative, f),
                        None => (s2, Ok((Value::Void, false))),
                    }
                };
                match branch {
                    (s3, r) => (leave(s3, scope), r),
                }
            },
            (s2, Ok(other)) => (s2, Err(Fault::Type(seq![ObjectType::Boolean], tag_of(other)))),
        }
    }
}

pub open spec fn sem_while(fs: Seq<FloatAnswer>, s: State, st: WhileStatement, fuel: nat) -> (State, Result<(Value, bool), Fault>)
    decreases fuel, 3int, 0int,
{
    if fuel == 0 {
        (s, Err(Fault::StepLimit))
    } else {
        sem_while_loop(fs, s, st, fuel, fuel, (Value::Void, false), s.env.len() as int)
    }
}

/// The rounds of a `while` loop, at most `budget` more of them.
pub open spec fn sem_while_loop(fs: Seq<FloatAnswer>, 
    s: State,
    st: WhileStatement,
    fuel: nat,
    budget: nat,
    acc: (Value, bool),
    scope: int,
) -> (State, Result<(Value, bool), Fault>)
    decreases fuel, 2int, budget,
{
    if budget == 0 || fuel == 0 {
        (s, Err(Fault::StepLimit))
    } else {
        let f = (fuel - 1) as nat;
        match sem_expr(fs, s, st.0, f) {
            (s2, Err(x)) => (s2, Err(x)),
            (s2, Ok(Value::Boolean(holds))) => if !holds {
                (leave(s2, scope), Ok(acc))
            } else {
                match sem_block(fs, s2, *st.1, f) {
                    (s3, Err(x)) => (s3, Err(x)),
                    (s3, Ok(r)) => if r.1 {
                        (leave(s3, scope), Ok(r))
                    } else {
                        sem_while_loop(fs, s3, st, fuel, (budget - 1) as nat, r, scope)
                    },
                }
            },
            (s2, Ok(other)) => (s2, Err(Fault::Type(seq![ObjectType::Boolean], tag_of(other)))),
        }
    }
}

pub open spec fn sem_for(fs: Seq<FloatAnswer>, s: State, st: ForStatement, fuel: nat) -> (State, Result<(Value, bool), Fault>)
    decreases fuel, 3int, 0int,
{
    if fuel == 0 {
        (s, Err(Fault::StepLimit))
    } else {
        match (st.0, st.1, st.2) {
            (Expression::AssignmentExpr(setter), Expression::BinaryExpr(condition), Expression::AssignmentExpr(step)) => {
                let scope = s.env.len() as int;
                match sem_assign(fs, s, setter, (fuel - 1) as nat) {
                    (s2, Err(x)) => (s2, Err(x)),
                    (s2, Ok(_)) => sem_for_loop(fs, s2, condition, step, *st.3, fuel, fuel, (Value::Void, false), scope),
                }
            },
            _ => (s, Err(Fault::Expression(
                if !(st.0 is AssignmentExpr) {
                    "AssignmentExpr"@
                } else if !(st.1 is BinaryExpr) {
                    "BinaryExpr"@
                } else {
                    "AssignmentExpr"@
                },
            ))),
        }
    }
}

/// The rounds of a `for` loop, at most `budget` more of them.
pub open spec fn sem_for_loop(fs: Seq<FloatAnswer>, 
    s: State,
    condition: BinaryExpression,
    step: Assignment,
    body: BlockStatement,
    fuel: nat,
    budget: nat,
    acc: (Value, bool),
    scope: int,
) -> (State, Result<(Value, bool), Fault>)
    decreases fuel, 2int, budget,
{
    if budget == 0 || fuel == 0 {
        (s, Err(Fault::StepLimit))
    } else {
        let f = (fuel - 1) as nat;
        match sem_binary(fs, s, condition, f) {
            (s2, Err(x)) => (s2, Err(x)),
            (s2, Ok(Value::Boolean(holds))) => if !holds {
                (leave(s2, scope), Ok(acc))
            } else {
                match sem_block(fs, s2, body, f) {
                    (s3, Err(x)) => (s3, Err(x)),
                    (s3, Ok(r)) => if r.1 {
                        (leave(s3, scope), Ok(r))
                    } else {
                        match sem_assign(fs, s3, step, f) {
                            (s4, Err(x)) => (s4, Err(x)),
                            (s4, Ok(_)) => sem_for_loop(fs, s4, condition, step, body, fuel, (budget - 1) as nat, r, scope),
                        }
                    },
                }
            },
            (s2, Ok(other)) => (s2, Err(Fault::Type(seq![ObjectType::Boolean], tag_of(other)))),
        }
    }
}

pub open spec fn sem_return(fs: Seq<FloatAnswer>, s: State, st: ReturnStatement, fuel: nat) -> (State, Result<(Value, bool), Fault>)
    decreases fuel, 3int, 0int,
{
    match st.0 {
        Some(e) => if fuel == 0 {
            (s, Err(Fault::StepLimit))
        } else {
            match sem_expr(fs, s, e, (fuel - 1) as nat) {
                (s2, Err(x)) => (s2, Err(x)),
                (s2, Ok(v)) => (s2, Ok((v, true))),
            }
        },
        None => (s, Ok((Value::Void, true))),
    }
}

/// What an expression does: the state after it and its value or fault.
pub open spec fn sem_expr(fs: Seq<FloatAnswer>, s: State, e: Expression, fuel: nat) -> (State, Result<Value, Fault>)
    decreases fuel, 3int, 0int,
{
    if fuel == 0 {
        (s, Err(Fault::StepLimit))
    } else {
        let f = (fuel - 1) as nat;
        match e {
            Expression::AssignmentExpr(a) => sem_assign(fs, s, a, f),
            Expression::BinaryExpr(b) => sem_binary(fs, s, b, f),
            Expression::BlockExpr(b) => match sem_block(fs, s, b, f) {
                (s2, Err(x)) => (s2, Err(x)),
                (s2, Ok(r)) => (s2, Ok(r.0)),
            },
            Expression::FunctionCallExpr(c) => sem_call(fs, s, c, f),
            Expression::FunctionDeclareExpr(d) => (
                State { env: env_assign(s.env, d.0.0@, Value::Function(d)), acts: s.acts, used: s.used },
                Ok(Value::Void),
            ),
            Expression::GroupExpr(g) => sem_expr(fs, s, *g, f),
            Expression::IdentifierExpr(id) => match find(s.env, id.0@) {
                Some(i) => (s, Ok(s.env[i].1)),
                None => (s, Err(Fault::NotFound(id.0@))),
            },
            Expression::LiteralExpr(l) => (s, Ok(literal_value(l))),
            Expression::UnaryExpr(u) => sem_unary(fs, s, u, f),
        }
    }
}

pub open spec fn sem_assign(fs: Seq<FloatAnswer>, s: State, a: Assignment, fuel: nat) -> (State, Result<Value, Fault>)
    decreases fuel, 3int, 0int,
{
    if fuel == 0 {
        (s, Err(Fault::StepLimit))
    } else {
        match sem_stmt(fs, s, *a.1, (fuel - 1) as nat) {
            (s2, Err(x)) => (s2, Err(x)),
            (s2, Ok(r)) => (State { env: env_assign(s2.env, a.0.0@, r.0), acts: s2.acts, used: s2.used }, Ok(r.0)),
        }
    }
}

pub open spec fn sem_unary(fs: Seq<FloatAnswer>, s: State, u: UnaryExpression, fuel: nat) -> (State, Result<Value, Fault>)
    decreases fuel, 3int, 0int,
{
    if fuel == 0 {
        (s, Err(Fault::StepLimit))
    } else {
        match sem_expr(fs, s, *u.1, (fuel - 1) as nat) {
            (s2, Err(x)) => (s2, Err(x)),
            (s2, Ok(v)) => {
                let (r, k) = unary_value(fs, s2.used, u.0, v);
                (State { env: s2.env, acts: s2.acts, used: k }, r)
            },
        }
    }
}

pub open spec fn sem_binary(fs: Seq<FloatAnswer>, s: State, b: BinaryExpression, fuel: nat) -> (State, Result<Value, Fault>)
    decreases fuel, 3int, 0int,
{
    if fuel == 0 {
        (s, Err(Fault::StepLimit))
    } else {
        let f = (fuel - 1) as nat;
        match sem_expr(fs, s, *b.0, f) {
            (s2, Err(x)) => (s2, Err(x)),
            (s2, Ok(l)) => match sem_expr(fs, s2, *b.2, f) {
                (s3, Err(x)) => (s3, Err(x)),
                (s3, Ok(r)) => match b.1 {
                    Operator::Logical(op) => applied_step(s3, logical_value(fs, s3.used, op, l, r)),
                    Operator::Arithmetic(op) => applied_step(s3, arith_value(fs, s3.used, op, l, r)),
                    Operator::Assignment(_) => (s3, Err(Fault::Expression("BinaryExpression"@))),
                },
            },
        }
    }
}

/// The outcome of applying an operator, with the answers it used.
pub open spec fn applied_step(s: State, applied: (Result<Value, Error>, nat)) -> (State, Result<Value, Fault>) {
    let st = State { env: s.env, acts: s.acts, used: applied.1 };
    match applied.0 {
        Ok(v) => (st, Ok(v)),
        Err(e) => (st, Err(Fault::Operation(e))),
    }
}

/// A call: the callee is looked up first, then the arguments are evaluated
/// left to right.
pub open spec fn sem_call(fs: Seq<FloatAnswer>, s: State, c: FunctionCallExpression, fuel: nat) -> (State, Result<Value, Fault>)
    decreases fuel, 3int, 0int,
{
    if fuel == 0 {
        (s, Err(Fault::StepLimit))
    } else {
        match find(s.env, c.0.0@) {
            None => (s, Err(Fault::NotFound(c.0.0@))),
            Some(i) => {
                let callee = s.env[i].1;
                match sem_args(fs, s, c.1@, 0, fuel, Seq::empty()) {
                    (s2, Err(x)) => (s2, Err(x)),
                    (s2, Ok(args)) => match callee {
                        Value::Function(decl) => {
                            let scope = s2.env.len() as int;
                            let s3 = State { env: s2.env + parameter_bindings(decl.1@, args), acts: s2.acts, used: s2.used };
                            match sem_block(fs, s3, *decl.2, (fuel - 1) as nat) {
                                (s4, Err(x)) => (s4, Err(x)),
                                (s4, Ok(r)) => (leave(s4, scope), Ok(r.0)),
                            }
                        },
                        Value::Native(n) => native_step(fs, s2, n, args),
                        other => (s2, Err(Fault::Type(
                            seq![ObjectType::Function, ObjectType::NativeFunction],
                            tag_of(other),
                        ))),
                    },
                }
            },
        }
    }
}

/// The values of the arguments from index `i` on, after those in `acc`.
pub open spec fn sem_args(fs: Seq<FloatAnswer>, 
    s: State,
    args: Seq<Expression>,
    i: int,
    fuel: nat,
    acc: Seq<Value>,
) -> (State, Result<Seq<Value>, Fault>)
    decreases fuel, 2int, args.len() - i,
{
    if i >= args.len() || fuel == 0 {
        (s, Ok(acc))
    } else {
        match sem_expr(fs, s, args[i], (fuel - 1) as nat) {
            (s2, Err(x)) => (s2, Err(x)),
            (s2, Ok(v)) => sem_args(fs, s2, args, i + 1, fuel, acc.push(v)),
        }
    }
}

/// A whole program: its statements in order until one signals a stop or
/// fails; the program's own bindings are dropped at the end.
pub open spec fn sem_program(fs: Seq<FloatAnswer>, 
    s: State,
    stmts: Seq<Node>,
    i: int,
    steps: nat,
    acc: Value,
    scope: int,
) -> (State, Result<Value, Fault>)
    decreases stmts.len() - i,
{
    if i >= stmts.len() {
        (leave(s, scope), Ok(acc))
    } else {
        match sem_stmt(fs, s, stmts[i], steps) {
            (s2, Err(x)) => (leave(s2, scope), Err(x)),
            (s2, Ok(r)) => if r.1 {
                (leave(s2, scope), Ok(r.0))
            } else {
                sem_program(fs, s2, stmts, i + 1, steps, r.0, scope)
            },
        }
    }
}

} // verus!
