use vstd::prelude::*;
use crate::ast::{
    ArithmeticOperator, Assignment, BinaryExpression, BlockStatement, Expression, ForStatement,
    FunctionCallExpression, FunctionDeclareExpression, Identifier, IfStatement, Literal,
    LogicalOperator, Node, Operator, ReturnStatement, UnaryExpression, WhileStatement,
};
use crate::environment::Environment;
use crate::errors::EvaluatorError;
use crate::object::{tag_name_string, FloatArith, NativeFunctionObject, Object, ObjectType};
use crate::text::chars_of;
use crate::semantics::{
    act_of, acts_of, answers_at, values_of, prefix, FloatAnswer, env_assign, lemma_value_views, lemma_prefix_trans, env_of, fault_of, find, leave, 
    literal_value, native_step, parameter_bindings, sem_args, sem_assign, sem_binary, sem_block,
    sem_block_from, sem_call, sem_expr, sem_for, sem_for_loop, sem_if, sem_program, sem_return,
    sem_stmt, sem_unary, sem_while, sem_while_loop, value_of, Fault, State, Value,
};
use crate::lexer::{all_digits, digits_value, lemma_prefix_value_grows};

verus! {

/// What a program asks of its host: text written to standard output, or a
/// pause of some milliseconds. The host performs them in order.
#[derive(Clone, Debug, PartialEq)]
pub enum HostAction {
    Print(String),
    Sleep(u64),
}

/// The value of a statement, and whether the enclosing block must stop
/// (a `return`, `break` or `continue` was reached).
pub type StatementResult<'a> = Result<(Object<'a>, bool), EvaluatorError>;

pub type EvaluatorResult<'a> = Result<Object<'a>, EvaluatorError>;

/// The digits of a count, after an optional leading `+`.
pub open spec fn count_digits(s: Seq<char>) -> Seq<char> {
    if s.len() > 0 && s[0] == '+' {
        s.drop_first()
    } else {
        s
    }
}

/// The natural number that a text spells, as `u64`'s parser reads it: ASCII
/// digits after an optional leading `+`.
pub open spec fn decimal_value(s: Seq<char>) -> Option<int> {
    let d = count_digits(s);
    if d.len() > 0 && all_digits(d) {
        Some(digits_value(d))
    } else {
        None
    }
}

/// The 64-bit count that a text spells.
pub fn parse_count(text: &str) -> (r: Option<u64>)
    ensures
        r matches Some(v) ==> decimal_value(text@) == Some(v as int),
        r is None ==> decimal_value(text@) is None || decimal_value(text@)->0 > u64::MAX,
{
    let chars = chars_of(text);
    let n = chars.len();
    let start: usize = if n > 0 && chars[0] == '+' { 1 } else { 0 };
    let ghost d = count_digits(text@);
    assert(d =~= chars@.subrange(start as int, n as int));
    if start >= n {
        return None;
    }
    let mut i: usize = start;
    let mut value: u64 = 0;
    while i < n
        invariant
            chars@ == text@,
            n == chars@.len(),
            start <= i <= n,
            d == chars@.subrange(start as int, n as int),
            d == count_digits(text@),
            all_digits(d.subrange(0, i - start)),
            value as int == digits_value(d.subrange(0, i - start)),
        decreases n - i,
    {
        let c = chars[i];
        assert(d.subrange(0, i + 1 - start).drop_last() =~= d.subrange(0, i - start));
        assert(d[i - start] == c);
        if c < '0' || c > '9' {
            assert(!all_digits(d)) by {
                assert(d[i - start] == c);
            }
            return None;
        }
        assert(all_digits(d.subrange(0, i + 1 - start))) by {
            assert forall|k: int| 0 <= k < i + 1 - start implies '0' <= #[trigger] d.subrange(0, i + 1 - start)[k]
                && d.subrange(0, i + 1 - start)[k] <= '9' by {
                if k < i - start {
                    assert(d.subrange(0, i + 1 - start)[k] == d.subrange(0, i - start)[k]);
                }
            }
        }
        let digit = (c as u64) - ('0' as u64);
        if value > (u64::MAX - digit) / 10 {
            proof {
                assert(digits_value(d.subrange(0, i + 1 - start)) == value * 10 + digit);
                if all_digits(d) {
                    lemma_prefix_value_grows(d, i + 1 - start);
                }
                assert(value * 10 + digit > u64::MAX) by (nonlinear_arith)
                    requires value > (u64::MAX - digit) / 10, digit <= 9;
            }
            return None;
        }
        assert(value * 10 + digit <= u64::MAX) by (nonlinear_arith)
            requires value <= (u64::MAX - digit) / 10, digit <= 9;
        value = value * 10 + digit;
        i = i + 1;
    }
    assert(d.subrange(0, n - start) =~= d);
    Some(value)
}

/// Where the host learns of each request as the program makes it, so that
/// output appears and pauses happen while the program runs. The evaluator
/// also records every request in `Evaluator::actions`.
pub trait Host {
    fn perform(&mut self, action: &HostAction);
}

/// A statement's outcome as the semantics sees it.
pub open spec fn stmt_outcome<'a>(r: StatementResult<'a>) -> Result<(Value, bool), Fault> {
    match r {
        Ok((o, stop)) => Ok((value_of(o), stop)),
        Err(e) => Err(fault_of(e)),
    }
}

/// An expression's outcome as the semantics sees it.
pub open spec fn expr_outcome<'a>(r: EvaluatorResult<'a>) -> Result<Value, Fault> {
    match r {
        Ok(o) => Ok(value_of(o)),
        Err(e) => Err(fault_of(e)),
    }
}

/// A list of one expected type.
fn types_one(a: ObjectType) -> (r: Vec<ObjectType>)
    ensures
        r@ == seq![a],
{
    let mut v = Vec::new();
    v.push(a);
    assert(v@ =~= seq![a]);
    v
}

/// A list of two expected types.
fn types_two(a: ObjectType, b: ObjectType) -> (r: Vec<ObjectType>)
    ensures
        r@ == seq![a, b],
{
    let mut v = Vec::new();
    v.push(a);
    v.push(b);
    assert(v@ =~= seq![a, b]);
    v
}

/// Walks a program tree, keeping variables in a stack-shaped environment.
pub struct Evaluator<'a> {
    pub env: Environment<'a>,
    pub ast: &'a Vec<Node>,
    /// What the program has asked of the host so far.
    pub actions: Vec<HostAction>,
    /// The answers the float arithmetic has given so far, in order.
    pub floats: Ghost<Seq<FloatAnswer>>,
}

/// The names the built-in functions are bound under.
pub open spec fn builtin_names() -> Seq<Seq<char>> {
    seq!["__fc_print"@, "__fc_println"@, "__fc_typeof"@, "__fc_sleep"@]
}

impl<'a> Evaluator<'a> {
    pub fn with_env(ast: &'a Vec<Node>, env: Environment<'a>) -> (r: Evaluator<'a>)
        ensures
            r.env == env,
            r.ast == ast,
            r.actions@.len() == 0,
            r.floats@.len() == 0,
    {
        Evaluator { env, ast, actions: Vec::new(), floats: Ghost(Seq::empty()) }
    }

    /// An evaluator whose environment holds the built-in functions.
    pub fn new(ast: &'a Vec<Node>) -> (r: Evaluator<'a>)
        ensures
            r.ast == ast,
            r.actions@.len() == 0,
            r.env@.len() == 4,
            r.floats@.len() == 0,
            forall|i: int| 0 <= i < 4 ==> (#[trigger] r.env@[i]).0@ == builtin_names()[i],
            r.env@[0].1 == Object::<'a>::NativeFunction(NativeFunctionObject::Print),
            r.env@[1].1 == Object::<'a>::NativeFunction(NativeFunctionObject::Println),
            r.env@[2].1 == Object::<'a>::NativeFunction(NativeFunctionObject::Typeof),
            r.env@[3].1 == Object::<'a>::NativeFunction(NativeFunctionObject::Sleep),
    {
        let mut env: Environment<'a> = Environment::new();
        env.bind(&String::from_str("__fc_print"), Object::NativeFunction(NativeFunctionObject::Print));
        env.bind(&String::from_str("__fc_println"), Object::NativeFunction(NativeFunctionObject::Println));
        env.bind(&String::from_str("__fc_typeof"), Object::NativeFunction(NativeFunctionObject::Typeof));
        env.bind(&String::from_str("__fc_sleep"), Object::NativeFunction(NativeFunctionObject::Sleep));
        Self::with_env(ast, env)
    }

    /// Everything `before` had is still here: the environment is no shorter
    /// and the host actions asked for so far are kept, in order.
    pub open spec fn extends(&self, before: &Evaluator<'a>) -> bool {
        &&& self.ast == before.ast
        &&& self.env@.len() >= before.env@.len()
        &&& self.actions@.len() >= before.actions@.len()
        &&& forall|i: int| 0 <= i < before.actions@.len() ==> #[trigger] self.actions@[i] == before.actions@[i]
        &&& prefix(before.floats@, self.floats@)
    }

    /// The environment and host requests, as the semantics sees them.
    pub open spec fn state(&self) -> State {
        State { env: env_of(self.env@), acts: acts_of(self.actions@), used: self.floats@.len() }
    }

    /// For every answer stream that begins with the answers this evaluator
    /// was given, it is in the state the semantics reaches and `r` is the
    /// semantics' outcome.
    pub open spec fn agrees_stmt(&self, fs: Seq<FloatAnswer>, sem: (State, Result<(Value, bool), Fault>), r: StatementResult<'a>) -> bool {
        prefix(self.floats@, fs) ==> self.state() == sem.0 && stmt_outcome(r) == sem.1
    }

    /// As `agrees_stmt`, for an expression.
    pub open spec fn agrees_expr(&self, fs: Seq<FloatAnswer>, sem: (State, Result<Value, Fault>), r: EvaluatorResult<'a>) -> bool {
        prefix(self.floats@, fs) ==> self.state() == sem.0 && expr_outcome(r) == sem.1
    }

    /// Runs the program. Bindings made by the program are dropped at the end,
    /// so the environment is as long afterwards as before; an empty program
    /// yields `Void`. The state reached and the outcome are those that
    /// `sem_program` gives, reading float results from the answers `F` gave
    /// (recorded in `floats`) or from any stream that begins with them.
    pub fn eval<F: FloatArith, H: Host>(&mut self, host: &mut H) -> (r: EvaluatorResult<'a>)
        ensures
            final(self).extends(old(self)),
            final(self).env@.len() == old(self).env@.len(),
            old(self).ast@.len() == 0 ==> r == Ok::<Object<'a>, EvaluatorError>(Object::Void),
            forall|fs: Seq<FloatAnswer>| #![trigger prefix(final(self).floats@, fs)] final(self).agrees_expr(fs, sem_program(fs, old(self).state(), old(self).ast@, 0, u64::MAX as nat, Value::Void, old(self).env@.len() as int), r),
    {
        self.eval_with_limit::<F, H>(host, u64::MAX)
    }

    /// Runs the program, giving up with `StepLimit` where a loop runs more
    /// than `steps` rounds or calls nest deeper than `steps`.
    pub fn eval_with_limit<F: FloatArith, H: Host>(&mut self, host: &mut H, steps: u64) -> (r: EvaluatorResult<'a>)
        ensures
            final(self).extends(old(self)),
            final(self).env@.len() == old(self).env@.len(),
            old(self).ast@.len() == 0 ==> r == Ok::<Object<'a>, EvaluatorError>(Object::Void),
            forall|fs: Seq<FloatAnswer>| #![trigger prefix(final(self).floats@, fs)] final(self).agrees_expr(fs, sem_program(fs, old(self).state(), old(self).ast@, 0, steps as nat, Value::Void, old(self).env@.len() as int), r),
    {
        let scope = self.new_scope();
        let ast = self.ast;
        let ghost s0 = self.state();

        let mut result: Object<'a> = Object::Void;
        let mut i: usize = 0;
        while i < ast.len()
            invariant
                self.extends(old(self)),
                self.ast == ast,
                scope == old(self).env@.len(),
                i <= ast@.len(),
                ast@.len() == 0 ==> result == Object::<'a>::Void,
                ast@ == old(self).ast@,
                s0 == old(self).state(),
                forall|fs: Seq<FloatAnswer>| #![trigger prefix(self.floats@, fs)]
                    prefix(self.floats@, fs) ==> sem_program(fs, s0, ast@, 0, steps as nat, Value::Void, scope as int)
                        == sem_program(fs, self.state(), ast@, i as int, steps as nat, value_of(result), scope as int),
            decreases ast@.len() - i,
        {
            let ghost before = self.floats@;
            let ghost sb = self.state();
            let ghost acc = value_of(result);
            let step = self.eval_statement::<F, H>(host, &ast[i], steps);
            proof {
                assert forall|fs: Seq<FloatAnswer>| #[trigger] prefix(self.floats@, fs) implies
                    sem_program(fs, s0, ast@, 0, steps as nat, Value::Void, scope as int)
                        == sem_program(fs, sb, ast@, i as int, steps as nat, acc, scope as int)
                    && self.agrees_stmt(fs, sem_stmt(fs, sb, ast@[i as int], steps as nat), step) by {
                    lemma_prefix_trans(before, self.floats@, fs);
                }
            }
            match step {
                Ok((value, stop)) => {
                    result = value;
                    if stop {
                        self.destroy_scope(scope);
                        return Ok(result);
                    }
                },
                Err(e) => {
                    self.destroy_scope(scope);
                    return Err(e);
                },
            }
            i = i + 1;
        }
        self.destroy_scope(scope);
        Ok(result)
    }

    /// Notes the answers the float arithmetic just gave.
    fn record(&mut self, ans: Ghost<Seq<FloatAnswer>>)
        ensures
            final(self).env == old(self).env,
            final(self).ast == old(self).ast,
            final(self).actions == old(self).actions,
            final(self).floats@ == old(self).floats@ + ans@,
            final(self).extends(old(self)),
            forall|fs: Seq<FloatAnswer>| #[trigger] prefix(final(self).floats@, fs)
                ==> answers_at(fs, old(self).floats@.len(), ans@) && prefix(old(self).floats@, fs),
    {
        self.floats = Ghost(self.floats@ + ans@);
        proof {
            assert forall|fs: Seq<FloatAnswer>| #[trigger] prefix(self.floats@, fs) implies
                answers_at(fs, old(self).floats@.len(), ans@) && prefix(old(self).floats@, fs) by {
                assert forall|j: int| 0 <= j < ans@.len() implies #[trigger] fs[old(self).floats@.len() + j] == ans@[j] by {
                    assert(self.floats@[old(self).floats@.len() + j] == ans@[j]);
                }
                assert forall|i: int| 0 <= i < old(self).floats@.len() implies #[trigger] old(self).floats@[i] == fs[i] by {
                    assert(self.floats@[i] == old(self).floats@[i]);
                }
            }
            assert forall|i: int| 0 <= i < old(self).floats@.len() implies #[trigger] old(self).floats@[i] == self.floats@[i] by {
            }
        }
    }

    fn new_scope(&self) -> (r: usize)
        ensures
            r == self.env@.len(),
            r == self.state().env.len(),
    {
        self.env.size()
    }

    fn destroy_scope(&mut self, size: usize)
        requires
            size <= old(self).env@.len(),
        ensures
            final(self).env@ == old(self).env@.subrange(0, size as int),
            final(self).ast == old(self).ast,
            final(self).actions == old(self).actions,
            final(self).floats == old(self).floats,
            final(self).state() == leave(old(self).state(), size as int),
    {
        self.env.truncate(size);
    }

    fn eval_statement<F: FloatArith, H: Host>(&mut self, host: &mut H, node: &'a Node, fuel: u64) -> (r: StatementResult<'a>)
        ensures
            final(self).extends(old(self)),
            forall|fs: Seq<FloatAnswer>| #![trigger prefix(final(self).floats@, fs)] final(self).agrees_stmt(fs, sem_stmt(fs, old(self).state(), *node, fuel as nat), r),
        decreases fuel,
    {
        if fuel == 0 {
            return Err(EvaluatorError::StepLimit);
        }
        match node {
            Node::BlockStatement(block) => self.eval_block::<F, H>(host, block, fuel - 1),
            Node::BreakStatement(_) => Ok((Object::Void, true)),
            Node::ContinueStatement(_) => Ok((Object::Void, true)),
            Node::EmptyStatement(_) => Ok((Object::Void, false)),
            Node::ExpressionStatement(statement) => {
                let value = self.eval_expression::<F, H>(host, &statement.0, fuel - 1)?;
                Ok((value, false))
            },
            Node::IfStatement(statement) => self.eval_if::<F, H>(host, statement, fuel - 1),
            Node::ElseStatement(statement) => self.eval_block::<F, H>(host, &statement.0, fuel - 1),
            Node::ReturnStatement(statement) => self.eval_return::<F, H>(host, statement, fuel - 1),
            Node::WhileStatement(statement) => self.eval_while::<F, H>(host, statement, fuel - 1),
            Node::ForStatement(statement) => self.eval_for::<F, H>(host, statement, fuel - 1),
            Node::Program(_) => Err(EvaluatorError::InvalidExpression { expected: String::from_str("Statement") }),
        }
    }

    /// Runs the statements in order; the first that signals a stop ends the
    /// block, and its value and signal are the block's.
    fn eval_block<F: FloatArith, H: Host>(&mut self, host: &mut H, block: &'a BlockStatement, fuel: u64) -> (r: StatementResult<'a>)
        ensures
            final(self).extends(old(self)),
            block.0@.len() == 0 ==> r == Ok::<(Object<'a>, bool), EvaluatorError>((Object::Void, false)),
            forall|fs: Seq<FloatAnswer>| #![trigger prefix(final(self).floats@, fs)] final(self).agrees_stmt(fs, sem_block(fs, old(self).state(), *block, fuel as nat), r),
        decreases fuel,
    {
        if fuel == 0 {
            if block.0.len() == 0 {
                return Ok((Object::Void, false));
            }
            return Err(EvaluatorError::StepLimit);
        }
        let ghost s0 = self.state();
        let mut result: (Object<'a>, bool) = (Object::Void, false);
        let mut i: usize = 0;
        while i < block.0.len()
            invariant
                self.extends(old(self)),
                i <= block.0@.len(),
                block.0@.len() == 0 ==> result == (Object::<'a>::Void, false),
                fuel > 0,
                s0 == old(self).state(),
                forall|fs: Seq<FloatAnswer>| #![trigger prefix(self.floats@, fs)]
                    prefix(self.floats@, fs) ==> sem_block(fs, s0, *block, fuel as nat)
                        == sem_block_from(fs, self.state(), block.0@, i as int, fuel as nat, (value_of(result.0), result.1)),
            decreases block.0@.len() - i,
        {
            let ghost before = self.floats@;
            let ghost sb = self.state();
            let ghost acc = (value_of(result.0), result.1);
            let step = self.eval_statement::<F, H>(host, &block.0[i], fuel - 1);
            proof {
                assert forall|fs: Seq<FloatAnswer>| #[trigger] prefix(self.floats@, fs) implies
                    sem_block(fs, s0, *block, fuel as nat)
                        == sem_block_from(fs, sb, block.0@, i as int, fuel as nat, acc)
                    && self.agrees_stmt(fs, sem_stmt(fs, sb, block.0@[i as int], (fuel - 1) as nat), step) by {
                    lemma_prefix_trans(before, self.floats@, fs);
                }
            }
            match step {
                Ok(v) => {
                    result = v;
                },
                Err(e) => {
                    return Err(e);
                },
            }
            if result.1 {
                return Ok(result);
            }
            i = i + 1;
        }
        Ok(result)
    }

    fn eval_if<F: FloatArith, H: Host>(&mut self, host: &mut H, statement: &'a IfStatement, fuel: u64) -> (r: StatementResult<'a>)
        ensures
            final(self).extends(old(self)),
            forall|fs: Seq<FloatAnswer>| #![trigger prefix(final(self).floats@, fs)] final(self).agrees_stmt(fs, sem_if(fs, old(self).state(), *statement, fuel as nat), r),
        decreases fuel,
    {
        if fuel == 0 {
            return Err(EvaluatorError::StepLimit);
        }
        let condition = self.eval_expression::<F, H>(host, &statement.0, fuel - 1)?;
        let ghost f1 = self.floats@;
        match condition {
            Object::Boolean(holds) => {
                let scope = self.new_scope();
                let result = if holds {
                    self.eval_block::<F, H>(host, &statement.1, fuel - 1)
                } else {
                    match &statement.2 {
                        Some(alternative) => self.eval_statement::<F, H>(host, alternative, fuel - 1),
                        None => Ok((Object::Void, false)),
                    }
                };
                self.destroy_scope(scope);
                proof {
                    assert forall|fs: Seq<FloatAnswer>| #[trigger] prefix(self.floats@, fs) implies
                        self.agrees_stmt(fs, sem_if(fs, old(self).state(), *statement, fuel as nat), result) by {
                        lemma_prefix_trans(f1, self.floats@, fs);
                    }
                }
                result
            },
            other => Err(EvaluatorError::InvalidType { expected: types_one(ObjectType::Boolean), found: other.get_type() }),
        }
    }

    /// The loop's scope stays open across rounds and is left at the end.
    fn eval_while<F: FloatArith, H: Host>(&mut self, host: &mut H, statement: &'a WhileStatement, fuel: u64) -> (r: StatementResult<'a>)
        ensures
            final(self).extends(old(self)),
            forall|fs: Seq<FloatAnswer>| #![trigger prefix(final(self).floats@, fs)] final(self).agrees_stmt(fs, sem_while(fs, old(self).state(), *statement, fuel as nat), r),
        decreases fuel,
    {
        if fuel == 0 {
            return Err(EvaluatorError::StepLimit);
        }
        let scope = self.new_scope();
        let ghost s0 = self.state();
        let mut result: (Object<'a>, bool) = (Object::Void, false);
        let mut budget: u64 = fuel;
        loop
            invariant
                self.extends(old(self)),
                scope == old(self).env@.len(),
                fuel > 0,
                s0 == old(self).state(),
                forall|fs: Seq<FloatAnswer>| #![trigger prefix(self.floats@, fs)]
                    prefix(self.floats@, fs) ==> sem_while(fs, s0, *statement, fuel as nat) == sem_while_loop(
                        fs, self.state(), *statement, fuel as nat, budget as nat, (value_of(result.0), result.1), scope as int),
            decreases budget,
        {
            if budget == 0 {
                return Err(EvaluatorError::StepLimit);
            }
            let ghost f0 = self.floats@;
            let ghost sb = self.state();
            let ghost acc = (value_of(result.0), result.1);
            let cond = self.eval_expression::<F, H>(host, &statement.0, fuel - 1);
            let ghost f1 = self.floats@;
            let ghost s1 = self.state();
            proof {
                assert forall|fs: Seq<FloatAnswer>| #[trigger] prefix(self.floats@, fs) implies
                    sem_while(fs, s0, *statement, fuel as nat) == sem_while_loop(
                        fs, sb, *statement, fuel as nat, budget as nat, acc, scope as int)
                    && self.agrees_expr(fs, sem_expr(fs, sb, statement.0, (fuel - 1) as nat), cond) by {
                    lemma_prefix_trans(f0, self.floats@, fs);
                }
            }
            let condition = match cond {
                Ok(c) => c,
                Err(e) => {
                    return Err(e);
                },
            };
            let holds = match condition {
                Object::Boolean(b) => b,
                other => {
                    return Err(EvaluatorError::InvalidType { expected: types_one(ObjectType::Boolean), found: other.get_type() });
                },
            };
            if !holds {
                self.destroy_scope(scope);
                return Ok(result);
            }
            let body = self.eval_block::<F, H>(host, &statement.1, fuel - 1);
            proof {
                assert forall|fs: Seq<FloatAnswer>| #[trigger] prefix(self.floats@, fs) implies
                    sem_while(fs, s0, *statement, fuel as nat) == sem_while_loop(
                        fs, sb, *statement, fuel as nat, budget as nat, acc, scope as int)
                    && sem_expr(fs, sb, statement.0, (fuel - 1) as nat) == (s1, Ok::<Value, Fault>(Value::Boolean(holds)))
                    && self.agrees_stmt(fs, sem_block(fs, s1, *statement.1, (fuel - 1) as nat), body) by {
                    lemma_prefix_trans(f1, self.floats@, fs);
                    lemma_prefix_trans(f0, f1, fs);
                }
            }
            result = match body {
                Ok(v) => v,
                Err(e) => {
                    return Err(e);
                },
            };
            if result.1 {
                self.destroy_scope(scope);
                return Ok(result);
            }
            budget = budget - 1;
        }
    }

    fn eval_for<F: FloatArith, H: Host>(&mut self, host: &mut H, statement: &'a ForStatement, fuel: u64) -> (r: StatementResult<'a>)
        ensures
            final(self).extends(old(self)),
            forall|fs: Seq<FloatAnswer>| #![trigger prefix(final(self).floats@, fs)] final(self).agrees_stmt(fs, sem_for(fs, old(self).state(), *statement, fuel as nat), r),
        decreases fuel,
    {
        if fuel == 0 {
            return Err(EvaluatorError::StepLimit);
        }
        let setter = match &statement.0 {
            Expression::AssignmentExpr(setter) => setter,
            _ => {
                return Err(EvaluatorError::InvalidExpression { expected: String::from_str("AssignmentExpr") });
            },
        };
        let condition = match &statement.1 {
            Expression::BinaryExpr(condition) => condition,
            _ => {
                return Err(EvaluatorError::InvalidExpression { expected: String::from_str("BinaryExpr") });
            },
        };
        let step = match &statement.2 {
            Expression::AssignmentExpr(step) => step,
            _ => {
                return Err(EvaluatorError::InvalidExpression { expected: String::from_str("AssignmentExpr") });
            },
        };
        let scope = self.new_scope();
        let ghost s0 = self.state();
        let mut result: (Object<'a>, bool) = (Object::Void, false);
        self.eval_assignment_expression::<F, H>(host, setter, fuel - 1)?;
        let mut budget: u64 = fuel;
        loop
            invariant
                self.extends(old(self)),
                scope == old(self).env@.len(),
                fuel > 0,
                s0 == old(self).state(),
                forall|fs: Seq<FloatAnswer>| #![trigger prefix(self.floats@, fs)]
                    prefix(self.floats@, fs) ==> sem_for(fs, s0, *statement, fuel as nat) == sem_for_loop(
                        fs, self.state(), *condition, *step, *statement.3, fuel as nat, budget as nat,
                        (value_of(result.0), result.1), scope as int),
            decreases budget,
        {
            if budget == 0 {
                return Err(EvaluatorError::StepLimit);
            }
            let ghost f0 = self.floats@;
            let ghost sb = self.state();
            let ghost acc = (value_of(result.0), result.1);
            let cond = self.eval_binary_expression::<F, H>(host, condition, fuel - 1);
            let ghost f1 = self.floats@;
            let ghost s1 = self.state();
            proof {
                assert forall|fs: Seq<FloatAnswer>| #[trigger] prefix(self.floats@, fs) implies
                    sem_for(fs, s0, *statement, fuel as nat) == sem_for_loop(
                        fs, sb, *condition, *step, *statement.3, fuel as nat, budget as nat, acc, scope as int)
                    && self.agrees_expr(fs, sem_binary(fs, sb, *condition, (fuel - 1) as nat), cond) by {
                    lemma_prefix_trans(f0, self.floats@, fs);
                }
            }
            let holds = match cond {
                Ok(Object::Boolean(b)) => b,
                Ok(other) => {
                    return Err(EvaluatorError::InvalidType { expected: types_one(ObjectType::Boolean), found: other.get_type() });
                },
                Err(e) => {
                    return Err(e);
                },
            };
            if !holds {
                self.destroy_scope(scope);
                return Ok(result);
            }
            let body = self.eval_block::<F, H>(host, &statement.3, fuel - 1);
            let ghost f2 = self.floats@;
            let ghost s2 = self.state();
            proof {
                assert forall|fs: Seq<FloatAnswer>| #[trigger] prefix(self.floats@, fs) implies
                    sem_for(fs, s0, *statement, fuel as nat) == sem_for_loop(
                        fs, sb, *condition, *step, *statement.3, fuel as nat, budget as nat, acc, scope as int)
                    && sem_binary(fs, sb, *condition, (fuel - 1) as nat) == (s1, Ok::<Value, Fault>(Value::Boolean(holds)))
                    && self.agrees_stmt(fs, sem_block(fs, s1, *statement.3, (fuel - 1) as nat), body) by {
                    lemma_prefix_trans(f1, self.floats@, fs);
                    lemma_prefix_trans(f0, f1, fs);
                }
            }
            result = match body {
                Ok(v) => v,
                Err(e) => {
                    return Err(e);
                },
            };
            if result.1 {
                self.destroy_scope(scope);
                return Ok(result);
            }
            let stepped = self.eval_assignment_expression::<F, H>(host, step, fuel - 1);
            proof {
                assert forall|fs: Seq<FloatAnswer>| #[trigger] prefix(self.floats@, fs) implies
                    sem_for(fs, s0, *statement, fuel as nat) == sem_for_loop(
                        fs, sb, *condition, *step, *statement.3, fuel as nat, budget as nat, acc, scope as int)
                    && sem_binary(fs, sb, *condition, (fuel - 1) as nat) == (s1, Ok::<Value, Fault>(Value::Boolean(holds)))
                    && sem_block(fs, s1, *statement.3, (fuel - 1) as nat) == (s2, Ok::<(Value, bool), Fault>((value_of(result.0), result.1)))
                    && self.agrees_expr(fs, sem_assign(fs, s2, *step, (fuel - 1) as nat), stepped) by {
                    lemma_prefix_trans(f2, self.floats@, fs);
                    lemma_prefix_trans(f1, f2, fs);
                    lemma_prefix_trans(f0, f1, fs);
                }
            }
            match stepped {
                Ok(_) => {},
                Err(e) => {
                    return Err(e);
                },
            }
            budget = budget - 1;
        }
    }

    fn eval_return<F: FloatArith, H: Host>(&mut self, host: &mut H, statement: &'a ReturnStatement, fuel: u64) -> (r: StatementResult<'a>)
        ensures
            final(self).extends(old(self)),
            r matches Ok(v) ==> v.1,
            statement.0 is None ==> r == Ok::<(Object<'a>, bool), EvaluatorError>((Object::Void, true)),
            forall|fs: Seq<FloatAnswer>| #![trigger prefix(final(self).floats@, fs)] final(self).agrees_stmt(fs, sem_return(fs, old(self).state(), *statement, fuel as nat), r),
        decreases fuel,
    {
        match &statement.0 {
            Some(expression) => {
                if fuel == 0 {
                    return Err(EvaluatorError::StepLimit);
                }
                let value = self.eval_expression::<F, H>(host, expression, fuel - 1)?;
                Ok((value, true))
            },
            None => Ok((Object::Void, true)),
        }
    }

    fn eval_expression<F: FloatArith, H: Host>(&mut self, host: &mut H, expression: &'a Expression, fuel: u64) -> (r: EvaluatorResult<'a>)
        ensures
            final(self).extends(old(self)),
            forall|fs: Seq<FloatAnswer>| #![trigger prefix(final(self).floats@, fs)] final(self).agrees_expr(fs, sem_expr(fs, old(self).state(), *expression, fuel as nat), r),
        decreases fuel,
    {
        if fuel == 0 {
            return Err(EvaluatorError::StepLimit);
        }
        match expression {
            Expression::AssignmentExpr(e) => self.eval_assignment_expression::<F, H>(host, e, fuel - 1),
            Expression::BinaryExpr(e) => self.eval_binary_expression::<F, H>(host, e, fuel - 1),
            Expression::BlockExpr(e) => {
                let (value, _) = self.eval_block::<F, H>(host, e, fuel - 1)?;
                Ok(value)
            },
            Expression::FunctionCallExpr(e) => self.eval_func_call_expression::<F, H>(host, e, fuel - 1),
            Expression::FunctionDeclareExpr(e) => Ok(self.eval_func_declare_expression(e)),
            Expression::GroupExpr(e) => self.eval_expression::<F, H>(host, e, fuel - 1),
            Expression::IdentifierExpr(e) => self.eval_identifier(e),
            Expression::LiteralExpr(e) => Ok(self.eval_literal(e)),
            Expression::UnaryExpr(e) => self.eval_unary_expression::<F, H>(host, e, fuel - 1),
        }
    }

    /// Calls a function: a user function runs its body in a fresh scope with
    /// each parameter bound to the argument at the same place (arguments
    /// beyond the parameters are dropped); a built-in gets the argument values.
    fn eval_func_call_expression<F: FloatArith, H: Host>(&mut self, host: &mut H,
        expression: &'a FunctionCallExpression,
        fuel: u64,
    ) -> (r: EvaluatorResult<'a>)
        ensures
            final(self).extends(old(self)),
            forall|fs: Seq<FloatAnswer>| #![trigger prefix(final(self).floats@, fs)] final(self).agrees_expr(fs, sem_call(fs, old(self).state(), *expression, fuel as nat), r),
        decreases fuel,
    {
        if fuel == 0 {
            return Err(EvaluatorError::StepLimit);
        }
        let callee = match self.env.get(&expression.0.0) {
            Some(object) => object.duplicate(),
            None => {
                return Err(EvaluatorError::ObjectNotFound { name: expression.0.0.clone() });
            },
        };
        let ghost s0 = self.state();
        let mut arguments: Vec<Object<'a>> = Vec::new();
        assert(values_of(arguments@) =~= Seq::<Value>::empty());
        let mut i: usize = 0;
        while i < expression.1.len()
            invariant
                self.extends(old(self)),
                i <= expression.1@.len(),
                fuel > 0,
                arguments@.len() == i,
                find(old(self).state().env, expression.0.0@) is Some,
                s0 == old(self).state(),
                forall|fs: Seq<FloatAnswer>| #![trigger prefix(self.floats@, fs)]
                    prefix(self.floats@, fs) ==> sem_args(fs, s0, expression.1@, 0, fuel as nat, Seq::empty()) == sem_args(
                        fs, self.state(), expression.1@, i as int, fuel as nat, values_of(arguments@)),
            decreases expression.1@.len() - i,
        {
            let ghost fb = self.floats@;
            let ghost sb = self.state();
            let ghost before = arguments@;
            let evaluated = self.eval_expression::<F, H>(host, &expression.1[i], fuel - 1);
            proof {
                assert forall|fs: Seq<FloatAnswer>| #[trigger] prefix(self.floats@, fs) implies
                    sem_args(fs, s0, expression.1@, 0, fuel as nat, Seq::empty())
                        == sem_args(fs, sb, expression.1@, i as int, fuel as nat, values_of(before))
                    && self.agrees_expr(fs, sem_expr(fs, sb, expression.1@[i as int], (fuel - 1) as nat), evaluated) by {
                    lemma_prefix_trans(fb, self.floats@, fs);
                }
            }
            let value = match evaluated {
                Ok(v) => v,
                Err(e) => {
                    return Err(e);
                },
            };
            arguments.push(value);
            proof {
                assert(values_of(arguments@)
                    =~= values_of(before).push(value_of(value)));
            }
            i = i + 1;
        }
        let ghost values = values_of(arguments@);
        let ghost fa = self.floats@;
        match callee {
            Object::Function(function) => {
                let scope = self.new_scope();
                let ghost base = self.state().env;
                let ghost acts0 = self.state().acts;
                let ghost floats0 = self.floats@;
                let mut k: usize = 0;
                assert(base =~= base + Seq::new(0, |j: int| (function.1@[j].0@, values[j])));
                while k < arguments.len() && k < function.1.len()
                    invariant
                        self.extends(old(self)),
                        scope >= old(self).env@.len(),
                        scope == base.len(),
                        self.env@.len() >= scope,
                        fuel > 0,
                        k <= arguments@.len(),
                        k <= function.1@.len(),
                        values == values_of(arguments@),
                        self.state().env == base + Seq::new(k as nat, |j: int| (function.1@[j].0@, values[j])),
                        self.state().acts == acts0,
                        self.floats@ == floats0,
                    decreases arguments@.len() - k,
                {
                    let ghost env_before = self.state().env;
                    self.env.bind(&function.1[k].0, arguments[k].duplicate());
                    proof {
                        assert(self.state().env =~= base + Seq::new((k + 1) as nat, |j: int| (function.1@[j].0@, values[j])));
                    }
                    k = k + 1;
                }
                proof {
                    assert(Seq::new(k as nat, |j: int| (function.1@[j].0@, values[j])) =~= parameter_bindings(function.1@, values));
                }
                let ran = self.eval_block::<F, H>(host, &function.2, fuel - 1);
                let out = match ran {
                    Ok((value, _)) => {
                        self.destroy_scope(scope);
                        Ok(value)
                    },
                    Err(e) => Err(e),
                };
                proof {
                    assert forall|fs: Seq<FloatAnswer>| #[trigger] prefix(self.floats@, fs) implies
                        self.agrees_expr(fs, sem_call(fs, old(self).state(), *expression, fuel as nat), out) by {
                        lemma_prefix_trans(fa, self.floats@, fs);
                    }
                }
                out
            },
            Object::NativeFunction(native) => {
                let out = self.call_native::<F, H>(host, native, &arguments);
                proof {
                    assert forall|fs: Seq<FloatAnswer>| #[trigger] prefix(self.floats@, fs) implies
                        self.agrees_expr(fs, sem_call(fs, old(self).state(), *expression, fuel as nat), out) by {
                        lemma_prefix_trans(fa, self.floats@, fs);
                    }
                }
                out
            },
            other => Err(EvaluatorError::InvalidType {
                expected: types_two(ObjectType::Function, ObjectType::NativeFunction),
                found: other.get_type(),
            }),
        }
    }

    /// Binds the function under its (prefixed) name and yields `Void`.
    fn eval_func_declare_expression(&mut self, expression: &'a FunctionDeclareExpression) -> (r: Object<'a>)
        ensures
            final(self).extends(old(self)),
            r == Object::<'a>::Void,
            final(self).state() == (State {
                env: env_assign(old(self).state().env, expression.0.0@, Value::Function(*expression)),
                acts: old(self).state().acts,
                used: old(self).state().used,
            }),
    {
        self.env.set(&expression.0.0, Object::Function(expression));
        Object::Void
    }

    /// The value of the latest binding of the name.
    fn eval_identifier(&self, expression: &Identifier) -> (r: EvaluatorResult<'a>)
        ensures
            match crate::environment::latest_binding(self.env@, expression.0@) {
                Some(i) => r == Ok::<Object<'a>, EvaluatorError>(self.env@[i].1),
                None => r is Err && r->Err_0 is ObjectNotFound,
            },
            match find(self.state().env, expression.0@) {
                Some(i) => expr_outcome(r) == Ok::<Value, Fault>(self.state().env[i].1),
                None => expr_outcome(r) == Err::<Value, Fault>(Fault::NotFound(expression.0@)),
            },
    {
        match self.env.get(&expression.0) {
            Some(object) => Ok(object.duplicate()),
            None => Err(EvaluatorError::ObjectNotFound { name: expression.0.clone() }),
        }
    }

    /// Evaluates the right-hand statement and stores its value under the name
    /// (overwriting the latest binding where there is one); the assignment
    /// yields the value stored.
    fn eval_assignment_expression<F: FloatArith, H: Host>(&mut self, host: &mut H, expression: &'a Assignment, fuel: u64) -> (r: EvaluatorResult<'a>)
        ensures
            final(self).extends(old(self)),
            forall|fs: Seq<FloatAnswer>| #![trigger prefix(final(self).floats@, fs)] final(self).agrees_expr(fs, sem_assign(fs, old(self).state(), *expression, fuel as nat), r),
        decreases fuel,
    {
        if fuel == 0 {
            return Err(EvaluatorError::StepLimit);
        }
        let (value, _) = self.eval_statement::<F, H>(host, &expression.1, fuel - 1)?;
        let result = value.duplicate();
        self.env.set(&expression.0.0, value);
        Ok(result)
    }

    fn eval_literal(&self, expression: &'a Literal) -> (r: Object<'a>)
        ensures
            match expression {
                Literal::Integer(v) => r == Object::<'a>::Integer(v.0),
                Literal::Boolean(v) => r == Object::<'a>::Boolean(v.0),
                Literal::Float(v) => r == Object::<'a>::Float(v.0),
                Literal::String(v) => r is String && r->String_0@ == v.0@,
                Literal::List(v) => r == Object::<'a>::List(&v.0),
                Literal::Null => r == Object::<'a>::Null,
            },
            value_of(r) == literal_value(*expression),
    {
        match expression {
            Literal::Integer(v) => Object::Integer(v.0),
            Literal::Boolean(v) => Object::Boolean(v.0),
            Literal::Float(v) => Object::Float(v.0),
            Literal::String(v) => Object::String(v.0.clone()),
            Literal::List(v) => Object::List(&v.0),
            Literal::Null => Object::Null,
        }
    }

    fn eval_unary_expression<F: FloatArith, H: Host>(&mut self, host: &mut H, expression: &'a UnaryExpression, fuel: u64) -> (r: EvaluatorResult<'a>)
        ensures
            final(self).extends(old(self)),
            forall|fs: Seq<FloatAnswer>| #![trigger prefix(final(self).floats@, fs)] final(self).agrees_expr(fs, sem_unary(fs, old(self).state(), *expression, fuel as nat), r),
        decreases fuel,
    {
        if fuel == 0 {
            return Err(EvaluatorError::StepLimit);
        }
        let object = self.eval_expression::<F, H>(host, &expression.1, fuel - 1)?;
        let found = object.get_type();
        let (negated, ans) = object.negate_logged::<F>(expression.0);
        self.record(ans);
        match negated {
            Some(value) => Ok(value),
            None => match expression.0 {
                Operator::Arithmetic(ArithmeticOperator::Minus) => Err(EvaluatorError::InvalidType {
                    expected: types_two(ObjectType::Integer, ObjectType::Float),
                    found,
                }),
                Operator::Logical(LogicalOperator::Not) => Err(EvaluatorError::InvalidType {
                    expected: types_one(ObjectType::Boolean),
                    found,
                }),
                _ => Err(EvaluatorError::InvalidExpression { expected: String::from_str("UnaryExpression") }),
            },
        }
    }

    /// Evaluates both sides, left first, then applies the operator.
    fn eval_binary_expression<F: FloatArith, H: Host>(&mut self, host: &mut H, expression: &'a BinaryExpression, fuel: u64) -> (r: EvaluatorResult<'a>)
        ensures
            final(self).extends(old(self)),
            forall|fs: Seq<FloatAnswer>| #![trigger prefix(final(self).floats@, fs)] final(self).agrees_expr(fs, sem_binary(fs, old(self).state(), *expression, fuel as nat), r),
        decreases fuel,
    {
        if fuel == 0 {
            return Err(EvaluatorError::StepLimit);
        }
        let lhs = self.eval_expression::<F, H>(host, &expression.0, fuel - 1)?;
        let ghost f1 = self.floats@;
        let rhs_r = self.eval_expression::<F, H>(host, &expression.2, fuel - 1);
        let ghost f2 = self.floats@;
        proof {
            assert forall|fs: Seq<FloatAnswer>| #[trigger] prefix(self.floats@, fs) implies
                prefix(f1, fs) by {
                lemma_prefix_trans(f1, self.floats@, fs);
            }
        }
        let rhs = match rhs_r {
            Ok(v) => v,
            Err(e) => {
                return Err(e);
            },
        };
        let result = match expression.1 {
            Operator::Logical(op) => {
                let (out, ans) = lhs.logical_logged::<F>(op, rhs);
                self.record(ans);
                out
            },
            Operator::Arithmetic(op) => {
                let (out, ans) = lhs.arithmetic_logged::<F>(op, rhs);
                self.record(ans);
                out
            },
            Operator::Assignment(_) => {
                return Err(EvaluatorError::InvalidExpression { expected: String::from_str("BinaryExpression") });
            },
        };
        let out = match result {
            Ok(object) => Ok(object),
            Err(error) => Err(EvaluatorError::Operation { error }),
        };
        proof {
            assert forall|fs: Seq<FloatAnswer>| #[trigger] prefix(self.floats@, fs) implies
                self.agrees_expr(fs, sem_binary(fs, old(self).state(), *expression, fuel as nat), out) by {
                lemma_prefix_trans(f2, self.floats@, fs);
                lemma_prefix_trans(f1, f2, fs);
            }
        }
        out
    }

    /// Runs a built-in function on argument values. `print` and `println` ask
    /// the host to write the first argument's plain text (`println` adds a
    /// newline); `typeof` yields the name of its type; `sleep` asks the host to
    /// pause for the number of milliseconds that the argument's text spells.
    /// A missing argument counts as empty text (no pause for `sleep`).
    pub fn call_native<F: FloatArith, H: Host>(&mut self, host: &mut H, native: NativeFunctionObject, args: &Vec<Object<'a>>) -> (r: EvaluatorResult<'a>)
        ensures
            forall|fs: Seq<FloatAnswer>| #![trigger prefix(final(self).floats@, fs)] final(self).agrees_expr(fs, native_step(fs, old(self).state(), native, values_of(args@)), r),
            final(self).env == old(self).env,
            final(self).ast == old(self).ast,
            final(self).extends(old(self)),
    {
        let ghost values = values_of(args@);
        proof {
            if args@.len() > 0 {
                assert(values[0] == value_of(args@[0]));
                lemma_value_views(args@[0]);
            }
        }
        match native {
            NativeFunctionObject::Typeof => {
                if args.len() > 0 {
                    Ok(Object::String(tag_name_string(args[0].get_type())))
                } else {
                    Ok(Object::String(String::new()))
                }
            },
            NativeFunctionObject::Print | NativeFunctionObject::Println => {
                let text = if args.len() > 0 {
                    let (t, ans) = args[0].to_string_logged::<F>();
                    self.record(ans);
                    t
                } else {
                    String::new()
                };
                let text = if native == NativeFunctionObject::Println {
                    text.concat("\n")
                } else {
                    assert(text@ =~= text@ + Seq::<char>::empty());
                    text
                };
                let ghost before = self.actions@;
                let action = HostAction::Print(text);
                host.perform(&action);
                self.actions.push(action);
                assert(acts_of(self.actions@) =~= acts_of(before).push(act_of(HostAction::Print(text))));
                Ok(Object::Void)
            },
            NativeFunctionObject::Sleep => {
                if args.len() == 0 {
                    let ghost before = self.actions@;
                    let action = HostAction::Sleep(0);
                    host.perform(&action);
                    self.actions.push(action);
                    assert(acts_of(self.actions@) =~= acts_of(before).push(act_of(HostAction::Sleep(0))));
                    return Ok(Object::Void);
                }
                let (text, ans) = args[0].to_string_logged::<F>();
                self.record(ans);
                match parse_count(text.as_str()) {
                    Some(ms) => {
                        let ghost before = self.actions@;
                        let action = HostAction::Sleep(ms);
                        host.perform(&action);
                        self.actions.push(action);
                        assert(acts_of(self.actions@) =~= acts_of(before).push(act_of(HostAction::Sleep(ms))));
                        Ok(Object::Void)
                    },
                    None => Err(EvaluatorError::InvalidType {
                        expected: types_one(ObjectType::Integer),
                        found: args[0].get_type(),
                    }),
                }
            },
        }
    }
}

} // verus!
