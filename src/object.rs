use vstd::prelude::*;
use crate::ast::{ArithmeticOperator, Expression, FunctionDeclareExpression, LogicalOperator, Operator};
use crate::text::{count_string, int_text, integer_string, str_less, text_less, nat_text};
use core::cmp::Ordering;
use crate::syntax::{decl_of, exprs_of, same_declaration, same_expressions};
use crate::semantics::{order_holds, answers_at, arith_value, bits_at, logical_value, order_at, text_of, unary_value, value_of, value_result, FloatAnswer, Fault, Value};
use vstd::arithmetic::power::{pow, lemma_pow_adds, lemma_pow_multiplies, lemma_pow_mod_noop};
use vstd::arithmetic::div_mod::{lemma_mul_mod_noop_left, lemma_mul_mod_noop_right, lemma_mod_add_multiples_vanish};

verus! {

/// The name prefix under which every function is bound, so that a function
/// never collides with a variable of the same name.
pub const FUNCTION_PREFIX: &'static str = "__fc_";

/// Single-precision float arithmetic, supplied by the host. A float is passed
/// around as the bit pattern of its value; this library never looks inside it.
pub trait FloatArith {
    /// The bits of the float nearest to the number that `text` spells; it is
    /// called only on text that `float_text` accepts.
    fn parse(text: &str) -> u32;

    /// The float nearest to `v`.
    fn from_integer(v: i32) -> u32;

    /// `lhs op rhs`; `Power` raises to a float power.
    fn arith(op: ArithmeticOperator, lhs: u32, rhs: u32) -> u32;

    /// `-v`.
    fn negate(v: u32) -> u32;

    /// How `lhs` orders against `rhs`, `None` where either is not a number.
    fn compare(lhs: u32, rhs: u32) -> Option<Ordering>;

    /// The shortest decimal text that reads back as `v`.
    fn render(v: u32) -> String;
}

#[derive(Clone, Copy, Debug, PartialEq, Eq, Structural)]
pub enum ObjectType {
    Null,
    Integer,
    Boolean,
    Float,
    String,
    List,
    Function,
    NativeFunction,
    Void,
}

/// The built-in functions.
#[derive(Clone, Copy, Debug, PartialEq, Eq, Structural)]
pub enum NativeFunctionObject {
    Print,
    Println,
    Typeof,
    Sleep,
}

/// A runtime value. Functions and list literals borrow their syntax from the
/// program, which outlives every value made from it.
#[derive(Clone, Debug, PartialEq)]
pub enum Object<'a> {
    Null,
    Integer(i32),
    Boolean(bool),
    Float(u32),
    String(String),
    List(&'a Vec<Expression>),
    Function(&'a FunctionDeclareExpression),
    NativeFunction(NativeFunctionObject),
    Void,
}

/// What an operation on values refuses.
#[derive(Clone, Copy, Debug, PartialEq, Eq, Structural)]
pub enum Error {
    TypeError { operator: Operator, lhs: ObjectType, rhs: ObjectType },
    DivisionByZero,
}

/// The lower-case name of a type.
pub open spec fn tag_name(t: ObjectType) -> Seq<char> {
    match t {
        ObjectType::Boolean => "boolean"@,
        ObjectType::Integer => "integer"@,
        ObjectType::Float => "float"@,
        ObjectType::String => "string"@,
        ObjectType::Null => "null"@,
        ObjectType::List => "list"@,
        ObjectType::Function => "function"@,
        ObjectType::NativeFunction => "nfunction"@,
        ObjectType::Void => "void"@,
    }
}

/// The lower-case name of a type.
pub fn tag_name_string(t: ObjectType) -> (r: String)
    ensures
        r@ == tag_name(t),
{
    match t {
        ObjectType::Boolean => String::from_str("boolean"),
        ObjectType::Integer => String::from_str("integer"),
        ObjectType::Float => String::from_str("float"),
        ObjectType::String => String::from_str("string"),
        ObjectType::Null => String::from_str("null"),
        ObjectType::List => String::from_str("list"),
        ObjectType::Function => String::from_str("function"),
        ObjectType::NativeFunction => String::from_str("nfunction"),
        ObjectType::Void => String::from_str("void"),
    }
}

/// The text of a boolean.
pub open spec fn bool_text(b: bool) -> Seq<char> {
    if b {
        "true"@
    } else {
        "false"@
    }
}

/// `x` wrapped into the 32-bit two's-complement range.
pub open spec fn wrap_i32(x: int) -> int {
    let m = x % 0x1_0000_0000;
    if m > i32::MAX as int {
        m - 0x1_0000_0000
    } else {
        m
    }
}

/// The outcome of an arithmetic operator on two integers: wrap-around on
/// overflow, truncating division, and an error on a zero divisor. A power
/// reads its exponent as an unsigned 32-bit count (a negative one as its bit
/// pattern).
pub open spec fn integer_arith(op: ArithmeticOperator, a: i32, b: i32) -> Result<i32, Error> {
    match op {
        ArithmeticOperator::Plus => Ok(a.wrapping_add(b)),
        ArithmeticOperator::Minus => Ok(a.wrapping_sub(b)),
        ArithmeticOperator::Multiply => Ok(a.wrapping_mul(b)),
        ArithmeticOperator::Divide => if b == 0 {
            Err(Error::DivisionByZero)
        } else {
            match a.checked_div(b) {
                Some(q) => Ok(q),
                None => Ok(i32::MIN),
            }
        },
        ArithmeticOperator::Modulo => if b == 0 {
            Err(Error::DivisionByZero)
        } else {
            match a.checked_rem(b) {
                Some(q) => Ok(q),
                None => Ok(0),
            }
        },
        ArithmeticOperator::Power => Ok(wrap_i32(pow(a as int, (b as u32) as nat)) as i32),
    }
}

/// Whether a comparison operator holds between two integers.
pub open spec fn integer_compare(op: LogicalOperator, a: i32, b: i32) -> bool {
    match op {
        LogicalOperator::LesserThan => a < b,
        LogicalOperator::LesserThanEqual => a <= b,
        LogicalOperator::GreaterThan => a > b,
        _ => a >= b,
    }
}

/// Whether a comparison operator holds between two strings, in lexicographic
/// order of code points.
pub open spec fn text_compare(op: LogicalOperator, a: Seq<char>, b: Seq<char>) -> bool {
    match op {
        LogicalOperator::LesserThan => text_less(a, b),
        LogicalOperator::LesserThanEqual => !text_less(b, a),
        LogicalOperator::GreaterThan => text_less(b, a),
        _ => !text_less(a, b),
    }
}

pub open spec fn is_comparison(op: LogicalOperator) -> bool {
    op == LogicalOperator::LesserThan || op == LogicalOperator::LesserThanEqual
        || op == LogicalOperator::GreaterThan || op == LogicalOperator::GreaterThanEqual
}

impl<'a> Object<'a> {
    /// The type tag of a value.
    pub open spec fn tag(&self) -> ObjectType {
        match self {
            Object::Null => ObjectType::Null,
            Object::Integer(_) => ObjectType::Integer,
            Object::Boolean(_) => ObjectType::Boolean,
            Object::Float(_) => ObjectType::Float,
            Object::String(_) => ObjectType::String,
            Object::List(_) => ObjectType::List,
            Object::Function(_) => ObjectType::Function,
            Object::NativeFunction(_) => ObjectType::NativeFunction,
            Object::Void => ObjectType::Void,
        }
    }

    pub open spec fn is_number(&self) -> bool {
        self is Integer || self is Float
    }

    /// The plain text of a value, as `print` writes it; `None` for a float,
    /// whose text comes from the float arithmetic.
    pub open spec fn plain_text(&self) -> Option<Seq<char>> {
        match self {
            Object::Boolean(b) => Some(bool_text(*b)),
            Object::Integer(i) => Some(int_text(*i as int)),
            Object::Float(_) => None,
            Object::String(s) => Some(s@),
            _ => Some(tag_name(self.tag())),
        }
    }

    /// The text of a value with its type, as the interactive loop shows it;
    /// `None` for a float.
    pub open spec fn typed_text(&self) -> Option<Seq<char>> {
        match self {
            Object::Boolean(b) => Some("boolean("@ + bool_text(*b) + ")"@),
            Object::Integer(i) => Some("integer("@ + int_text(*i as int) + ")"@),
            Object::Float(_) => None,
            Object::String(s) => Some("string(\""@ + s@ + "\")"@),
            Object::List(l) => Some("list("@ + nat_text(l@.len()) + ")"@),
            _ => Some(tag_name(self.tag())),
        }
    }

    /// What an arithmetic operator yields on two values. Integers stay
    /// integers; a float on either side makes a float; `+` with a string on
    /// either side joins the texts; anything else is a type error.
    pub open spec fn arithmetic_outcome(
        op: ArithmeticOperator,
        lhs: Object<'a>,
        rhs: Object<'a>,
        out: Result<Object<'a>, Error>,
    ) -> bool {
        match (lhs, rhs) {
            (Object::Integer(a), Object::Integer(b)) => match integer_arith(op, a, b) {
                Ok(v) => out == Ok::<Object<'a>, Error>(Object::Integer(v)),
                Err(e) => out == Err::<Object<'a>, Error>(e),
            },
            _ => if lhs.is_number() && rhs.is_number() {
                out is Ok && out->Ok_0 is Float
            } else if op == ArithmeticOperator::Plus && lhs is String {
                out is Ok && out->Ok_0 is String && match rhs.plain_text() {
                    Some(t) => out->Ok_0->String_0@ == lhs->String_0@ + t,
                    None => out->Ok_0->String_0@.subrange(0, lhs->String_0@.len() as int)
                        == lhs->String_0@,
                }
            } else if op == ArithmeticOperator::Plus && rhs is String {
                out is Ok && out->Ok_0 is String && match lhs.plain_text() {
                    Some(t) => out->Ok_0->String_0@ == t + rhs->String_0@,
                    None => true,
                }
            } else {
                out == Err::<Object<'a>, Error>(
                    Error::TypeError { operator: Operator::Arithmetic(op), lhs: lhs.tag(), rhs: rhs.tag() },
                )
            },
        }
    }

    /// What a logical, equality or comparison operator yields on two values.
    pub open spec fn logical_outcome(
        op: LogicalOperator,
        lhs: Object<'a>,
        rhs: Object<'a>,
        out: Result<Object<'a>, Error>,
    ) -> bool {
        let type_error = Err::<Object<'a>, Error>(
            Error::TypeError { operator: Operator::Logical(op), lhs: lhs.tag(), rhs: rhs.tag() },
        );
        if op == LogicalOperator::And || op == LogicalOperator::Or {
            match (lhs, rhs) {
                (Object::Boolean(a), Object::Boolean(b)) => out == Ok::<Object<'a>, Error>(
                    Object::Boolean(if op == LogicalOperator::And { a && b } else { a || b }),
                ),
                _ => out == type_error,
            }
        } else if op == LogicalOperator::Equal || op == LogicalOperator::NotEqual {
            match Self::same_value(lhs, rhs) {
                Some(same) => out == Ok::<Object<'a>, Error>(
                    Object::Boolean(if op == LogicalOperator::Equal { same } else { !same }),
                ),
                None => out is Ok && out->Ok_0 is Boolean,
            }
        } else if is_comparison(op) {
            match (lhs, rhs) {
                (Object::Integer(a), Object::Integer(b)) => out == Ok::<Object<'a>, Error>(
                    Object::Boolean(integer_compare(op, a, b)),
                ),
                (Object::String(a), Object::String(b)) => out == Ok::<Object<'a>, Error>(
                    Object::Boolean(text_compare(op, a@, b@)),
                ),
                _ => if lhs.is_number() && rhs.is_number() {
                    out is Ok && out->Ok_0 is Boolean
                } else {
                    out == type_error
                },
            }
        } else {
            out == type_error
        }
    }

    /// Whether two values are equal: never across type tags; `None` for two
    /// floats, which the float arithmetic compares. Functions and list
    /// literals are equal when their syntax is.
    pub open spec fn same_value(lhs: Object<'a>, rhs: Object<'a>) -> Option<bool> {
        match (lhs, rhs) {
            (Object::Null, Object::Null) => Some(true),
            (Object::Void, Object::Void) => Some(true),
            (Object::Integer(a), Object::Integer(b)) => Some(a == b),
            (Object::Boolean(a), Object::Boolean(b)) => Some(a == b),
            (Object::String(a), Object::String(b)) => Some(a@ == b@),
            (Object::NativeFunction(a), Object::NativeFunction(b)) => Some(a == b),
            (Object::Function(a), Object::Function(b)) => Some(decl_of(*a) == decl_of(*b)),
            (Object::List(a), Object::List(b)) => Some(exprs_of(a@) == exprs_of(b@)),
            (Object::Float(_), Object::Float(_)) => None,
            _ => Some(false),
        }
    }

    pub fn null() -> (r: Object<'a>)
        ensures
            r == Object::<'a>::Null,
    {
        Object::Null
    }

    pub fn void() -> (r: Object<'a>)
        ensures
            r == Object::<'a>::Void,
    {
        Object::Void
    }

    pub fn integer(value: i32) -> (r: Object<'a>)
        ensures
            r == Object::<'a>::Integer(value),
    {
        Object::Integer(value)
    }

    pub fn boolean(value: bool) -> (r: Object<'a>)
        ensures
            r == Object::<'a>::Boolean(value),
    {
        Object::Boolean(value)
    }

    pub fn list(list: &'a Vec<Expression>) -> (r: Object<'a>)
        ensures
            r == Object::<'a>::List(list),
    {
        Object::List(list)
    }

    pub fn function(func: &'a FunctionDeclareExpression) -> (r: Object<'a>)
        ensures
            r == Object::<'a>::Function(func),
    {
        Object::Function(func)
    }

    pub fn native_function(func: NativeFunctionObject) -> (r: Object<'a>)
        ensures
            r == Object::<'a>::NativeFunction(func),
    {
        Object::NativeFunction(func)
    }

    pub fn string(value: &str) -> (r: Object<'a>)
        ensures
            r is String,
            r->String_0@ == value@,
    {
        Object::String(String::from_str(value))
    }

    /// A float value from the bit pattern of a single-precision number.
    pub fn float(bits: u32) -> (r: Object<'a>)
        ensures
            r == Object::<'a>::Float(bits),
    {
        Object::Float(bits)
    }

    /// A copy of this value.
    pub fn duplicate(&self) -> (r: Object<'a>)
        ensures
            r == *self,
    {
        match self {
            Object::Null => Object::Null,
            Object::Integer(v) => Object::Integer(*v),
            Object::Boolean(v) => Object::Boolean(*v),
            Object::Float(v) => Object::Float(*v),
            Object::String(s) => Object::String(s.clone()),
            Object::List(l) => Object::List(l),
            Object::Function(f) => Object::Function(f),
            Object::NativeFunction(f) => Object::NativeFunction(*f),
            Object::Void => Object::Void,
        }
    }

    pub fn get_type(&self) -> (r: ObjectType)
        ensures
            r == self.tag(),
    {
        match self {
            Object::Null => ObjectType::Null,
            Object::Integer(_) => ObjectType::Integer,
            Object::Boolean(_) => ObjectType::Boolean,
            Object::Float(_) => ObjectType::Float,
            Object::String(_) => ObjectType::String,
            Object::List(_) => ObjectType::List,
            Object::Function(_) => ObjectType::Function,
            Object::NativeFunction(_) => ObjectType::NativeFunction,
            Object::Void => ObjectType::Void,
        }
    }

    pub fn is(&self, object_type: ObjectType) -> (r: bool)
        ensures
            r == (self.tag() == object_type),
    {
        self.get_type() == object_type
    }

    pub fn as_boolean(&self) -> (r: Option<bool>)
        ensures
            r == (match self {
                Object::Boolean(b) => Some(*b),
                _ => None::<bool>,
            }),
    {
        match self {
            Object::Boolean(b) => Some(*b),
            _ => None,
        }
    }

    pub fn as_integer(&self) -> (r: Option<i32>)
        ensures
            r == (match self {
                Object::Integer(i) => Some(*i),
                _ => None::<i32>,
            }),
    {
        match self {
            Object::Integer(i) => Some(*i),
            _ => None,
        }
    }

    /// The bit pattern of a float value.
    pub fn as_float(&self) -> (r: Option<u32>)
        ensures
            r == (match self {
                Object::Float(f) => Some(*f),
                _ => None::<u32>,
            }),
    {
        match self {
            Object::Float(f) => Some(*f),
            _ => None,
        }
    }

    pub fn as_list(&self) -> (r: Option<&'a Vec<Expression>>)
        ensures
            r == (match self {
                Object::List(l) => Some(*l),
                _ => None::<&'a Vec<Expression>>,
            }),
    {
        match self {
            Object::List(l) => Some(*l),
            _ => None,
        }
    }

    pub fn as_function(&self) -> (r: Option<&'a FunctionDeclareExpression>)
        ensures
            r == (match self {
                Object::Function(f) => Some(*f),
                _ => None::<&'a FunctionDeclareExpression>,
            }),
    {
        match self {
            Object::Function(f) => Some(*f),
            _ => None,
        }
    }

    pub fn as_native_function(&self) -> (r: Option<NativeFunctionObject>)
        ensures
            r == (match self {
                Object::NativeFunction(f) => Some(*f),
                _ => None::<NativeFunctionObject>,
            }),
    {
        match self {
            Object::NativeFunction(f) => Some(*f),
            _ => None,
        }
    }

    pub fn as_str(&self) -> (r: Option<&str>)
        ensures
            self is String <==> r is Some,
            r is Some ==> r->0@ == self->String_0@,
    {
        match self {
            Object::String(s) => Some(s.as_str()),
            _ => None,
        }
    }

    /// The plain text of this value, as `print` writes it.
    pub fn to_string<F: FloatArith>(&self) -> (r: String)
        ensures
            self.plain_text() is Some ==> r@ == self.plain_text()->0,
    {
        self.to_string_logged::<F>().0
    }

    /// The text of this value with its type, as the interactive loop shows it.
    pub fn to_string_with_type<F: FloatArith>(&self) -> (r: String)
        ensures
            self.typed_text() is Some ==> r@ == self.typed_text()->0,
    {
        match self {
            Object::Boolean(b) => {
                let inner = if *b {
                    String::from_str("true")
                } else {
                    String::from_str("false")
                };
                String::from_str("boolean(").concat(inner.as_str()).concat(")")
            },
            Object::Integer(i) => {
                let inner = integer_string(*i);
                String::from_str("integer(").concat(inner.as_str()).concat(")")
            },
            Object::Float(f) => {
                let inner = F::render(*f);
                String::from_str("float(").concat(inner.as_str()).concat(")")
            },
            Object::String(s) => String::from_str("string(\"").concat(s.as_str()).concat("\")"),
            Object::List(l) => {
                let n = l.len();
                let inner = count_string(n);
                String::from_str("list(").concat(inner.as_str()).concat(")")
            },
            _ => tag_name_string(self.get_type()),
        }
    }
}

/// One round of exponentiation by squaring keeps `acc * base^k` unchanged
/// modulo `m`.
proof fn lemma_square_step(acc: int, base: int, k: nat, m: int)
    requires
        m > 0,
    ensures
        k % 2 == 1 ==> ((acc * base) % m) * pow((base * base) % m, k / 2) % m == (acc * pow(base, k)) % m,
        k % 2 == 0 ==> (acc * pow((base * base) % m, k / 2)) % m == (acc * pow(base, k)) % m,
{
    let h = k / 2;
    let q = pow(base * base, h);
    let r = pow((base * base) % m, h);
    lemma_pow_mod_noop(base * base, h, m);
    assert(r % m == q % m);
    lemma_pow_adds(base, 2 * h, (k % 2) as nat);
    lemma_pow_multiplies(base, 2, h);
    reveal_with_fuel(pow, 3);
    assert(pow(base, 2) == base * base);
    assert(pow(base, k) == q * pow(base, (k % 2) as nat)) by {
        assert(2 * h + k % 2 == k);
    }
    if k % 2 == 1 {
        assert(pow(base, 1) == base);
        lemma_mul_mod_noop_left(acc * base, r, m);
        lemma_mul_mod_noop_right(acc * base, r, m);
        lemma_mul_mod_noop_right(acc * base, q, m);
        assert((acc * base) * (r % m) == (acc * base) * (q % m));
        assert((acc * base) * q == acc * (q * base)) by (nonlinear_arith);
    } else {
        assert(pow(base, 0) == 1);
        lemma_mul_mod_noop_right(acc, r, m);
        lemma_mul_mod_noop_right(acc, q, m);
        assert(acc * (r % m) == acc * (q % m));
        assert(q * 1 == q);
    }
}

/// `b` raised to the power `e`, wrapping around on overflow; by squaring.
fn integer_power(b: i32, e: u32) -> (r: i32)
    ensures
        r as int == wrap_i32(pow(b as int, e as nat)),
{
    let m: u64 = 0x1_0000_0000;
    let ghost target = pow(b as int, e as nat) % (m as int);
    let mut base: u64 = (((b as i64) + 0x1_0000_0000) as u64) % m;
    proof {
        assert(base as int == (b as int) % (m as int)) by {
            lemma_mod_add_multiples_vanish(b as int, m as int);
        }
        lemma_pow_mod_noop(b as int, e as nat, m as int);
    }
    let mut acc: u64 = 1;
    let mut k: u32 = e;
    while k > 0
        invariant
            m == 0x1_0000_0000,
            acc < m,
            base < m,
            (acc as int * pow(base as int, k as nat)) % (m as int) == target,
        decreases k,
    {
        proof {
            lemma_square_step(acc as int, base as int, k as nat, m as int);
        }
        if k % 2 == 1 {
            assert(acc * base < 0x1_0000_0000_0000_0000) by (nonlinear_arith)
                requires acc < 0x1_0000_0000, base < 0x1_0000_0000;
            acc = (acc * base) % m;
        }
        assert(base * base < 0x1_0000_0000_0000_0000) by (nonlinear_arith)
            requires base < 0x1_0000_0000;
        base = (base * base) % m;
        k = k / 2;
    }
    proof {
        reveal_with_fuel(pow, 1);
        assert(acc as int % (m as int) == acc as int);
    }
    if acc > i32::MAX as u64 {
        (acc as i64 - 0x1_0000_0000) as i32
    } else {
        acc as i32
    }
}

/// An arithmetic operator on two integers.
pub fn integer_arithmetic(op: ArithmeticOperator, a: i32, b: i32) -> (r: Result<i32, Error>)
    ensures
        r == integer_arith(op, a, b),
{
    match op {
        ArithmeticOperator::Plus => Ok(a.wrapping_add(b)),
        ArithmeticOperator::Minus => Ok(a.wrapping_sub(b)),
        ArithmeticOperator::Multiply => Ok(a.wrapping_mul(b)),
        ArithmeticOperator::Divide => if b == 0 {
            Err(Error::DivisionByZero)
        } else {
            match a.checked_div(b) {
                Some(q) => Ok(q),
                None => Ok(i32::MIN),
            }
        },
        ArithmeticOperator::Modulo => if b == 0 {
            Err(Error::DivisionByZero)
        } else {
            match a.checked_rem(b) {
                Some(q) => Ok(q),
                None => Ok(0),
            }
        },
        ArithmeticOperator::Power => Ok(integer_power(a, b as u32)),
    }
}

/// Whether a comparison operator holds for an ordering.
fn ordering_holds(op: LogicalOperator, ord: Option<Ordering>) -> (r: bool)
    ensures
        r == order_holds(op, ord),
{
    match ord {
        Some(Ordering::Less) => op == LogicalOperator::LesserThan || op == LogicalOperator::LesserThanEqual,
        Some(Ordering::Equal) => op == LogicalOperator::LesserThanEqual || op == LogicalOperator::GreaterThanEqual,
        Some(Ordering::Greater) => op == LogicalOperator::GreaterThan || op == LogicalOperator::GreaterThanEqual,
        None => false,
    }
}

impl<'a> Object<'a> {
    /// The plain text of this value, with the answer asked of `F` for a float.
    pub(crate) fn to_string_logged<F: FloatArith>(&self) -> (r: (String, Ghost<Seq<FloatAnswer>>))
        ensures
            self.plain_text() is Some ==> r.0@ == self.plain_text()->0,
            forall|fs: Seq<FloatAnswer>, k: nat|
                #![trigger answers_at(fs, k, r.1@)]
                answers_at(fs, k, r.1@) ==> text_of(fs, k, value_of(*self)) == (r.0@, k + r.1@.len()),
    {
        match self {
            Object::Boolean(b) => (if *b {
                String::from_str("true")
            } else {
                String::from_str("false")
            }, Ghost(Seq::empty())),
            Object::Integer(i) => (integer_string(*i), Ghost(Seq::empty())),
            Object::Float(f) => {
                let t = F::render(*f);
                let ghost a = seq![FloatAnswer::Text(t@)];
                proof {
                    assert forall|fs: Seq<FloatAnswer>, k: nat| answers_at(fs, k, a) implies
                        text_of(fs, k, value_of(*self)) == (t@, k + a.len()) by {
                        assert(fs[k as int + 0] == a[0]);
                    }
                }
                (t, Ghost(a))
            },
            Object::String(s) => (s.clone(), Ghost(Seq::empty())),
            _ => (tag_name_string(self.get_type()), Ghost(Seq::empty())),
        }
    }

    /// An arithmetic operator applied to two values, with the answers asked
    /// of `F`, in order.
    pub(crate) fn arithmetic_logged<F: FloatArith>(self, op: ArithmeticOperator, rhs: Object<'a>) -> (r: (Result<Object<'a>, Error>, Ghost<Seq<FloatAnswer>>))
        ensures
            Self::arithmetic_outcome(op, self, rhs, r.0),
            forall|fs: Seq<FloatAnswer>, k: nat|
                #![trigger answers_at(fs, k, r.1@)]
                answers_at(fs, k, r.1@) ==> arith_value(fs, k, op, value_of(self), value_of(rhs)) == (value_result(r.0), k + r.1@.len()),
    {
        let type_error = Error::TypeError { operator: Operator::Arithmetic(op), lhs: self.get_type(), rhs: rhs.get_type() };
        match (&self, &rhs) {
            (Object::Integer(a), Object::Integer(b)) => (match integer_arithmetic(op, *a, *b) {
                Ok(v) => Ok(Object::Integer(v)),
                Err(e) => Err(e),
            }, Ghost(Seq::empty())),
            (Object::Float(a), Object::Float(b)) => {
                let x = F::arith(op, *a, *b);
                let ghost ans = seq![FloatAnswer::Bits(x)];
                proof {
                    assert forall|fs: Seq<FloatAnswer>, k: nat| answers_at(fs, k, ans) implies
                        bits_at(fs, k) == x by {
                        assert(fs[k as int + 0] == ans[0]);
                    }
                }
                (Ok(Object::Float(x)), Ghost(ans))
            },
            (Object::Float(a), Object::Integer(b)) => {
                let c = F::from_integer(*b);
                let x = F::arith(op, *a, c);
                let ghost ans = seq![FloatAnswer::Bits(c), FloatAnswer::Bits(x)];
                proof {
                    assert forall|fs: Seq<FloatAnswer>, k: nat| answers_at(fs, k, ans) implies
                        bits_at(fs, k + 1) == x by {
                        assert(fs[k as int + 1] == ans[1]);
                    }
                }
                (Ok(Object::Float(x)), Ghost(ans))
            },
            (Object::Integer(a), Object::Float(b)) => {
                let c = F::from_integer(*a);
                let x = F::arith(op, c, *b);
                let ghost ans = seq![FloatAnswer::Bits(c), FloatAnswer::Bits(x)];
                proof {
                    assert forall|fs: Seq<FloatAnswer>, k: nat| answers_at(fs, k, ans) implies
                        bits_at(fs, k + 1) == x by {
                        assert(fs[k as int + 1] == ans[1]);
                    }
                }
                (Ok(Object::Float(x)), Ghost(ans))
            },
            (Object::String(s), _) => if op == ArithmeticOperator::Plus {
                let (t, ans) = rhs.to_string_logged::<F>();
                let joined = s.clone().concat(t.as_str());
                assert(joined@.subrange(0, s@.len() as int) =~= s@);
                (Ok(Object::String(joined)), ans)
            } else {
                (Err(type_error), Ghost(Seq::empty()))
            },
            (_, Object::String(s)) => if op == ArithmeticOperator::Plus {
                let (t, ans) = self.to_string_logged::<F>();
                (Ok(Object::String(t.concat(s.as_str()))), ans)
            } else {
                (Err(type_error), Ghost(Seq::empty()))
            },
            _ => (Err(type_error), Ghost(Seq::empty())),
        }
    }

    /// An arithmetic operator applied to two values.
    pub fn arithmetic<F: FloatArith>(self, op: ArithmeticOperator, rhs: Object<'a>) -> (r: Result<Object<'a>, Error>)
        ensures
            Self::arithmetic_outcome(op, self, rhs, r),
    {
        self.arithmetic_logged::<F>(op, rhs).0
    }

    /// `self ^ rhs`.
    pub fn power<F: FloatArith>(self, rhs: Object<'a>) -> (r: Result<Object<'a>, Error>)
        ensures
            Self::arithmetic_outcome(ArithmeticOperator::Power, self, rhs, r),
    {
        self.arithmetic::<F>(ArithmeticOperator::Power, rhs)
    }

    /// A logical, equality or comparison operator applied to two values, with
    /// the answers asked of `F`, in order.
    pub(crate) fn logical_logged<F: FloatArith>(self, op: LogicalOperator, rhs: Object<'a>) -> (r: (Result<Object<'a>, Error>, Ghost<Seq<FloatAnswer>>))
        ensures
            Self::logical_outcome(op, self, rhs, r.0),
            forall|fs: Seq<FloatAnswer>, k: nat|
                #![trigger answers_at(fs, k, r.1@)]
                answers_at(fs, k, r.1@) ==> logical_value(fs, k, op, value_of(self), value_of(rhs)) == (value_result(r.0), k + r.1@.len()),
    {
        let type_error = Error::TypeError { operator: Operator::Logical(op), lhs: self.get_type(), rhs: rhs.get_type() };
        match op {
            LogicalOperator::And | LogicalOperator::Or => (match (&self, &rhs) {
                (Object::Boolean(a), Object::Boolean(b)) => Ok(Object::Boolean(
                    if op == LogicalOperator::And { *a && *b } else { *a || *b },
                )),
                _ => Err(type_error),
            }, Ghost(Seq::empty())),
            LogicalOperator::Equal | LogicalOperator::NotEqual => {
                let (same, ans) = match (&self, &rhs) {
                    (Object::Float(a), Object::Float(b)) => {
                        let o = F::compare(*a, *b);
                        let ghost ans = seq![FloatAnswer::Order(o)];
                        proof {
                            assert forall|fs: Seq<FloatAnswer>, k: nat| answers_at(fs, k, ans) implies
                                order_at(fs, k) == o by {
                                assert(fs[k as int + 0] == ans[0]);
                            }
                        }
                        (match o {
                            Some(Ordering::Equal) => true,
                            _ => false,
                        }, Ghost(ans))
                    },
                    (Object::Null, Object::Null) => (true, Ghost(Seq::empty())),
                    (Object::Void, Object::Void) => (true, Ghost(Seq::empty())),
                    (Object::Integer(a), Object::Integer(b)) => (*a == *b, Ghost(Seq::empty())),
                    (Object::Boolean(a), Object::Boolean(b)) => (*a == *b, Ghost(Seq::empty())),
                    (Object::String(a), Object::String(b)) => (a.eq(b), Ghost(Seq::empty())),
                    (Object::NativeFunction(a), Object::NativeFunction(b)) => (*a == *b, Ghost(Seq::empty())),
                    (Object::Function(a), Object::Function(b)) => (same_declaration(a, b), Ghost(Seq::empty())),
                    (Object::List(a), Object::List(b)) => (same_expressions(a, b), Ghost(Seq::empty())),
                    _ => (false, Ghost(Seq::empty())),
                };
                (Ok(Object::Boolean(if op == LogicalOperator::Equal { same } else { !same })), ans)
            },
            LogicalOperator::Not => (Err(type_error), Ghost(Seq::empty())),
            _ => match (&self, &rhs) {
                (Object::Integer(a), Object::Integer(b)) => {
                    let holds = match op {
                        LogicalOperator::LesserThan => *a < *b,
                        LogicalOperator::LesserThanEqual => *a <= *b,
                        LogicalOperator::GreaterThan => *a > *b,
                        _ => *a >= *b,
                    };
                    (Ok(Object::Boolean(holds)), Ghost(Seq::empty()))
                },
                (Object::String(a), Object::String(b)) => {
                    let holds = match op {
                        LogicalOperator::LesserThan => str_less(a.as_str(), b.as_str()),
                        LogicalOperator::LesserThanEqual => !str_less(b.as_str(), a.as_str()),
                        LogicalOperator::GreaterThan => str_less(b.as_str(), a.as_str()),
                        _ => !str_less(a.as_str(), b.as_str()),
                    };
                    (Ok(Object::Boolean(holds)), Ghost(Seq::empty()))
                },
                (Object::Float(a), Object::Float(b)) => {
                    let o = F::compare(*a, *b);
                    let ghost ans = seq![FloatAnswer::Order(o)];
                    proof {
                        assert forall|fs: Seq<FloatAnswer>, k: nat| answers_at(fs, k, ans) implies
                            order_at(fs, k) == o by {
                            assert(fs[k as int + 0] == ans[0]);
                        }
                    }
                    (Ok(Object::Boolean(ordering_holds(op, o))), Ghost(ans))
                },
                (Object::Float(a), Object::Integer(b)) => {
                    let c = F::from_integer(*b);
                    let o = F::compare(*a, c);
                    let ghost ans = seq![FloatAnswer::Bits(c), FloatAnswer::Order(o)];
                    proof {
                        assert forall|fs: Seq<FloatAnswer>, k: nat| answers_at(fs, k, ans) implies
                            order_at(fs, k + 1) == o by {
                            assert(fs[k as int + 1] == ans[1]);
                        }
                    }
                    (Ok(Object::Boolean(ordering_holds(op, o))), Ghost(ans))
                },
                (Object::Integer(a), Object::Float(b)) => {
                    let c = F::from_integer(*a);
                    let o = F::compare(c, *b);
                    let ghost ans = seq![FloatAnswer::Bits(c), FloatAnswer::Order(o)];
                    proof {
                        assert forall|fs: Seq<FloatAnswer>, k: nat| answers_at(fs, k, ans) implies
                            order_at(fs, k + 1) == o by {
                            assert(fs[k as int + 1] == ans[1]);
                        }
                    }
                    (Ok(Object::Boolean(ordering_holds(op, o))), Ghost(ans))
                },
                _ => (Err(type_error), Ghost(Seq::empty())),
            },
        }
    }

    /// A logical, equality or comparison operator applied to two values.
    pub fn logical<F: FloatArith>(self, op: LogicalOperator, rhs: Object<'a>) -> (r: Result<Object<'a>, Error>)
        ensures
            Self::logical_outcome(op, self, rhs, r),
    {
        self.logical_logged::<F>(op, rhs).0
    }

    /// `-self` for a number, `!self` for a boolean, with the answer asked of
    /// `F` for a float.
    pub(crate) fn negate_logged<F: FloatArith>(self, op: Operator) -> (r: (Option<Object<'a>>, Ghost<Seq<FloatAnswer>>))
        ensures
            r.0 == Self::negation(op, self) || (op == Operator::Arithmetic(ArithmeticOperator::Minus)
                && self is Float && r.0 is Some && r.0->0 is Float),
            forall|fs: Seq<FloatAnswer>, k: nat|
                #![trigger answers_at(fs, k, r.1@)]
                answers_at(fs, k, r.1@) ==> (unary_value(fs, k, op, value_of(self)).1 == k + r.1@.len()
                    && (r.0 matches Some(v) ==> unary_value(fs, k, op, value_of(self)).0 == Ok::<Value, Fault>(value_of(v)))
                    && (r.0 is None ==> unary_value(fs, k, op, value_of(self)).0 is Err)),
    {
        match (op, &self) {
            (Operator::Arithmetic(ArithmeticOperator::Minus), Object::Integer(v)) => (Some(Object::Integer((0i32).wrapping_sub(*v))), Ghost(Seq::empty())),
            (Operator::Arithmetic(ArithmeticOperator::Minus), Object::Float(v)) => {
                let x = F::negate(*v);
                let ghost ans = seq![FloatAnswer::Bits(x)];
                proof {
                    assert forall|fs: Seq<FloatAnswer>, k: nat| answers_at(fs, k, ans) implies
                        bits_at(fs, k) == x by {
                        assert(fs[k as int + 0] == ans[0]);
                    }
                }
                (Some(Object::Float(x)), Ghost(ans))
            },
            (Operator::Logical(LogicalOperator::Not), Object::Boolean(b)) => (Some(Object::Boolean(!*b)), Ghost(Seq::empty())),
            _ => (None, Ghost(Seq::empty())),
        }
    }

    /// `-self` for a number, `!self` for a boolean.
    pub fn negate<F: FloatArith>(self, op: Operator) -> (r: Option<Object<'a>>)
        ensures
            r == Self::negation(op, self) || (op == Operator::Arithmetic(ArithmeticOperator::Minus)
                && self is Float && r is Some && r->0 is Float),
    {
        self.negate_logged::<F>(op).0
    }

    /// What a unary operator yields: the integer negated with wrap-around, the
    /// boolean inverted, and `None` where the operand does not fit.
    pub open spec fn negation(op: Operator, v: Object<'a>) -> Option<Object<'a>> {
        match (op, v) {
            (Operator::Arithmetic(ArithmeticOperator::Minus), Object::Integer(i)) => Some(Object::Integer(
                (0i32).wrapping_sub(i),
            )),
            (Operator::Logical(LogicalOperator::Not), Object::Boolean(b)) => Some(Object::Boolean(!b)),
            _ => None,
        }
    }
}

} // verus!
