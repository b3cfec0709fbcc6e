use std::cmp::Ordering;

use another_interpreted_language::ast::{ArithmeticOperator, AssignmentOperator, LogicalOperator};
use another_interpreted_language::ast::assignment_to_arithmetic;
use another_interpreted_language::ast::{Expression, IntegerLiteral, Literal};
use another_interpreted_language::environment::Environment;
use another_interpreted_language::object::{Error, FloatArith, NativeFunctionObject, Object, ObjectType};
use another_interpreted_language::text::integer_string;
use another_interpreted_language::token::Position;

struct NoFloats;

impl FloatArith for NoFloats {
    fn parse(_text: &str) -> u32 {
        0
    }

    fn from_integer(v: i32) -> u32 {
        v as u32
    }

    fn arith(_op: ArithmeticOperator, lhs: u32, _rhs: u32) -> u32 {
        lhs
    }

    fn negate(v: u32) -> u32 {
        v
    }

    fn compare(lhs: u32, rhs: u32) -> Option<Ordering> {
        Some(lhs.cmp(&rhs))
    }

    fn render(_v: u32) -> String {
        "f".to_string()
    }
}

#[test]
fn each_accessor_answers_only_its_own_tag() {
    let values = vec![
        Object::integer(3),
        Object::boolean(true),
        Object::float(7),
        Object::string("s"),
        Object::null(),
        Object::void(),
        Object::native_function(NativeFunctionObject::Print),
    ];
    for v in &values {
        let t = v.get_type();
        assert_eq!(v.as_integer().is_some(), t == ObjectType::Integer);
        assert_eq!(v.as_boolean().is_some(), t == ObjectType::Boolean);
        assert_eq!(v.as_float().is_some(), t == ObjectType::Float);
        assert_eq!(v.as_str().is_some(), t == ObjectType::String);
        assert_eq!(v.as_native_function().is_some(), t == ObjectType::NativeFunction);
        assert!(v.as_list().is_none());
        assert!(v.as_function().is_none());
        assert!(v.is(t));
    }
    assert_eq!(Object::integer(-9).as_integer(), Some(-9));
    assert_eq!(Object::boolean(false).as_boolean(), Some(false));
    assert_eq!(Object::string("hi").as_str(), Some("hi"));
}

#[test]
fn typed_text_of_values() {
    assert_eq!(Object::integer(42).to_string_with_type::<NoFloats>(), "integer(42)");
    assert_eq!(Object::boolean(true).to_string_with_type::<NoFloats>(), "boolean(true)");
    assert_eq!(Object::string("hi").to_string_with_type::<NoFloats>(), "string(\"hi\")");
    assert_eq!(Object::null().to_string_with_type::<NoFloats>(), "null");
    assert_eq!(Object::void().to_string_with_type::<NoFloats>(), "void");
    assert_eq!(Object::native_function(NativeFunctionObject::Sleep).to_string_with_type::<NoFloats>(), "nfunction");
    assert_eq!(Object::integer(-17).to_string::<NoFloats>(), "-17");
}

#[test]
fn integer_text() {
    assert_eq!(integer_string(0), "0");
    assert_eq!(integer_string(i32::MIN), "-2147483648");
    assert_eq!(integer_string(i32::MAX), "2147483647");
    assert_eq!(integer_string(1050), "1050");
}

#[test]
fn arithmetic_on_integers() {
    let add = Object::integer(2).arithmetic::<NoFloats>(ArithmeticOperator::Plus, Object::integer(3));
    assert_eq!(add, Ok(Object::integer(5)));
    let div = Object::integer(i32::MIN).arithmetic::<NoFloats>(ArithmeticOperator::Divide, Object::integer(-1));
    assert_eq!(div, Ok(Object::integer(i32::MIN)));
    let rem = Object::integer(i32::MIN).arithmetic::<NoFloats>(ArithmeticOperator::Modulo, Object::integer(-1));
    assert_eq!(rem, Ok(Object::integer(0)));
    assert_eq!(Object::integer(-3).power::<NoFloats>(Object::integer(3)), Ok(Object::integer(-27)));
    assert_eq!(
        Object::null().arithmetic::<NoFloats>(ArithmeticOperator::Plus, Object::integer(1)),
        Err(Error::TypeError {
            operator: another_interpreted_language::ast::Operator::Arithmetic(ArithmeticOperator::Plus),
            lhs: ObjectType::Null,
            rhs: ObjectType::Integer,
        })
    );
}

#[test]
fn logical_on_values() {
    assert_eq!(
        Object::integer(2).logical::<NoFloats>(LogicalOperator::GreaterThanEqual, Object::integer(2)),
        Ok(Object::boolean(true))
    );
    assert_eq!(
        Object::void().logical::<NoFloats>(LogicalOperator::Equal, Object::void()),
        Ok(Object::boolean(true))
    );
    assert_eq!(
        Object::boolean(true).logical::<NoFloats>(LogicalOperator::Or, Object::boolean(false)),
        Ok(Object::boolean(true))
    );
}

#[test]
fn compound_operators_map_to_arithmetic() {
    assert_eq!(assignment_to_arithmetic(&AssignmentOperator::PlusAssign), Some(ArithmeticOperator::Plus));
    assert_eq!(assignment_to_arithmetic(&AssignmentOperator::PowerAssign), Some(ArithmeticOperator::Power));
    assert_eq!(assignment_to_arithmetic(&AssignmentOperator::Assign), None);
}

#[test]
fn environment_stack_discipline() {
    let mut env = Environment::new();
    let a = "a".to_string();
    let b = "b".to_string();
    env.set(&a, Object::integer(1));
    let scope = env.size();
    env.bind(&a, Object::integer(2));
    env.set(&b, Object::integer(3));
    assert_eq!(env.size(), 3);
    assert_eq!(env.get(&a), Some(&Object::integer(2)));
    env.set(&a, Object::integer(4));
    assert_eq!(env.size(), 3);
    assert_eq!(env.get(&a), Some(&Object::integer(4)));
    env.truncate(scope);
    assert_eq!(env.size(), 1);
    assert_eq!(env.get(&a), Some(&Object::integer(1)));
    assert_eq!(env.get(&b), None);
}

#[test]
fn position_accessors() {
    let p = Position::from(3, 9);
    assert_eq!(p.to_tuple(), (3, 9));
}

#[test]
fn lists_compare_by_their_elements() {
    let a = vec![Expression::LiteralExpr(Literal::Integer(IntegerLiteral(1)))];
    let b = vec![Expression::LiteralExpr(Literal::Integer(IntegerLiteral(1)))];
    let c = vec![Expression::LiteralExpr(Literal::Integer(IntegerLiteral(2)))];
    let same = Object::list(&a).logical::<NoFloats>(LogicalOperator::Equal, Object::list(&a));
    assert_eq!(same, Ok(Object::boolean(true)));
    let equal = Object::list(&a).logical::<NoFloats>(LogicalOperator::Equal, Object::list(&b));
    assert_eq!(equal, Ok(Object::boolean(true)));
    let differ = Object::list(&a).logical::<NoFloats>(LogicalOperator::NotEqual, Object::list(&c));
    assert_eq!(differ, Ok(Object::boolean(true)));
}
