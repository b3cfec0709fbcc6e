use std::cmp::Ordering;

use another_interpreted_language::ast::ArithmeticOperator;
use another_interpreted_language::errors::{EvaluatorError, LexerError, ParserError};
use another_interpreted_language::evaluator::{Host, HostAction};
use another_interpreted_language::interpreter::{interpret, InterpreterError, Run};
use another_interpreted_language::object::{Error, FloatArith, ObjectType};
use another_interpreted_language::token::{Position, TokenType};

struct HostFloat;

impl FloatArith for HostFloat {
    fn parse(text: &str) -> u32 {
        text.parse::<f32>().map(f32::to_bits).unwrap_or(0)
    }

    fn from_integer(v: i32) -> u32 {
        (v as f32).to_bits()
    }

    fn arith(op: ArithmeticOperator, lhs: u32, rhs: u32) -> u32 {
        let (x, y) = (f32::from_bits(lhs), f32::from_bits(rhs));
        let r = match op {
            ArithmeticOperator::Plus => x + y,
            ArithmeticOperator::Minus => x - y,
            ArithmeticOperator::Multiply => x * y,
            ArithmeticOperator::Divide => x / y,
            ArithmeticOperator::Modulo => x % y,
            ArithmeticOperator::Power => x.powf(y),
        };
        r.to_bits()
    }

    fn negate(v: u32) -> u32 {
        (-f32::from_bits(v)).to_bits()
    }

    fn compare(lhs: u32, rhs: u32) -> Option<Ordering> {
        f32::from_bits(lhs).partial_cmp(&f32::from_bits(rhs))
    }

    fn render(v: u32) -> String {
        f32::from_bits(v).to_string()
    }
}

struct Recorder(Vec<HostAction>);

impl Host for Recorder {
    fn perform(&mut self, action: &HostAction) {
        self.0.push(action.clone());
    }
}

fn run(source: &str) -> Run {
    let mut host = Recorder(Vec::new());
    let run = interpret::<HostFloat, Recorder>(source, &mut host);
    assert_eq!(host.0, run.actions);
    run
}

fn typed(source: &str) -> String {
    match run(source).outcome {
        Ok(t) => t.typed,
        Err(e) => panic!("script failed: {:?}", e),
    }
}

fn failure(source: &str) -> InterpreterError {
    match run(source).outcome {
        Ok(t) => panic!("script succeeded with {}", t.typed),
        Err(e) => e,
    }
}

#[test]
fn assignment_of_arithmetic_yields_fourteen() {
    assert_eq!(typed("x = 2 + 3 * 4"), "integer(14)");
}

#[test]
fn recursive_factorial() {
    let src = "fact = (n) {\n  if n <= 1 { return 1 }\n  return n * fact(n - 1)\n}\nfact(6)\n";
    assert_eq!(typed(src), "integer(720)");
}

#[test]
fn while_loop_appends_to_string() {
    let src = "s = \"x\"\ni = 0\nwhile i < 3 { s = s + \"y\"; i = i + 1 }\ns\n";
    assert_eq!(typed(src), "string(\"xyyy\")");
}

#[test]
fn typeof_float_literal() {
    assert_eq!(typed("typeof(3.5)"), "string(\"float\")");
}

#[test]
fn for_loop_in_function() {
    let src = "counter = () {\n  c = 0\n  for (i = 0; i < 5; i = i + 1) { c = c + i }\n  return c\n}\ncounter()\n";
    assert_eq!(typed(src), "integer(10)");
}

#[test]
fn string_plus_integer() {
    assert_eq!(typed("\"hello \" + 42"), "string(\"hello 42\")");
}

#[test]
fn undefined_identifier_is_reported() {
    assert_eq!(
        failure("y + 1"),
        InterpreterError::Evaluator(EvaluatorError::ObjectNotFound { name: "y".to_string() })
    );
}

#[test]
fn negating_a_string_is_a_type_error() {
    assert_eq!(
        failure("-\"a\""),
        InterpreterError::Evaluator(EvaluatorError::InvalidType {
            expected: vec![ObjectType::Integer, ObjectType::Float],
            found: ObjectType::String,
        })
    );
}

#[test]
fn missing_parenthesis_in_call() {
    assert_eq!(
        failure("print(1"),
        InterpreterError::Parser(ParserError::InvalidToken {
            expected: vec![TokenType::RightParen],
            found: TokenType::EndOfLine,
            pos: Position { line: 1, col: 7 },
        })
    );
}

#[test]
fn integer_overflow_wraps() {
    assert_eq!(typed("2147483647 + 1"), "integer(-2147483648)");
    assert_eq!(typed("-2147483647 - 2"), "integer(2147483647)");
    assert_eq!(typed("65536 * 65536"), "integer(0)");
}

#[test]
fn division_by_zero_is_an_error() {
    assert_eq!(
        failure("1 / 0"),
        InterpreterError::Evaluator(EvaluatorError::Operation { error: Error::DivisionByZero })
    );
    assert_eq!(
        failure("1 % 0"),
        InterpreterError::Evaluator(EvaluatorError::Operation { error: Error::DivisionByZero })
    );
}

#[test]
fn integer_division_truncates() {
    assert_eq!(typed("-7 / 2"), "integer(-3)");
    assert_eq!(typed("-7 % 3"), "integer(-1)");
    assert_eq!(typed("7 % -3"), "integer(1)");
}

#[test]
fn integer_power() {
    assert_eq!(typed("2 ^ 10"), "integer(1024)");
    assert_eq!(typed("2 ^ 31"), "integer(-2147483648)");
    assert_eq!(typed("3 ^ 0"), "integer(1)");
}

#[test]
fn mixing_promotes_to_float() {
    assert_eq!(typed("1 + 2.5"), "float(3.5)");
    assert_eq!(typed("2.5 * 2"), "float(5)");
    assert_eq!(typed("typeof(1 - 0.5)"), "string(\"float\")");
    assert_eq!(typed("-1.5"), "float(-1.5)");
}

#[test]
fn float_comparison() {
    assert_eq!(typed("1 < 1.5"), "boolean(true)");
    assert_eq!(typed("2.5 >= 3"), "boolean(false)");
}

#[test]
fn string_joins_on_either_side() {
    assert_eq!(typed("1 + \"a\""), "string(\"1a\")");
    assert_eq!(typed("\"a\" + true"), "string(\"atrue\")");
    assert_eq!(typed("\"v\" + 1.5"), "string(\"v1.5\")");
}

#[test]
fn subtracting_strings_is_a_type_error() {
    assert_eq!(
        failure("\"a\" - 1"),
        InterpreterError::Evaluator(EvaluatorError::Operation {
            error: Error::TypeError {
                operator: another_interpreted_language::ast::Operator::Arithmetic(ArithmeticOperator::Minus),
                lhs: ObjectType::String,
                rhs: ObjectType::Integer,
            },
        })
    );
}

#[test]
fn empty_program_is_void() {
    let r = run("");
    let t = r.outcome.unwrap();
    assert_eq!(t.kind, ObjectType::Void);
    assert_eq!(t.typed, "void");
}

#[test]
fn empty_function_body_is_void() {
    assert_eq!(typed("f = () {}\nf()"), "void");
}

#[test]
fn equality_across_types_is_false() {
    assert_eq!(typed("1 == \"1\""), "boolean(false)");
    assert_eq!(typed("1 != true"), "boolean(true)");
    assert_eq!(typed("1 == 1.0"), "boolean(false)");
    assert_eq!(typed("\"ab\" == \"ab\""), "boolean(true)");
    assert_eq!(typed("null == null"), "boolean(true)");
}

#[test]
fn string_comparison_is_lexicographic() {
    assert_eq!(typed("\"abc\" < \"abd\""), "boolean(true)");
    assert_eq!(typed("\"ab\" < \"a\""), "boolean(false)");
    assert_eq!(typed("\"b\" >= \"b\""), "boolean(true)");
}

#[test]
fn comparing_booleans_is_a_type_error() {
    assert!(matches!(
        failure("true < false"),
        InterpreterError::Evaluator(EvaluatorError::Operation { error: Error::TypeError { .. } })
    ));
}

#[test]
fn not_negates_a_boolean() {
    assert_eq!(typed("!true"), "boolean(false)");
    assert_eq!(typed("!(1 > 2)"), "boolean(true)");
}

#[test]
fn logical_operators_need_booleans() {
    assert_eq!(typed("true && false || true"), "boolean(true)");
    assert!(matches!(
        failure("true && 1"),
        InterpreterError::Evaluator(EvaluatorError::Operation { error: Error::TypeError { .. } })
    ));
}

#[test]
fn logical_operators_evaluate_both_sides() {
    let r = run("f = () { println(\"side\")\n return true }\nfalse && f()");
    assert_eq!(r.actions, vec![HostAction::Print("side\n".to_string())]);
    assert_eq!(r.outcome.unwrap().typed, "boolean(false)");
}

#[test]
fn if_condition_must_be_boolean() {
    assert_eq!(
        failure("if 1 { 2 }"),
        InterpreterError::Evaluator(EvaluatorError::InvalidType {
            expected: vec![ObjectType::Boolean],
            found: ObjectType::Integer,
        })
    );
}

#[test]
fn elif_and_else_chain() {
    let src = "x = 5\nr = 0\nif x < 3 { r = 1 } elif x < 6 { r = 2 } else { r = 3 }\nr";
    assert_eq!(typed(src), "integer(2)");
    let src = "x = 9\nr = 0\nif x < 3 { r = 1 } elif x < 6 { r = 2 } else { r = 3 }\nr";
    assert_eq!(typed(src), "integer(3)");
}

#[test]
fn bindings_made_in_an_if_body_are_dropped() {
    assert_eq!(
        failure("if true { z = 1 }\nz"),
        InterpreterError::Evaluator(EvaluatorError::ObjectNotFound { name: "z".to_string() })
    );
}

#[test]
fn parameters_shadow_outer_names() {
    assert_eq!(typed("n = 5\nf = (n) { return n }\nf(1)\nn"), "integer(5)");
    assert_eq!(typed("n = 5\nf = (n) { return n }\nf(1)"), "integer(1)");
}

#[test]
fn missing_argument_fails_at_use() {
    assert_eq!(
        failure("f = (a, b) { return b }\nf(1)"),
        InterpreterError::Evaluator(EvaluatorError::ObjectNotFound { name: "b".to_string() })
    );
    assert_eq!(typed("f = (a) { return a }\nf(1, 2)"), "integer(1)");
}

#[test]
fn calling_a_non_function() {
    assert_eq!(
        failure("__fc_y = 2\ny()"),
        InterpreterError::Evaluator(EvaluatorError::InvalidType {
            expected: vec![ObjectType::Function, ObjectType::NativeFunction],
            found: ObjectType::Integer,
        })
    );
}

#[test]
fn functions_live_under_the_reserved_prefix() {
    assert_eq!(
        failure("x = 1\nx()"),
        InterpreterError::Evaluator(EvaluatorError::ObjectNotFound { name: "__fc_x".to_string() })
    );
}

#[test]
fn compound_assignment() {
    assert_eq!(typed("x = 1\nx += 2\nx"), "integer(3)");
    assert_eq!(typed("x = 10\nx -= 4\nx *= 3\nx /= 2\nx %= 4\nx"), "integer(1)");
}

#[test]
fn break_stops_the_loop_and_the_block() {
    let src = "i = 0\nwhile true { i = i + 1\n if i == 4 { break } }\ni";
    let r = run(src);
    assert!(r.outcome.is_ok());
    let src = "f = () { i = 0\n while true { i = i + 1\n if i == 4 { break } }\n return 99 }\nf()";
    assert_eq!(typed(src), "void");
}

#[test]
fn print_and_println_ask_the_host() {
    let r = run("print(\"a\")\nprintln(12)\nprint(true)");
    assert_eq!(
        r.actions,
        vec![
            HostAction::Print("a".to_string()),
            HostAction::Print("12\n".to_string()),
            HostAction::Print("true".to_string()),
        ]
    );
    assert_eq!(r.outcome.unwrap().kind, ObjectType::Void);
}

#[test]
fn actions_before_an_error_are_kept() {
    let r = run("println(1)\ny");
    assert_eq!(r.actions, vec![HostAction::Print("1\n".to_string())]);
    assert!(r.outcome.is_err());
}

#[test]
fn sleep_asks_for_a_pause() {
    let r = run("sleep(25)");
    assert_eq!(r.actions, vec![HostAction::Sleep(25)]);
    let r = run("sleep(\"+7\")");
    assert_eq!(r.actions, vec![HostAction::Sleep(7)]);
    assert!(matches!(
        failure("sleep(-1)"),
        InterpreterError::Evaluator(EvaluatorError::InvalidType { .. })
    ));
}

#[test]
fn typeof_names_each_type() {
    assert_eq!(typed("typeof(1)"), "string(\"integer\")");
    assert_eq!(typed("typeof(true)"), "string(\"boolean\")");
    assert_eq!(typed("typeof(\"s\")"), "string(\"string\")");
    assert_eq!(typed("typeof(null)"), "string(\"null\")");
    assert_eq!(
        failure("typeof(print)"),
        InterpreterError::Evaluator(EvaluatorError::ObjectNotFound { name: "print".to_string() })
    );
    assert_eq!(typed("typeof(print(1))"), "string(\"void\")");
}

#[test]
fn plain_text_of_terminal_values() {
    let t = run("\"a\" + \"b\"").outcome.unwrap();
    assert_eq!(t.plain, "ab");
    let t = run("-5").outcome.unwrap();
    assert_eq!(t.plain, "-5");
    assert_eq!(t.kind, ObjectType::Integer);
}

#[test]
fn block_expression_and_group() {
    assert_eq!(typed("(1 + 2) * 3"), "integer(9)");
    assert_eq!(typed("x = { 4 }\nx"), "integer(4)");
}

#[test]
fn lone_ampersand_is_a_lex_error() {
    assert_eq!(
        failure("a & b"),
        InterpreterError::Lexer(LexerError::InvalidCharacter { character: '&', pos: Position { line: 1, col: 2 } })
    );
}

#[test]
fn unterminated_string_is_a_lex_error() {
    assert_eq!(
        failure("x = \"abc"),
        InterpreterError::Lexer(LexerError::InvalidCharacter { character: '"', pos: Position { line: 1, col: 4 } })
    );
}

#[test]
fn bad_unicode_escape_is_a_lex_error() {
    assert!(matches!(
        failure("\"\\u00zz\""),
        InterpreterError::Lexer(LexerError::InvalidCharacter { character: 'u', .. })
    ));
}

#[test]
fn escapes_in_strings() {
    let t = run("\"a\\tb\\u0041\\\\\\\"\"").outcome.unwrap();
    assert_eq!(t.plain, "a\tbA\\\"");
}

#[test]
fn comments_end_statements() {
    assert_eq!(typed("x = 3 # three\nx + 1 # four"), "integer(4)");
}

#[test]
fn semicolons_separate_statements() {
    assert_eq!(typed("a = 1; b = 2; a + b"), "integer(3)");
}

#[test]
fn unexpected_token_is_a_parse_error() {
    assert!(matches!(failure("x = )"), InterpreterError::Parser(ParserError::InvalidToken { .. })));
}

#[test]
fn functions_compare_by_declaration() {
    assert_eq!(typed("f = () { 1 }\n__fc_f == __fc_f"), "boolean(true)");
    assert_eq!(typed("f = () { 1 }\ng = () { 1 }\n__fc_f == __fc_g"), "boolean(false)");
    assert_eq!(typed("f = () { 1 }\nh = __fc_f\nf = () { 2 }\nh == __fc_f"), "boolean(false)");
    assert_eq!(typed("f = () { 1 }\nh = __fc_f\nf = () { 1 }\nh == __fc_f"), "boolean(true)");
}

#[test]
fn float_results_keep_their_type() {
    assert_eq!(typed("typeof(2 * 1.5)"), "string(\"float\")");
    assert_eq!(typed("typeof(1.5 < 2)"), "string(\"boolean\")");
    assert_eq!(typed("typeof(-2.5)"), "string(\"float\")");
    assert_eq!(typed("1.5 == 1.5"), "boolean(true)");
    assert_eq!(typed("x = 0.5\nx = x + 1\ntypeof(x)"), "string(\"float\")");
}

#[test]
fn float_answers_are_asked_in_order() {
    let r = run("println(1 + 0.5)");
    assert_eq!(r.actions, vec![HostAction::Print("1.5\n".to_string())]);
}
