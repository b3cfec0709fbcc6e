use vstd::prelude::*;
use crate::errors::{EvaluatorError, LexerError, ParserError};
use crate::evaluator::{Evaluator, Host, HostAction};
use crate::lexer::Lexer;
use crate::object::{FloatArith, ObjectType};
use crate::parser::Parser;
use crate::ast::Node;
use crate::grammar::{g_statements, perr_of};
use crate::lexer::{lex, toks_view};
use crate::object::NativeFunctionObject;
use crate::semantics::{acts_of, env_of, fault_of, lemma_value_views, plain_of, prefix, sem_program, tag_of, FloatAnswer, State, Value};
use crate::syntax::nodes_of;
use crate::token::{Position, Token};

verus! {

/// Why a run stopped, by the stage that stopped it.
#[derive(Clone, Debug, PartialEq)]
pub enum InterpreterError {
    Lexer(LexerError),
    Parser(ParserError),
    Evaluator(EvaluatorError),
}

/// The value a run ended with, in its two text forms.
#[derive(Clone, Debug, PartialEq)]
pub struct Terminal {
    pub kind: ObjectType,
    /// As `print` writes it.
    pub plain: String,
    /// With its type, as the interactive loop shows it.
    pub typed: String,
}

/// What a run asked of the host, in order, and how it ended. The actions
/// are those taken before the end, also where the run stopped on an error.
pub struct Run {
    pub actions: Vec<HostAction>,
    pub outcome: Result<Terminal, InterpreterError>,
    /// The answers the float arithmetic gave, in order.
    pub floats: Ghost<Seq<FloatAnswer>>,
}

/// A fresh environment: the built-in functions and nothing else.
pub open spec fn builtin_state() -> State {
    State {
        env: seq![
            ("__fc_print"@, Value::Native(NativeFunctionObject::Print)),
            ("__fc_println"@, Value::Native(NativeFunctionObject::Println)),
            ("__fc_typeof"@, Value::Native(NativeFunctionObject::Typeof)),
            ("__fc_sleep"@, Value::Native(NativeFunctionObject::Sleep)),
        ],
        acts: Seq::empty(),
        used: 0,
    }
}

/// The run asked the host for the same things as the semantics and ended
/// with the same value (by type and plain text) or the same fault.
pub open spec fn run_agrees(r: Run, sem: (State, Result<Value, crate::semantics::Fault>)) -> bool {
    match sem {
        (s, res) => acts_of(r.actions@) == s.acts && match res {
            Ok(v) => r.outcome is Ok && r.outcome->Ok_0.kind == tag_of(v) && (plain_of(v) matches Some(t)
                ==> r.outcome->Ok_0.plain@ == t),
            Err(f) => r.outcome is Err && r.outcome->Err_0 is Evaluator && fault_of(r.outcome->Err_0->Evaluator_0) == f,
        },
    }
}

/// Lexes, parses and evaluates a script in a fresh environment, telling
/// `host` of each request as it is made. A lexing
/// error is the one `lex` gives; otherwise the tokens are those `lex` gives,
/// a parse error is the one the grammar gives on them, and the run agrees
/// with `sem_program` on the program the grammar reads, with the float
/// answers recorded in `floats`.
pub fn interpret<F: FloatArith, H: Host>(source: &str, host: &mut H) -> (r: Run)
    requires
        source@.len() < usize::MAX,
    ensures
        r.outcome is Err && r.outcome->Err_0 is Lexer ==> r.actions@.len() == 0,
        r.outcome is Err && r.outcome->Err_0 is Parser ==> r.actions@.len() == 0,
        match lex(source@, 0, Position { line: 1, col: 0 }, Seq::empty()) {
            Err(e) => r.outcome == Err::<Terminal, InterpreterError>(InterpreterError::Lexer(e)),
            Ok(vs) => exists|ts: Seq<Token>, prog: Seq<Node>|
                #![trigger toks_view(ts), nodes_of(prog)]
                toks_view(ts) == vs && match g_statements(ts, 0, Seq::empty()) {
                    Err(e) => r.outcome is Err && r.outcome->Err_0 is Parser && perr_of(r.outcome->Err_0->Parser_0) == e,
                    Ok((v, _)) => v == nodes_of(prog) && run_agrees(
                        r,
                        sem_program(r.floats@, builtin_state(), prog, 0, u64::MAX as nat, Value::Void, 4),
                    ),
                },
        },
{
    let mut lexer = Lexer::from(source);
    let tokens = match lexer.tokenize::<F>() {
        Ok(tokens) => tokens,
        Err(e) => {
            return Run { actions: Vec::new(), floats: Ghost(Seq::empty()), outcome: Err(InterpreterError::Lexer(e)) };
        },
    };
    let mut parser = Parser::from(&tokens);
    let program = match parser.parse() {
        Ok(Node::Program(statements)) => statements,
        Ok(_) => {
            return Run { actions: Vec::new(), floats: Ghost(Seq::empty()), outcome: Err(InterpreterError::Parser(ParserError::InvalidStatement)) };
        },
        Err(e) => {
            let r = Run { actions: Vec::new(), floats: Ghost(Seq::empty()), outcome: Err(InterpreterError::Parser(e)) };
            let ghost witness_tokens = toks_view(tokens@);
            let ghost witness_program = nodes_of(Seq::<Node>::empty());
            return r;
        },
    };
    let mut evaluator = Evaluator::new(&program);
    assert(evaluator.state() =~= builtin_state()) by {
        assert(acts_of(evaluator.actions@) =~= Seq::empty());
        assert(env_of(evaluator.env@) =~= builtin_state().env) by {
            assert forall|i: int| 0 <= i < 4 implies #[trigger] env_of(evaluator.env@)[i] == builtin_state().env[i] by {
                assert(evaluator.env@[i].0@ == crate::evaluator::builtin_names()[i]);
            }
        }
    }
    let result = evaluator.eval::<F, H>(host);
    let outcome = match result {
        Ok(value) => {
            proof {
                lemma_value_views(value);
            }
            Ok(Terminal {
                kind: value.get_type(),
                plain: value.to_string::<F>(),
                typed: value.to_string_with_type::<F>(),
            })
        },
        Err(e) => Err(InterpreterError::Evaluator(e)),
    };
    let ghost fl = evaluator.floats@;
    assert(prefix(fl, fl));
    let r = Run { actions: evaluator.actions, outcome, floats: evaluator.floats };
    let ghost witness_tokens = toks_view(tokens@);
    let ghost witness_program = nodes_of(program@);
    r
}

} // verus!
