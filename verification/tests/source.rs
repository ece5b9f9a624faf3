use jinme::builtins::{in_ns, plus};
use jinme::environment::Environment;
use jinme::eval_context::EvalContext;
use jinme::function::{FunctionArity, FunctionBuilder};
use jinme::handle::Handle;
use jinme::interpreter::{EvalError, Interpreter, NativeFunctions};
use jinme::namespace::Namespace;
use jinme::reader::ReadError;
use jinme::source::{eval_source, SourceOutcome};
use jinme::symbol::SymbolUnqualified;
use jinme::value::{PtrValue, Value};
use std::sync::Arc;

const PLUS: u64 = 1;
const FUEL: u64 = 10_000;

struct Natives;

impl NativeFunctions for Natives {
    fn invoke(
        &mut self,
        _interp: &mut Interpreter,
        id: u64,
        _ctx: &EvalContext,
        args: Vec<PtrValue>,
        _fuel: u64,
    ) -> Result<PtrValue, EvalError> {
        match id {
            PLUS => plus(&args).map_err(EvalError::Builtin),
            _ => Err(EvalError::UnknownImplementation(id)),
        }
    }
}

fn interpreter() -> Interpreter {
    let mut builder = Environment::builder();
    builder.set_current_namespace_var("clojure.core", "*ns*");
    let mut core = Namespace::new_empty("clojure.core");
    let mut f = FunctionBuilder::new();
    f.set_name("+".to_string());
    f.add_body(FunctionArity::AtLeast(0), PLUS);
    core.bind_value("+", Value::function(Arc::new(f.build())));
    builder.insert_namespace(Arc::new(core));
    let mut env = builder.build();
    in_ns(&mut env, &Value::symbol_unqualified("clojure.core")).ok().unwrap();
    Interpreter::new(env)
}

fn run(text: &str) -> SourceOutcome {
    let mut interp = interpreter();
    eval_source(&mut interp, &mut Natives, text, FUEL)
}

#[test]
fn eval_source_gives_the_value_of_the_last_form() {
    match run("(+ 1 2)\n(+ 3 4)\n") {
        SourceOutcome::Done(v) => assert_eq!(*v, Value::integer(7)),
        other => panic!("unexpected outcome: {:?}", other),
    }
}

#[test]
fn eval_source_of_a_text_without_forms_gives_nil() {
    match run("  ,\n; only a comment\n") {
        SourceOutcome::Done(v) => assert_eq!(*v, Value::nil()),
        other => panic!("unexpected outcome: {:?}", other),
    }
}

#[test]
fn eval_source_reports_where_an_unreadable_form_starts() {
    match run("(+ 1 2)  ) 5") {
        SourceOutcome::ReadFailed { last, offset, error } => {
            assert_eq!(*last, Value::integer(3));
            assert_eq!(offset, 9);
            assert!(matches!(error, ReadError::UnexpectedCloser(')')));
        }
        other => panic!("unexpected outcome: {:?}", other),
    }
}

#[test]
fn eval_source_reports_a_read_error_before_any_form() {
    match run("   (+ 1") {
        SourceOutcome::ReadFailed { last, offset, error } => {
            assert_eq!(*last, Value::nil());
            assert_eq!(offset, 3);
            assert!(matches!(error, ReadError::UnexpectedEnd));
        }
        other => panic!("unexpected outcome: {:?}", other),
    }
}

#[test]
fn eval_source_stops_at_the_first_failed_evaluation() {
    match run("(+ 1 2) no-such-var (+ 3 4)") {
        SourceOutcome::EvalFailed(EvalError::Resolve(_)) => {}
        other => panic!("unexpected outcome: {:?}", other),
    }
}
