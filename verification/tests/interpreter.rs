use jinme::builtins::{in_ns, plus, BuiltinError};
use jinme::environment::Environment;
use jinme::eval_context::EvalContext;
use jinme::evaluation::{FnStarError, LetStarError};
use jinme::function::{FunctionArity, FunctionBuilder};
use jinme::handle::Handle;
use jinme::interpreter::{apply, eval, map_over, EvalError, Interpreter, NativeFunctions, CLOSURE_BASE};
use jinme::namespace::Namespace;
use jinme::symbol::SymbolUnqualified;
use jinme::value::{PtrValue, Value};
use jinme::var::Var;
use std::sync::Arc;

const PLUS: u64 = 1;
const FUEL: u64 = 10_000;

struct Natives;

impl NativeFunctions for Natives {
    fn invoke(
        &mut self,
        _interp: &mut Interpreter,
        id: u64,
        _ctx: &EvalContext,
        args: Vec<PtrValue>,
        _fuel: u64,
    ) -> Result<PtrValue, EvalError> {
        match id {
            PLUS => plus(&args).map_err(EvalError::Builtin),
            _ => Err(EvalError::UnknownImplementation(id)),
        }
    }
}

fn interpreter() -> Interpreter {
    let mut builder = Environment::builder();
    builder.set_current_namespace_var("clojure.core", "*ns*");
    let mut core = Namespace::new_empty("clojure.core");
    let mut f = FunctionBuilder::new();
    f.set_name("+".to_string());
    f.add_body(FunctionArity::AtLeast(0), PLUS);
    core.bind_value("+", Value::function(Arc::new(f.build())));
    core.bind_value("answer", Value::integer(42));
    core.insert_var("unbound", Arc::new(Var::new_unbound()));
    builder.insert_namespace(Arc::new(core));
    let mut env = builder.build();
    in_ns(&mut env, &Value::symbol_unqualified("clojure.core")).ok().unwrap();
    Interpreter::new(env)
}

fn sym(name: &str) -> PtrValue {
    Value::symbol_unqualified_ptr(name)
}

fn integer_v(i: i64) -> PtrValue {
    Value::integer_ptr(i)
}

fn list(items: Vec<PtrValue>) -> PtrValue {
    Arc::new(Value::list_from(items))
}

fn vector(items: Vec<PtrValue>) -> PtrValue {
    Arc::new(Value::vector_from(items))
}

fn run(interp: &mut Interpreter, form: PtrValue) -> Result<PtrValue, EvalError> {
    eval(interp, &mut Natives, &EvalContext::new_empty(), form, FUEL)
}

#[test]
fn literals_evaluate_to_themselves() {
    let mut interp = interpreter();
    let v = integer_v(42);
    assert_eq!(run(&mut interp, v.clone()).ok(), Some(v));
    let nil = Value::nil_ptr();
    assert_eq!(run(&mut interp, nil.clone()).ok(), Some(nil));
    let empty = list(vec![]);
    assert_eq!(run(&mut interp, empty.clone()).ok(), Some(empty));
}

#[test]
fn symbols_resolve_to_var_values_and_locals() {
    let mut interp = interpreter();
    assert_eq!(run(&mut interp, sym("answer")).ok(), Some(integer_v(42)));
    assert_eq!(run(&mut interp, Value::symbol_qualified_ptr("clojure.core", "answer")).ok(), Some(integer_v(42)));
    let ctx = EvalContext::new_empty().with_local("answer".to_string(), integer_v(7));
    assert_eq!(eval(&mut interp, &mut Natives, &ctx, sym("answer"), FUEL).ok(), Some(integer_v(7)));
    assert!(matches!(run(&mut interp, sym("missing")), Err(EvalError::Resolve(_))));
    assert!(matches!(run(&mut interp, sym("unbound")), Err(EvalError::UnboundVar)));
}

#[test]
fn calls_apply_the_head_to_the_arguments() {
    let mut interp = interpreter();
    let form = list(vec![sym("+"), integer_v(1), integer_v(2), integer_v(3)]);
    assert_eq!(run(&mut interp, form).ok(), Some(integer_v(6)));
    let nested = list(vec![sym("+"), integer_v(1), list(vec![sym("+"), integer_v(2), integer_v(3)])]);
    assert_eq!(run(&mut interp, nested).ok(), Some(integer_v(6)));
}

#[test]
fn vectors_evaluate_element_by_element() {
    let mut interp = interpreter();
    let form = vector(vec![sym("answer"), list(vec![sym("+"), integer_v(1), integer_v(1)])]);
    assert_eq!(run(&mut interp, form).ok(), Some(vector(vec![integer_v(42), integer_v(2)])));
}

#[test]
fn do_gives_the_last_value_or_nil() {
    let mut interp = interpreter();
    assert_eq!(run(&mut interp, list(vec![sym("do")])).ok(), Some(Value::nil_ptr()));
    assert_eq!(run(&mut interp, list(vec![sym("do"), integer_v(1), integer_v(2)])).ok(), Some(integer_v(2)));
}

#[test]
fn let_star_binds_in_order() {
    let mut interp = interpreter();
    let form = list(vec![
        sym("let*"),
        vector(vec![sym("x"), integer_v(1), sym("y"), list(vec![sym("+"), sym("x"), integer_v(10)])]),
        list(vec![sym("+"), sym("x"), sym("y")]),
    ]);
    assert_eq!(run(&mut interp, form).ok(), Some(integer_v(12)));
    let no_body = list(vec![sym("let*"), vector(vec![sym("x"), integer_v(1)])]);
    assert_eq!(run(&mut interp, no_body).ok(), Some(Value::nil_ptr()));
    let odd = list(vec![sym("let*"), vector(vec![sym("x")]), integer_v(1)]);
    assert!(matches!(run(&mut interp, odd), Err(EvalError::LetStar(LetStarError::OddBindingCount))));
    let not_vector = list(vec![sym("let*"), integer_v(1)]);
    assert!(matches!(run(&mut interp, not_vector), Err(EvalError::LetStar(LetStarError::NotABindingVector))));
    let bad_name = list(vec![sym("let*"), vector(vec![integer_v(1), integer_v(2)]), integer_v(3)]);
    assert!(matches!(run(&mut interp, bad_name), Err(EvalError::LetStarBindingName)));
}

#[test]
fn fn_star_makes_callable_closures() {
    let mut interp = interpreter();
    let add_one = list(vec![sym("fn*"), vector(vec![sym("x")]), list(vec![sym("+"), sym("x"), integer_v(1)])]);
    let call = list(vec![add_one.clone(), integer_v(41)]);
    assert_eq!(run(&mut interp, call).ok(), Some(integer_v(42)));
    assert_eq!(interp.closures.len(), 1);
    let f = run(&mut interp, add_one).ok().unwrap();
    match &*f {
        Value::Function(func, _) => {
            assert_eq!(func.arities(), vec![FunctionArity::Exactly(1)]);
            assert_eq!(func.body_supporting_arg_count(1), Some(CLOSURE_BASE + 1));
        },
        other => panic!("expected a function, got {:?}", other),
    }
}

#[test]
fn fn_star_closures_capture_locals_and_take_rest_arguments() {
    let mut interp = interpreter();
    let form = list(vec![
        sym("let*"),
        vector(vec![sym("base"), integer_v(100)]),
        list(vec![
            list(vec![sym("fn*"), vector(vec![sym("a"), sym("&"), sym("more")]), list(vec![sym("+"), sym("base"), sym("a")])]),
            integer_v(1),
            integer_v(2),
            integer_v(3),
        ]),
    ]);
    assert_eq!(run(&mut interp, form).ok(), Some(integer_v(101)));
    let rest = list(vec![
        list(vec![sym("fn*"), vector(vec![sym("&"), sym("more")]), sym("more")]),
        integer_v(1),
        integer_v(2),
    ]);
    assert_eq!(run(&mut interp, rest).ok(), Some(list(vec![integer_v(1), integer_v(2)])));
}

#[test]
fn fn_star_many_arities_and_errors() {
    let mut interp = interpreter();
    let f = list(vec![
        sym("fn*"),
        list(vec![vector(vec![]), integer_v(0)]),
        list(vec![vector(vec![sym("x")]), sym("x")]),
    ]);
    assert_eq!(run(&mut interp, list(vec![f.clone()])).ok(), Some(integer_v(0)));
    assert_eq!(run(&mut interp, list(vec![f.clone(), integer_v(5)])).ok(), Some(integer_v(5)));
    assert!(matches!(run(&mut interp, list(vec![f, integer_v(1), integer_v(2)])), Err(EvalError::UnsupportedArgCount(2))));
    assert!(matches!(run(&mut interp, list(vec![sym("fn*")])), Err(EvalError::FnStar(FnStarError::MissingParameters))));
    assert!(matches!(
        run(&mut interp, list(vec![sym("fn*"), vector(vec![integer_v(1)])])),
        Err(EvalError::FnStar(FnStarError::ParamNotASymbol))
    ));
    let clash = list(vec![
        sym("fn*"),
        list(vec![vector(vec![sym("&"), sym("r")])]),
        list(vec![vector(vec![sym("a"), sym("&"), sym("r")])]),
    ]);
    assert!(matches!(run(&mut interp, clash), Err(EvalError::InvalidArities)));
}

#[test]
fn applying_a_non_function_gives_it_back() {
    let mut interp = interpreter();
    let ctx = EvalContext::new_empty();
    assert_eq!(apply(&mut interp, &mut Natives, &ctx, integer_v(3), vec![integer_v(1)], FUEL).ok(), Some(integer_v(3)));
    assert_eq!(run(&mut interp, list(vec![integer_v(3), integer_v(1)])).ok(), Some(integer_v(3)));
}

#[test]
fn evaluation_stops_when_fuel_runs_out() {
    let mut interp = interpreter();
    let form = list(vec![sym("+"), integer_v(1), integer_v(2)]);
    let ctx = EvalContext::new_empty();
    assert!(matches!(eval(&mut interp, &mut Natives, &ctx, form.clone(), 0), Err(EvalError::OutOfFuel)));
    assert!(matches!(eval(&mut interp, &mut Natives, &ctx, integer_v(1), 0), Ok(_)));
}

#[test]
fn map_over_applies_to_each_element() {
    let mut interp = interpreter();
    let add_one = run(
        &mut interp,
        list(vec![sym("fn*"), vector(vec![sym("x")]), list(vec![sym("+"), sym("x"), integer_v(1)])]),
    )
    .ok()
    .unwrap();
    let r = map_over(&mut interp, &mut Natives, add_one.clone(), list(vec![integer_v(1), integer_v(2)]), FUEL);
    assert_eq!(r.ok(), Some(list(vec![integer_v(2), integer_v(3)])));
    let r = map_over(&mut interp, &mut Natives, add_one.clone(), vector(vec![integer_v(5)]), FUEL);
    assert_eq!(r.ok(), Some(vector(vec![integer_v(6)])));
    assert!(matches!(
        map_over(&mut interp, &mut Natives, add_one, integer_v(1), FUEL),
        Err(EvalError::Builtin(BuiltinError::NotACollection))
    ));
}

#[test]
fn map_over_maps_and_sets() {
    let mut interp = interpreter();
    let second = run(
        &mut interp,
        list(vec![sym("fn*"), vector(vec![sym("kv")]), sym("kv")]),
    )
    .ok()
    .unwrap();
    let m = Value::new_map_ptr(vec![(Value::keyword_unqualified_ptr("a"), integer_v(1))]);
    let r = map_over(&mut interp, &mut Natives, second, m, FUEL);
    assert_eq!(
        r.ok(),
        Some(vector(vec![vector(vec![Value::keyword_unqualified_ptr("a"), integer_v(1)])]))
    );
    let constant = run(
        &mut interp,
        list(vec![sym("fn*"), vector(vec![sym("x")]), integer_v(7)]),
    )
    .ok()
    .unwrap();
    let s = Value::new_set_ptr(vec![integer_v(1), integer_v(2)]);
    let r = map_over(&mut interp, &mut Natives, constant, s, FUEL);
    assert_eq!(r.ok(), Some(Value::new_set_ptr(vec![integer_v(7)])));
}

#[test]
fn applying_a_fn_star_function_binds_its_parameters_over_captured_locals() {
    let mut interp = interpreter();
    let form = list(vec![
        sym("let*"),
        vector(vec![sym("y"), integer_v(10)]),
        list(vec![sym("fn*"), vector(vec![sym("x")]), list(vec![sym("+"), sym("x"), sym("y")])]),
    ]);
    let f = run(&mut interp, form).ok().unwrap();
    let r = apply(&mut interp, &mut Natives, &EvalContext::new_empty(), f.clone(), vec![integer_v(5)], FUEL);
    assert_eq!(r.ok(), Some(integer_v(15)));
    let r = apply(&mut interp, &mut Natives, &EvalContext::new_empty(), f, vec![], FUEL);
    assert!(matches!(r, Err(EvalError::UnsupportedArgCount(0))));
}

#[test]
fn more_fuel_gives_the_same_result() {
    let form = list(vec![
        sym("let*"),
        vector(vec![sym("f"), list(vec![sym("fn*"), vector(vec![sym("x")]), list(vec![sym("+"), sym("x"), integer_v(1)])])]),
        list(vec![sym("f"), list(vec![sym("f"), integer_v(1)])]),
    ]);
    let mut first = None;
    for fuel in [6u64, 7, 50, FUEL] {
        let mut interp = interpreter();
        let r = eval(&mut interp, &mut Natives, &EvalContext::new_empty(), form.clone(), fuel);
        match r {
            Err(EvalError::OutOfFuel) => assert!(first.is_none()),
            Ok(v) => {
                if let Some(prev) = &first {
                    assert_eq!(&v, prev);
                }
                first = Some(v);
            },
            Err(e) => panic!("unexpected error {:?}", e),
        }
    }
    assert_eq!(first, Some(integer_v(3)));
}
