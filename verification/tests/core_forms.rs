use jinme::builtins::{assoc, create_ns, find_ns, get_in, get_or_nil, in_ns, intern, minus, ns_name, plus, remove_ns, symbol1};
use jinme::environment::Environment;
use jinme::eval_context::EvalContext;
use jinme::function::{FunctionArity, FunctionBuilder};
use jinme::interpreter::{EvalError, Interpreter, NativeFunctions};
use jinme::namespace::Namespace;
use jinme::reader::read;
use jinme::source::{eval_source, SourceOutcome};
use jinme::value::{PtrValue, Value};
use std::sync::Arc;

const FUEL: u64 = 10_000;

const NATIVES: [(&str, FunctionArity); 12] = [
    ("+", FunctionArity::AtLeast(0)),
    ("-", FunctionArity::AtLeast(2)),
    ("get", FunctionArity::Exactly(2)),
    ("get-in", FunctionArity::Exactly(2)),
    ("assoc", FunctionArity::AtLeast(3)),
    ("symbol", FunctionArity::Exactly(1)),
    ("in-ns", FunctionArity::Exactly(1)),
    ("create-ns", FunctionArity::Exactly(1)),
    ("find-ns", FunctionArity::Exactly(1)),
    ("ns-name", FunctionArity::Exactly(1)),
    ("intern", FunctionArity::Exactly(3)),
    ("remove-ns", FunctionArity::Exactly(1)),
];

/// Runs the builtins of `clojure.core` that the tests bind, numbered by
/// their place in `NATIVES`.
struct CoreHost;

impl NativeFunctions for CoreHost {
    fn invoke(
        &mut self,
        interp: &mut Interpreter,
        id: u64,
        _ctx: &EvalContext,
        args: Vec<PtrValue>,
        _fuel: u64,
    ) -> Result<PtrValue, EvalError> {
        let r = match id {
            0 => plus(&args),
            1 => minus(&args),
            2 => get_or_nil(args[0].clone(), args[1].clone()),
            3 => get_in(args[0].clone(), args[1].clone()),
            4 => assoc(&args),
            5 => symbol1(&args[0]),
            6 => in_ns(&mut interp.env, &args[0]),
            7 => create_ns(&mut interp.env, &args[0]),
            8 => find_ns(&mut interp.env, &args[0]),
            9 => ns_name(&args[0]),
            10 => intern(&mut interp.env, &args[0], &args[1], Some(args[2].clone())),
            11 => remove_ns(&mut interp.env, &args[0]),
            _ => return Err(EvalError::UnknownImplementation(id)),
        };
        r.map_err(EvalError::Builtin)
    }
}

fn interpreter() -> Interpreter {
    let mut builder = Environment::builder();
    builder.set_current_namespace_var("clojure.core", "*ns*");
    let mut core = Namespace::new_empty("clojure.core");
    for (id, (name, arity)) in NATIVES.iter().enumerate() {
        let mut f = FunctionBuilder::new();
        f.set_name(name.to_string());
        f.add_body(*arity, id as u64);
        core.bind_value(name, Value::function(Arc::new(f.build())));
    }
    builder.insert_namespace(Arc::new(core));
    let mut env = builder.build();
    in_ns(&mut env, &Value::symbol_unqualified("clojure.core")).ok().unwrap();
    Interpreter::new(env)
}

fn run(text: &str) -> PtrValue {
    let mut interp = interpreter();
    match eval_source(&mut interp, &mut CoreHost, text, FUEL) {
        SourceOutcome::Done(v) => v,
        other => panic!("unexpected outcome: {:?}", other),
    }
}

fn value_of(text: &str) -> PtrValue {
    read(text).ok().unwrap().1.unwrap()
}

#[test]
fn maps_are_built_and_read_through_the_core_functions() {
    assert_eq!(*run("(get (assoc {:a 1} :b 2) :b)"), Value::integer(2));
    assert_eq!(*run("(get-in {:a {:b 3}} [:a :b])"), Value::integer(3));
    assert_eq!(*run("(get {:a 1} :z)"), Value::nil());
    assert_eq!(*run("(- (+ 1 2 3) 4)"), Value::integer(2));
}

#[test]
fn in_ns_makes_a_namespace_current() {
    assert_eq!(*run("(clojure.core/ns-name (in-ns (symbol \"user\")))"), *value_of("user"));
    let text = "(clojure.core/in-ns (clojure.core/symbol \"user\"))\n\
                (clojure.core/intern (clojure.core/find-ns (clojure.core/symbol \"user\")) (clojure.core/symbol \"y\") 7)\n\
                y";
    assert_eq!(*run(text), Value::integer(7));
}

#[test]
fn the_current_namespace_outlives_its_removal() {
    let text = "(clojure.core/in-ns (clojure.core/symbol \"user\"))\n\
                (clojure.core/intern (clojure.core/find-ns (clojure.core/symbol \"user\")) (clojure.core/symbol \"y\") 7)\n\
                (clojure.core/remove-ns (clojure.core/symbol \"user\"))\n\
                y";
    assert_eq!(*run(text), Value::integer(7));
    assert_eq!(*run("(find-ns (symbol \"user\"))"), Value::nil());
}

#[test]
fn interned_vars_are_seen_by_later_forms() {
    assert_eq!(*run("(intern (find-ns (symbol \"clojure.core\")) (symbol \"x\") 5)\nx"), Value::integer(5));
    assert_eq!(*run("(ns-name (create-ns (symbol \"other\")))"), *value_of("other"));
}
