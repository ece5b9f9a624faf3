use jinme::environment::Environment;
use jinme::eval_context::EvalContext;
use jinme::evaluation::{
    bind_arguments, extract_params, fn_star_arities, let_star_form, params_arity, special_form, try_resolve,
    BindError, FnStarError, LetStarError, ResolveError, SpecialForm,
};
use jinme::function::FunctionArity;
use jinme::builtins::in_ns;
use jinme::list::List;
use jinme::namespace::Namespace;
use jinme::symbol::{Symbol, SymbolUnqualified};
use jinme::value::{PtrValue, Value};
use jinme::var::Var;
use jinme::vector::Vector;
use std::sync::Arc;

fn create_env() -> Environment {
    let mut env_builder = Environment::builder();
    env_builder.set_current_namespace_var("clojure.core", "*ns*");
    let core = Namespace::new_empty("clojure.core");
    env_builder.insert_namespace(Arc::new(core));
    let mut env = env_builder.build();
    in_ns(&mut env, &Value::symbol_unqualified("clojure.core")).ok().unwrap();
    env
}

fn sym(name: &str) -> PtrValue {
    Value::symbol_unqualified_ptr(name)
}

#[test]
fn try_resolve_qualified_symbol() {
    // arrange
    let env = create_env();
    let symbol = Symbol::new_qualified("jinme.cli.tests", "my-var");
    // act
    let resolved = try_resolve(&env, &symbol);
    // assert
    assert!(resolved.is_err());
    assert!(matches!(resolved, Err(ResolveError::NoSuchNamespace(_))));
}

#[test]
fn try_resolve_unqualified_symbol() {
    // arrange
    let env = {
        let mut env = create_env();
        env.create_namespace("jinme.cli.tests");
        in_ns(&mut env, &Value::symbol_unqualified("jinme.cli.tests")).ok().unwrap();
        env
    };
    let symbol = Symbol::new_unqualified("my-var");
    // act
    let resolved = try_resolve(&env, &symbol);
    // assert
    assert!(resolved.is_err());
    assert!(matches!(resolved, Err(ResolveError::NoSuchVar(_))));
}

#[test]
fn try_resolve_finds_bound_var() {
    let mut env = create_env();
    let mut core = (*env.get_namespace_or_panic("clojure.core")).clone();
    core.insert_var("x", Arc::new(Var::new_bound(Value::integer(7))));
    env.insert_namespace(Arc::new(core));
    let var = try_resolve(&env, &Symbol::new_unqualified("x")).ok().unwrap();
    assert_eq!(var.deref(), Some(Value::integer_ptr(7)));
    let var = try_resolve(&env, &Symbol::new_qualified("clojure.core", "x")).ok().unwrap();
    assert_eq!(var.deref(), Some(Value::integer_ptr(7)));
}

#[test]
fn extract_params_with_rest() {
    let v = Vector::from(vec![sym("a"), sym("b"), sym("&"), sym("rest")]);
    let p = extract_params(&v);
    assert_eq!(p.regular, vec!["a".to_string(), "b".to_string()]);
    assert_eq!(p.variadic, Some("rest".to_string()));
    assert_eq!(params_arity(&p), FunctionArity::AtLeast(2));
    let q = extract_params(&Vector::from(vec![sym("x")]));
    assert_eq!(params_arity(&q), FunctionArity::Exactly(1));
}

#[test]
fn bind_arguments_binds_regular_and_rest() {
    let p = extract_params(&Vector::from(vec![sym("a"), sym("&"), sym("more")]));
    let ctx = EvalContext::new_empty().with_local("outer".to_string(), Value::nil_ptr());
    let args = vec![Value::integer_ptr(1), Value::integer_ptr(2), Value::integer_ptr(3)];
    let bound = bind_arguments(&p, &ctx, &args).ok().unwrap();
    assert_eq!(bound.resolve_local("a"), Some(Value::integer_ptr(1)));
    assert_eq!(
        *bound.resolve_local("more").unwrap(),
        Value::list_from(vec![Value::integer_ptr(2), Value::integer_ptr(3)])
    );
    assert!(bound.has_local("outer"));
    assert!(matches!(bind_arguments(&p, &ctx, &vec![]), Err(BindError::NotEnoughArguments)));
    let exact = extract_params(&Vector::from(vec![sym("a")]));
    assert!(matches!(bind_arguments(&exact, &ctx, &args), Err(BindError::TooManyArguments)));
}

#[test]
fn special_forms_are_recognised() {
    let l = List::from(vec![sym("let*"), Value::new_vector_empty_ptr()]);
    assert!(matches!(special_form(&l), Some(SpecialForm::LetStar)));
    let f = List::from(vec![sym("fn*")]);
    assert!(matches!(special_form(&f), Some(SpecialForm::FnStar)));
    let d = List::from(vec![sym("do"), Value::integer_ptr(1)]);
    assert!(matches!(special_form(&d), Some(SpecialForm::Do)));
    let other = List::from(vec![sym("+"), Value::integer_ptr(1)]);
    assert!(special_form(&other).is_none());
    assert!(special_form(&List::new_empty()).is_none());
}

#[test]
fn let_star_form_checks_bindings() {
    let good = List::from(vec![
        sym("let*"),
        Value::new_vector_ptr(vec![sym("x"), Value::integer_ptr(1)]),
        sym("x"),
    ]);
    let (bindings, body) = let_star_form(&good).ok().unwrap();
    assert_eq!(bindings.len(), 2);
    assert_eq!(body, vec![sym("x")]);
    let odd = List::from(vec![sym("let*"), Value::new_vector_ptr(vec![sym("x")])]);
    assert!(matches!(let_star_form(&odd), Err(LetStarError::OddBindingCount)));
    let bad = List::from(vec![sym("let*"), Value::integer_ptr(1)]);
    assert!(matches!(let_star_form(&bad), Err(LetStarError::NotABindingVector)));
}

#[test]
fn fn_star_forms_are_read() {
    let single = List::from(vec![sym("fn*"), Value::new_vector_ptr(vec![sym("x")]), sym("x")]);
    let arities = fn_star_arities(&single).ok().unwrap();
    assert_eq!(arities.len(), 1);
    assert_eq!(arities[0].0.regular, vec!["x".to_string()]);
    assert_eq!(arities[0].1, vec![sym("x")]);

    let multi = List::from(vec![
        sym("fn*"),
        Value::new_list_ptr(vec![Value::new_vector_empty_ptr(), Value::integer_ptr(0)]),
        Value::new_list_ptr(vec![Value::new_vector_ptr(vec![sym("a")]), sym("a")]),
    ]);
    let arities = fn_star_arities(&multi).ok().unwrap();
    assert_eq!(arities.len(), 2);
    assert_eq!(params_arity(&arities[1].0), FunctionArity::Exactly(1));

    assert!(matches!(fn_star_arities(&List::from(vec![sym("fn*")])), Err(FnStarError::MissingParameters)));
    let not_list = List::from(vec![sym("fn*"), Value::new_list_empty_ptr(), Value::integer_ptr(1)]);
    assert!(matches!(fn_star_arities(&not_list), Err(FnStarError::FormNotAList)));
    let bad_param = List::from(vec![sym("fn*"), Value::new_vector_ptr(vec![Value::integer_ptr(1)])]);
    assert!(matches!(fn_star_arities(&bad_param), Err(FnStarError::ParamNotASymbol)));
    let bad_first = List::from(vec![sym("fn*"), Value::integer_ptr(1)]);
    assert!(matches!(fn_star_arities(&bad_first), Err(FnStarError::NotParameters)));
}
