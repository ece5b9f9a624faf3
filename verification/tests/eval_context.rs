use jinme::eval_context::EvalContext;
use jinme::value::Value;

#[test]
fn empty_context() {
    let ctx = EvalContext::new_empty();
    assert!(ctx.is_empty());
    assert_eq!(ctx.len(), 0);
}

#[test]
fn with_local() {
    let ctx = EvalContext::new_empty();
    let value = Value::integer_ptr(42);
    let ctx2 = ctx.with_local("x".to_string(), value.clone());

    assert!(ctx.is_empty());
    assert!(!ctx2.is_empty());
    assert_eq!(ctx2.len(), 1);
    assert_eq!(ctx2.resolve_local("x"), Some(value));
}

#[test]
fn with_locals_batch() {
    let ctx = EvalContext::new_empty();
    let val1 = Value::integer_ptr(1);
    let val2 = Value::integer_ptr(2);
    let bindings = vec![("a".to_string(), val1.clone()), ("b".to_string(), val2.clone())];

    let ctx2 = ctx.with_locals(bindings);
    assert_eq!(ctx2.len(), 2);
    assert_eq!(ctx2.resolve_local("a"), Some(val1));
    assert_eq!(ctx2.resolve_local("b"), Some(val2));
}

#[test]
fn shadowing() {
    let ctx = EvalContext::new_empty();
    let val1 = Value::integer_ptr(1);
    let val2 = Value::integer_ptr(2);

    let ctx2 = ctx.with_local("x".to_string(), val1.clone());
    let ctx3 = ctx2.with_local("x".to_string(), val2.clone());

    assert_eq!(ctx2.resolve_local("x"), Some(val1));
    assert_eq!(ctx3.resolve_local("x"), Some(val2));
    assert_eq!(ctx3.len(), 1);
}

#[test]
fn insert_local_in_place() {
    let mut ctx = EvalContext::default();
    ctx.insert_local("y".to_string(), Value::integer_ptr(5));
    ctx.insert_locals(vec![("z".to_string(), Value::nil_ptr()), ("y".to_string(), Value::integer_ptr(6))]);
    assert!(ctx.has_local("z"));
    assert_eq!(ctx.resolve_local("y"), Some(Value::integer_ptr(6)));
    assert_eq!(ctx.resolve_local("w"), None);
}

#[test]
fn with_local_counts_a_new_name_once() {
    let ctx = EvalContext::new_empty().with_local("x".to_string(), Value::integer_ptr(1));
    let added = ctx.with_local("y".to_string(), Value::integer_ptr(2));
    let shadowed = ctx.with_local("x".to_string(), Value::integer_ptr(3));
    assert_eq!(added.len(), ctx.len() + 1);
    assert_eq!(shadowed.len(), ctx.len());
    assert_eq!(ctx.resolve_local("x"), Some(Value::integer_ptr(1)));
}
