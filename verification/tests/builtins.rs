use jinme::builtins::{
    assoc, assoc_in, create_ns, dissoc, find_ns, first, get, get_in, in_ns, intern, keys, last, minus, ns_aliases,
    ns_imports, ns_name, ns_publics, ns_refers, ns_resolve, ns_unalias, ns_unmap, plus, remove_ns, resolve,
    second, symbol2, vals, ns_map_2, BuiltinError,
};
use jinme::environment::Environment;
use jinme::float::Float;
use jinme::handle::{Handle, NamespaceHandle};
use jinme::map::ValueMap;
use jinme::namespace::Namespace;
use jinme::symbol::SymbolUnqualified;
use jinme::value::{PtrValue, Value};
use jinme::var::Var;
use std::sync::Arc;

fn kw(name: &str) -> PtrValue {
    Value::keyword_unqualified_ptr(name)
}

fn integer_v(i: i64) -> PtrValue {
    Value::integer_ptr(i)
}

fn map_of(pairs: Vec<(PtrValue, PtrValue)>) -> PtrValue {
    Value::new_map_ptr(pairs)
}

fn as_map(v: &PtrValue) -> &ValueMap {
    match &**v {
        Value::ValueMap(m, _) => m,
        other => panic!("Expected map, got: {:?}", other),
    }
}

fn create_env() -> Environment {
    let mut env_builder = Environment::builder();
    env_builder.set_current_namespace_var("clojure.core", "*ns*");
    let core = Namespace::new_empty("clojure.core");
    env_builder.insert_namespace(Arc::new(core));
    let mut env = env_builder.build();
    in_ns(&mut env, &Value::symbol_unqualified("clojure.core")).ok().unwrap();
    env
}

/// A handle to `clojure.core`, the first namespace the environment took in.
fn core_handle() -> Value {
    Value::handle(Handle::Namespace(NamespaceHandle { id: 0, serial: 0, name: SymbolUnqualified::new("clojure.core") }))
}

#[test]
fn assoc_add_single_key() {
    let result = assoc(&vec![map_of(vec![(kw("a"), integer_v(1))]), kw("b"), integer_v(2)]).ok().unwrap();
    let m = as_map(&result);
    assert_eq!(m.get(&kw("a")), Some(integer_v(1)));
    assert_eq!(m.get(&kw("b")), Some(integer_v(2)));
}

#[test]
fn assoc_update_existing_key() {
    let result = assoc(&vec![map_of(vec![(kw("a"), integer_v(1)), (kw("b"), integer_v(2))]), kw("a"), integer_v(10)]).ok().unwrap();
    let m = as_map(&result);
    assert_eq!(m.get(&kw("a")), Some(integer_v(10)));
    assert_eq!(m.get(&kw("b")), Some(integer_v(2)));
}

#[test]
fn assoc_multiple_kvpairs() {
    let args = vec![map_of(vec![(kw("a"), integer_v(1))]), kw("b"), integer_v(2), kw("c"), integer_v(3), kw("d"), integer_v(4)];
    let result = assoc(&args).ok().unwrap();
    let m = as_map(&result);
    for (k, v) in [("a", 1), ("b", 2), ("c", 3), ("d", 4)] {
        assert_eq!(m.get(&kw(k)), Some(integer_v(v)));
    }
}

#[test]
fn assoc_mixed_add_and_update() {
    let args = vec![map_of(vec![(kw("a"), integer_v(1)), (kw("b"), integer_v(2))]), kw("a"), integer_v(100), kw("c"), integer_v(3)];
    let result = assoc(&args).ok().unwrap();
    let m = as_map(&result);
    assert_eq!(m.get(&kw("a")), Some(integer_v(100)));
    assert_eq!(m.get(&kw("b")), Some(integer_v(2)));
    assert_eq!(m.get(&kw("c")), Some(integer_v(3)));
}

#[test]
fn assoc_empty_map() {
    let result = assoc(&vec![map_of(vec![]), kw("a"), integer_v(1)]).ok().unwrap();
    let m = as_map(&result);
    assert_eq!(m.len(), 1);
    assert_eq!(m.get(&kw("a")), Some(integer_v(1)));
}

#[test]
fn assoc_odd_arguments() {
    let result = assoc(&vec![map_of(vec![(kw("a"), integer_v(1))]), kw("b"), integer_v(2), kw("c")]);
    assert!(matches!(result, Err(BuiltinError::OddKeyValueArguments)));
}

#[test]
fn assoc_on_nil_and_on_non_collections() {
    let result = assoc(&vec![Value::nil_ptr(), kw("a"), integer_v(1)]).ok().unwrap();
    assert_eq!(as_map(&result).get(&kw("a")), Some(integer_v(1)));
    assert!(matches!(assoc(&vec![integer_v(1), kw("a"), integer_v(1)]), Err(BuiltinError::NotAssociative)));
}

#[test]
fn dissoc_removes_single_key() {
    let result = dissoc(&vec![map_of(vec![(kw("a"), integer_v(1)), (kw("b"), integer_v(2))]), kw("a")]);
    let m = as_map(&result);
    assert_eq!(m.len(), 1);
    assert!(!m.contains_key(&kw("a")));
    assert_eq!(m.get(&kw("b")), Some(integer_v(2)));
}

#[test]
fn dissoc_removes_multiple_keys() {
    let result = dissoc(&vec![map_of(vec![(kw("a"), integer_v(1)), (kw("b"), integer_v(2)), (kw("c"), integer_v(3))]), kw("a"), kw("c")]);
    let m = as_map(&result);
    assert_eq!(m.len(), 1);
    assert!(!m.contains_key(&kw("a")));
    assert!(m.contains_key(&kw("b")));
    assert!(!m.contains_key(&kw("c")));
}

#[test]
fn dissoc_on_non_existent_key() {
    let result = dissoc(&vec![map_of(vec![(kw("a"), integer_v(1))]), kw("missing")]);
    let m = as_map(&result);
    assert_eq!(m.len(), 1);
    assert_eq!(m.get(&kw("a")), Some(integer_v(1)));
}

#[test]
fn dissoc_empty_map() {
    let result = dissoc(&vec![map_of(vec![]), kw("a")]);
    assert_eq!(as_map(&result).len(), 0);
}

#[test]
fn dissoc_all_keys() {
    let result = dissoc(&vec![map_of(vec![(kw("a"), integer_v(1)), (kw("b"), integer_v(2))]), kw("a"), kw("b")]);
    assert_eq!(as_map(&result).len(), 0);
}

#[test]
fn assoc_in_empty_map_nested() {
    let result = assoc_in(map_of(vec![]), Value::new_vector_ptr(vec![kw("a"), kw("b"), kw("c")]), integer_v(42)).ok().unwrap();
    let ab = as_map(&result).get_or_nil(&kw("a"));
    let abc = as_map(&ab).get_or_nil(&kw("b"));
    assert_eq!(as_map(&abc).get(&kw("c")), Some(integer_v(42)));
}

#[test]
fn assoc_in_existing_map() {
    let m = map_of(vec![(kw("x"), map_of(vec![(kw("y"), integer_v(1))]))]);
    let result = assoc_in(m, Value::new_vector_ptr(vec![kw("x"), kw("z")]), integer_v(2)).ok().unwrap();
    let inner = as_map(&result).get_or_nil(&kw("x"));
    assert_eq!(as_map(&inner).get(&kw("y")), Some(integer_v(1)));
    assert_eq!(as_map(&inner).get(&kw("z")), Some(integer_v(2)));
}

#[test]
fn assoc_in_vector() {
    let v = Value::new_vector_ptr(vec![integer_v(1), integer_v(2), integer_v(3)]);
    let result = assoc_in(v, Value::new_vector_ptr(vec![integer_v(1)]), integer_v(99)).ok().unwrap();
    match &*result {
        Value::Vector(vec, _) => {
            assert_eq!(vec.get_nth(0), Some(integer_v(1)));
            assert_eq!(vec.get_nth(1), Some(integer_v(99)));
            assert_eq!(vec.get_nth(2), Some(integer_v(3)));
        }
        other => panic!("Expected vector, got: {:?}", other),
    }
}

#[test]
fn assoc_in_nil_input() {
    let result = assoc_in(Value::nil_ptr(), Value::new_vector_ptr(vec![kw("a"), kw("b")]), integer_v(1)).ok().unwrap();
    let inner = as_map(&result).get_or_nil(&kw("a"));
    assert_eq!(as_map(&inner).get(&kw("b")), Some(integer_v(1)));
}

#[test]
fn assoc_in_mixed_map_vector() {
    let names = Value::new_vector_ptr(vec![
        Value::string_ptr("foo".to_string()),
        kw("bar"),
        map_of(vec![(kw("qux"), kw("zap"))]),
    ]);
    let m = map_of(vec![(kw("names"), names)]);
    let result = assoc_in(m, Value::new_vector_ptr(vec![kw("names"), integer_v(2), kw("whirlwind")]), integer_v(99)).ok().unwrap();
    let names = as_map(&result).get_or_nil(&kw("names"));
    match &*names {
        Value::Vector(vec, _) => {
            let element_2 = vec.get_nth(2).unwrap();
            assert_eq!(as_map(&element_2).get(&kw("qux")), Some(kw("zap")));
            assert_eq!(as_map(&element_2).get(&kw("whirlwind")), Some(integer_v(99)));
        }
        other => panic!("Expected vector, got: {:?}", other),
    }
}

#[test]
fn assoc_in_empty_path_on_map() {
    let result = assoc_in(map_of(vec![(kw("a"), integer_v(1))]), Value::new_vector_empty_ptr(), integer_v(2)).ok().unwrap();
    let m = as_map(&result);
    assert_eq!(m.get(&Value::nil_ptr()), Some(integer_v(2)));
    assert_eq!(m.get(&kw("a")), Some(integer_v(1)));
}

#[test]
fn assoc_in_empty_path_on_vector() {
    let result = assoc_in(Value::new_vector_ptr(vec![integer_v(1)]), Value::new_vector_empty_ptr(), integer_v(2));
    assert!(matches!(result, Err(BuiltinError::KeyNotInteger)));
}

#[test]
fn assoc_in_vector_out_of_bounds() {
    let result = assoc_in(Value::new_vector_ptr(vec![kw("a"), integer_v(1)]), Value::new_vector_ptr(vec![integer_v(8)]), integer_v(99));
    assert!(matches!(result, Err(BuiltinError::IndexOutOfBounds(8))));
}

#[test]
fn get_and_get_in() {
    let m = map_of(vec![(kw("a"), Value::new_vector_ptr(vec![integer_v(5), integer_v(6)]))]);
    assert_eq!(get(m.clone(), kw("a"), Value::nil_ptr()).ok().unwrap().is_vector(), true);
    assert_eq!(get(m.clone(), kw("zz"), integer_v(0)).ok().unwrap(), integer_v(0));
    assert_eq!(get_in(m.clone(), Value::new_vector_ptr(vec![kw("a"), integer_v(1)])).ok().unwrap(), integer_v(6));
    assert!(get_in(m.clone(), Value::new_vector_ptr(vec![kw("b"), integer_v(1)])).ok().unwrap().is_nil());
    assert!(matches!(get_in(m, integer_v(1)), Err(BuiltinError::NotAVector)));
    let v = Value::new_vector_ptr(vec![integer_v(5)]);
    assert!(matches!(get(v.clone(), kw("x"), Value::nil_ptr()), Err(BuiltinError::KeyNotInteger)));
    assert_eq!(get(v, integer_v(-1), integer_v(7)).ok().unwrap(), integer_v(7));
}

#[test]
fn keys_vals_first_second_last() {
    let m = map_of(vec![(kw("a"), integer_v(1)), (kw("b"), integer_v(2))]);
    assert_eq!(*keys(&m).ok().unwrap(), Value::list_from(vec![kw("a"), kw("b")]));
    assert_eq!(*vals(&m).ok().unwrap(), Value::list_from(vec![integer_v(1), integer_v(2)]));
    let l = Value::list_from(vec![integer_v(1), integer_v(2), integer_v(3)]);
    assert_eq!(first(&l), integer_v(1));
    assert_eq!(second(&l), integer_v(2));
    assert_eq!(last(&l), integer_v(3));
    assert!(first(&Value::nil()).is_nil());
}

#[test]
fn arithmetic_on_integers_and_floats() {
    assert_eq!(plus(&vec![integer_v(1), integer_v(2), integer_v(3)]).ok().unwrap(), integer_v(6));
    assert_eq!(plus(&vec![]).ok().unwrap(), integer_v(0));
    let f = |x: f64| Value::float_ptr(Float::from_bits(x.to_bits()));
    assert_eq!(*plus(&vec![integer_v(1), f(0.5)]).ok().unwrap(), *f(1.5));
    assert!(matches!(plus(&vec![integer_v(i64::MAX), integer_v(1)]), Err(BuiltinError::IntegerOverflow)));
    assert!(matches!(plus(&vec![kw("a")]), Err(BuiltinError::NotANumber)));
    assert_eq!(minus(&vec![integer_v(10), integer_v(3), integer_v(2)]).ok().unwrap(), integer_v(5));
    assert_eq!(*minus(&vec![f(5.0), integer_v(2)]).ok().unwrap(), *f(3.0));
    assert_eq!(*minus(&vec![integer_v(10), f(0.5), integer_v(2)]).ok().unwrap(), *f(7.5));
    assert!(matches!(minus(&vec![kw("a"), f(1.0)]), Err(BuiltinError::NotANumber)));
}

#[test]
fn create_ns_creates_new_namespace() {
    let mut env = create_env();
    let result = create_ns(&mut env, &Value::symbol_unqualified("my.test.ns")).ok().unwrap();
    assert!(result.is_handle());
    assert!(env.has_namespace("my.test.ns"));
}

#[test]
fn create_ns_idempotent() {
    let mut env = create_env();
    let mut ns = (*env.create_namespace("idempotent.test")).clone();
    ns.insert_var("existing-var", Arc::new(Var::new_bound(Value::integer(99))));
    env.insert_namespace(Arc::new(ns));
    let _result = create_ns(&mut env, &Value::symbol_unqualified("idempotent.test"));
    let ns_again = env.get_namespace_or_panic("idempotent.test");
    assert!(ns_again.contains_var("existing-var"));
}

#[test]
fn in_ns_creates_new_namespace() {
    let mut env = create_env();
    let _result = in_ns(&mut env, &Value::symbol_unqualified("new.ns"));
    assert!(env.has_namespace("new.ns"));
}

#[test]
fn in_ns_updates_star_ns_star() {
    let mut env = create_env();
    let _result = in_ns(&mut env, &Value::symbol_unqualified("some.ns"));
    let current = env.get_namespace_or_panic("clojure.core").try_get_namespace_handle("*ns*").ok().unwrap().name;
    assert_eq!(current.name(), "some.ns");
    assert_eq!(env.try_get_current_namespace().ok().unwrap().name_str(), "some.ns");
}

#[test]
fn in_ns_returns_handle() {
    let mut env = create_env();
    let result = in_ns(&mut env, &Value::symbol_unqualified("handle.test")).ok().unwrap();
    assert!(result.is_handle());
}

#[test]
fn in_ns_does_not_overwrite_existing() {
    let mut env = create_env();
    let mut ns = (*env.create_namespace("preserve.ns")).clone();
    ns.insert_var("old-var", Arc::new(Var::new_bound(Value::integer(42))));
    env.insert_namespace(Arc::new(ns));
    let _result = in_ns(&mut env, &Value::symbol_unqualified("preserve.ns"));
    assert!(env.get_namespace_or_panic("preserve.ns").contains_var("old-var"));
}

#[test]
fn find_ns_returns_handle_for_existing() {
    let mut env = create_env();
    assert!(find_ns(&mut env, &Value::symbol_unqualified("clojure.core")).ok().unwrap().is_handle());
}

#[test]
fn find_ns_returns_nil_for_missing() {
    let mut env = create_env();
    assert!(find_ns(&mut env, &Value::symbol_unqualified("nonexistent")).ok().unwrap().is_nil());
}

#[test]
fn ns_name_returns_correct_symbol() {
    let mut env = create_env();
    let ns_handle = find_ns(&mut env, &Value::symbol_unqualified("clojure.core")).ok().unwrap();
    let result = ns_name(&ns_handle).ok().unwrap();
    assert_eq!(*result, Value::symbol_unqualified("clojure.core"));
}

#[test]
fn ns_name_after_in_ns() {
    let mut env = create_env();
    let handle = in_ns(&mut env, &Value::symbol_unqualified("foo.bar")).ok().unwrap();
    assert_eq!(*ns_name(&handle).ok().unwrap(), Value::symbol_unqualified("foo.bar"));
}

#[test]
fn ns_publics_contains_interned_var() {
    let mut env = create_env();
    let _ = intern(&mut env, &core_handle(), &Value::symbol_unqualified("testpub"), Some(integer_v(1))).ok().unwrap();
    let result = ns_publics(&env, &core_handle()).ok().unwrap();
    assert!(as_map(&result).get(&Value::symbol_unqualified_ptr("testpub")).is_some());
}

#[test]
fn ns_publics_excludes_refers() {
    let mut env = create_env();
    let mut core = (*env.get_namespace_or_panic("clojure.core")).clone();
    core.add_refer("referred-var", Arc::new(Var::new_bound(Value::integer(1))));
    core.insert_var("referred-var", Arc::new(Var::new_bound(Value::integer(1))));
    env.insert_namespace(Arc::new(core));
    let result = ns_publics(&env, &core_handle()).ok().unwrap();
    assert!(as_map(&result).get(&Value::symbol_unqualified_ptr("referred-var")).is_none());
}

#[test]
fn ns_imports_aliases_refers() {
    let mut env = create_env();
    assert!(as_map(&ns_imports(&env, &core_handle()).ok().unwrap()).is_empty());
    assert!(as_map(&ns_aliases(&mut env, &core_handle()).ok().unwrap()).is_empty());
    assert!(as_map(&ns_refers(&env, &core_handle()).ok().unwrap()).is_empty());
    let mut core = (*env.get_namespace_or_panic("clojure.core")).clone();
    core.add_import("MyClass", "com.example.MyClass".to_string());
    core.add_alias("foo", "other.ns");
    core.add_refer("bar", Arc::new(Var::new_bound(Value::integer(1))));
    env.insert_namespace(Arc::new(core));
    let imports = ns_imports(&env, &core_handle()).ok().unwrap();
    assert_eq!(
        as_map(&imports).get(&Value::symbol_unqualified_ptr("MyClass")),
        Some(Value::string_ptr("com.example.MyClass".to_string()))
    );
    assert!(as_map(&ns_aliases(&mut env, &core_handle()).ok().unwrap()).get(&Value::symbol_unqualified_ptr("foo")).is_some());
    assert!(as_map(&ns_refers(&env, &core_handle()).ok().unwrap()).get(&Value::symbol_unqualified_ptr("bar")).is_some());
}

#[test]
fn ns_resolve_and_resolve() {
    let mut env = create_env();
    let _ = intern(&mut env, &core_handle(), &Value::symbol_unqualified("x"), Some(integer_v(42))).ok().unwrap();
    let r = ns_resolve(&env, &core_handle(), &Value::symbol_unqualified("x")).ok().unwrap();
    match &*r {
        Value::Var(var, _) => assert_eq!(var.deref(), Some(integer_v(42))),
        other => panic!("Expected var, got: {:?}", other),
    }
    assert!(ns_resolve(&env, &core_handle(), &Value::symbol_unqualified("absent")).ok().unwrap().is_nil());
    assert!(resolve(&env, &Value::symbol_qualified("clojure.core", "x")).ok().unwrap().is_var());
    assert!(resolve(&env, &Value::symbol_unqualified("x")).ok().unwrap().is_var());
    let _ = in_ns(&mut env, &Value::symbol_unqualified("elsewhere"));
    assert!(resolve(&env, &Value::symbol_unqualified("x")).ok().unwrap().is_nil());
}

#[test]
fn remove_ns_removes_namespace() {
    let mut env = create_env();
    env.create_namespace("to.remove");
    assert!(env.has_namespace("to.remove"));
    assert!(remove_ns(&mut env, &Value::symbol_unqualified("to.remove")).ok().unwrap().is_nil());
    assert!(!env.has_namespace("to.remove"));
    assert!(remove_ns(&mut env, &Value::symbol_unqualified("to.remove")).ok().unwrap().is_nil());
}

#[test]
fn ns_unalias_and_unmap() {
    let mut env = create_env();
    let mut core = (*env.get_namespace_or_panic("clojure.core")).clone();
    core.add_alias("foo", "other.ns");
    core.insert_var("to-unmap", Arc::new(Var::new_bound(Value::integer(1))));
    env.insert_namespace(Arc::new(core));
    assert!(ns_unalias(&mut env, &core_handle(), &Value::symbol_unqualified("foo")).ok().unwrap().is_nil());
    assert!(env.get_namespace_or_panic("clojure.core").aliases().is_empty());
    assert!(ns_unmap(&mut env, &core_handle(), &Value::symbol_unqualified("to-unmap")).ok().unwrap().is_nil());
    assert!(!env.get_namespace_or_panic("clojure.core").contains_var("to-unmap"));
}

#[test]
fn intern_2_arity_creates_unbound_var() {
    let mut env = create_env();
    let result = intern(&mut env, &core_handle(), &Value::symbol_unqualified("unbound"), None).ok().unwrap();
    match &*result {
        Value::Var(var, _) => assert!(var.is_unbound()),
        other => panic!("Expected var, got: {:?}", other),
    }
}

#[test]
fn intern_3_arity_binds_value() {
    let mut env = create_env();
    let result = intern(&mut env, &core_handle(), &Value::symbol_unqualified("bound"), Some(integer_v(99))).ok().unwrap();
    match &*result {
        Value::Var(var, _) => assert_eq!(var.deref(), Some(integer_v(99))),
        other => panic!("Expected var, got: {:?}", other),
    }
}

#[test]
fn intern_2_arity_returns_existing_var() {
    let mut env = create_env();
    let r1 = intern(&mut env, &core_handle(), &Value::symbol_unqualified("same"), None).ok().unwrap();
    let r2 = intern(&mut env, &core_handle(), &Value::symbol_unqualified("same"), None).ok().unwrap();
    match (&*r1, &*r2) {
        (Value::Var(var1, _), Value::Var(var2, _)) => assert!(Arc::ptr_eq(var1, var2)),
        _ => panic!("Expected vars"),
    }
}

#[test]
fn intern_3_arity_rebinds_existing_var() {
    let mut env = create_env();
    let _ = intern(&mut env, &core_handle(), &Value::symbol_unqualified("rebind"), Some(integer_v(1)));
    let r = intern(&mut env, &core_handle(), &Value::symbol_unqualified("rebind"), Some(integer_v(2))).ok().unwrap();
    match &*r {
        Value::Var(var, _) => assert_eq!(var.deref(), Some(integer_v(2))),
        other => panic!("Expected var, got: {:?}", other),
    }
}

#[test]
fn intern_accepts_symbol_as_first_arg() {
    let mut env = create_env();
    let result = intern(&mut env, &Value::symbol_unqualified("clojure.core"), &Value::symbol_unqualified("v"), Some(integer_v(1)));
    assert!(result.ok().unwrap().is_var());
}

#[test]
fn symbol_from_strings() {
    let s = symbol2(&Value::string("ns".to_string()), &Value::string("n".to_string())).ok().unwrap();
    assert_eq!(*s, Value::symbol_qualified("ns", "n"));
}

fn with_core(env: &mut Environment, change: impl FnOnce(&mut Namespace)) {
    let mut core = (*env.get_namespace_or_panic("clojure.core")).clone();
    change(&mut core);
    env.insert_namespace(Arc::new(core));
}

#[test]
fn ns_imports_empty_by_default() {
    let env = create_env();
    assert!(as_map(&ns_imports(&env, &core_handle()).ok().unwrap()).is_empty());
}

#[test]
fn ns_imports_returns_added_import() {
    let mut env = create_env();
    with_core(&mut env, |core| core.add_import("MyClass", "com.example.MyClass".to_string()));
    let map = ns_imports(&env, &core_handle()).ok().unwrap();
    let val = as_map(&map).get(&Value::symbol_unqualified_ptr("MyClass")).expect("MyClass key should exist");
    assert_eq!(*val, Value::string("com.example.MyClass".to_string()));
}

#[test]
fn ns_aliases_empty_by_default() {
    let mut env = create_env();
    assert!(as_map(&ns_aliases(&mut env, &core_handle()).ok().unwrap()).is_empty());
}

#[test]
fn ns_aliases_returns_added_alias() {
    let mut env = create_env();
    env.create_namespace("other.ns");
    with_core(&mut env, |core| core.add_alias("foo", "other.ns"));
    let map = ns_aliases(&mut env, &core_handle()).ok().unwrap();
    assert!(as_map(&map).get(&Value::symbol_unqualified_ptr("foo")).is_some());
}

#[test]
fn ns_refers_empty_by_default() {
    let env = create_env();
    assert!(as_map(&ns_refers(&env, &core_handle()).ok().unwrap()).is_empty());
}

#[test]
fn ns_refers_returns_added_refer() {
    let mut env = create_env();
    with_core(&mut env, |core| core.add_refer("bar", Arc::new(Var::new_bound(Value::integer(1)))));
    let map = ns_refers(&env, &core_handle()).ok().unwrap();
    assert!(as_map(&map).get(&Value::symbol_unqualified_ptr("bar")).is_some());
}

#[test]
fn ns_resolve_unqualified_present() {
    let mut env = create_env();
    let _ = intern(&mut env, &core_handle(), &Value::symbol_unqualified("myvar"), Some(integer_v(42)));
    let result = ns_resolve(&env, &core_handle(), &Value::symbol_unqualified("myvar")).ok().unwrap();
    assert!(result.is_var());
    match &*result {
        Value::Var(var, _) => assert_eq!(var.deref(), Some(integer_v(42))),
        _ => unreachable!(),
    }
}

#[test]
fn ns_resolve_unqualified_absent() {
    let env = create_env();
    let result = ns_resolve(&env, &core_handle(), &Value::symbol_unqualified("no-such-var")).ok().unwrap();
    assert!(result.is_nil());
}

#[test]
fn ns_resolve_qualified_symbol() {
    let mut env = create_env();
    with_core(&mut env, |core| core.insert_var("qvar", Arc::new(Var::new_bound(Value::integer(7)))));
    let result = ns_resolve(&env, &core_handle(), &Value::symbol_qualified("clojure.core", "qvar")).ok().unwrap();
    assert!(result.is_var());
}

#[test]
fn resolve_present_symbol() {
    let mut env = create_env();
    with_core(&mut env, |core| core.insert_var("prn", Arc::new(Var::new_unbound())));
    assert!(resolve(&env, &Value::symbol_unqualified("prn")).ok().unwrap().is_var());
}

#[test]
fn resolve_absent_symbol() {
    let env = create_env();
    assert!(resolve(&env, &Value::symbol_unqualified("no-such-binding")).ok().unwrap().is_nil());
}

#[test]
fn resolve_after_in_ns() {
    let mut env = create_env();
    env.create_namespace("test.resolve.ns");
    let mut test_ns = (*env.get_namespace_or_panic("test.resolve.ns")).clone();
    test_ns.insert_var("ns-local-var", Arc::new(Var::new_bound(Value::integer(99))));
    env.insert_namespace(Arc::new(test_ns));
    let _ = in_ns(&mut env, &Value::symbol_unqualified("test.resolve.ns"));
    assert!(resolve(&env, &Value::symbol_unqualified("ns-local-var")).ok().unwrap().is_var());
}

#[test]
fn remove_ns_nonexistent_is_noop() {
    let mut env = create_env();
    assert!(remove_ns(&mut env, &Value::symbol_unqualified("never.existed")).ok().unwrap().is_nil());
}

#[test]
fn ns_unalias_removes_alias() {
    let mut env = create_env();
    env.create_namespace("alias.target");
    with_core(&mut env, |core| core.add_alias("myalias", "alias.target"));
    let _ = ns_unalias(&mut env, &core_handle(), &Value::symbol_unqualified("myalias"));
    assert!(env.get_namespace_or_panic("clojure.core").aliases().is_empty());
}

#[test]
fn ns_unalias_nonexistent_is_noop() {
    let mut env = create_env();
    assert!(ns_unalias(&mut env, &core_handle(), &Value::symbol_unqualified("ghost")).ok().unwrap().is_nil());
}

#[test]
fn ns_unmap_removes_var() {
    let mut env = create_env();
    let _ = intern(&mut env, &core_handle(), &Value::symbol_unqualified("to-unmap"), Some(integer_v(5)));
    let _ = ns_unmap(&mut env, &core_handle(), &Value::symbol_unqualified("to-unmap"));
    assert!(!env.get_namespace_or_panic("clojure.core").contains_var("to-unmap"));
}

#[test]
fn ns_unmap_nonexistent_is_noop() {
    let mut env = create_env();
    assert!(ns_unmap(&mut env, &core_handle(), &Value::symbol_unqualified("ghost")).ok().unwrap().is_nil());
}

#[test]
fn ns_map_2_maps_qualified_names_to_values() {
    let mut env = create_env();
    let _ = intern(&mut env, &core_handle(), &Value::symbol_unqualified("x"), Some(integer_v(3)));
    let _ = intern(&mut env, &core_handle(), &Value::symbol_unqualified("u"), None);
    let m = ns_map_2(&env, &Value::symbol_unqualified("clojure.core")).ok().unwrap();
    assert_eq!(as_map(&m).get(&Value::symbol_qualified_ptr("clojure.core", "x")), Some(integer_v(3)));
    assert!(as_map(&m).get(&Value::symbol_qualified_ptr("clojure.core", "u")).unwrap().is_var());
    assert!(matches!(ns_map_2(&env, &Value::symbol_unqualified("nope")), Err(BuiltinError::NoSuchNamespace(_))));
}

#[test]
fn namespace_updates_report_bad_arguments() {
    let mut env = create_env();
    let missing = Value::handle(Handle::Namespace(NamespaceHandle { id: 99, serial: 0, name: SymbolUnqualified::new("no.such.ns") }));
    assert!(matches!(
        ns_unmap(&mut env, &missing, &Value::symbol_unqualified("x")),
        Err(BuiltinError::NoSuchNamespace(_))
    ));
    assert!(matches!(
        ns_unalias(&mut env, &Value::integer(1), &Value::symbol_unqualified("x")),
        Err(BuiltinError::NotANamespaceHandle)
    ));
    assert!(matches!(
        ns_unmap(&mut env, &core_handle(), &Value::integer(1)),
        Err(BuiltinError::NotASymbol)
    ));
    assert!(matches!(
        intern(&mut env, &Value::symbol_unqualified("no.such.ns"), &Value::symbol_unqualified("x"), None),
        Err(BuiltinError::NoSuchNamespace(_))
    ));
    assert!(matches!(
        intern(&mut env, &core_handle(), &Value::integer(1), None),
        Err(BuiltinError::NotASymbol)
    ));
    assert!(intern(&mut env, &Value::symbol_unqualified("clojure.core"), &Value::symbol_unqualified("via-symbol"), None).is_ok());
}
