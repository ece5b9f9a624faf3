use jinme::environment::{Environment, GetCurrentNamespaceError};
use jinme::handle::{Handle, NamespaceHandle};
use jinme::namespace::Namespace;
use jinme::symbol::SymbolUnqualified;
use jinme::value::Value;
use jinme::var::Var;
use std::sync::Arc;

fn create_env() -> Environment {
    let mut env_builder = Environment::builder();
    env_builder.set_current_namespace_var("clojure.core", "*ns*");
    env_builder.insert_namespace(Namespace::new_empty_ptr("clojure.core"));
    env_builder.build()
}

#[test]
fn create_nonexistent_namespace() {
    // arrange
    let mut env = create_env();
    let ns_name = "my-ns";
    let has_ns_before_act = env.has_namespace(ns_name);
    // act
    env.create_namespace(ns_name);
    // assert
    let has_ns_after_act = env.has_namespace(ns_name);
    assert!(!has_ns_before_act);
    assert!(has_ns_after_act);
}

#[test]
fn create_existent_namespace_does_not_overwrite() {
    // arrange
    let mut env = create_env();
    let ns_name = "my-ns";
    let name = "my-var";
    let value = Value::integer(42);
    let var = Var::new_bound(value);
    let mut ns = (*env.create_namespace(ns_name)).clone();
    ns.insert_var(name, Arc::new(var));
    env.insert_namespace(Arc::new(ns));
    // act
    let ns = env.create_namespace(ns_name);
    // assert
    let var = ns.try_get_var(name);
    assert!(var.is_ok(), "var expected to be present");
    let var = var.ok().unwrap();
    let val = var.deref();
    assert!(val.is_some(), "var expected to be bound");
    let val = val.unwrap();
    assert_eq!(*val, Value::integer(42), "value of var is unchanged");
}

#[test]
fn get_var() {
    // arrange
    let ns_name = "my-ns";
    let name = "my-var";
    let value = Value::keyword_unqualified("my-val");
    let mut env = create_env();
    let mut ns = (*env.create_namespace(ns_name)).clone();
    ns.insert_var(name, Arc::new(Var::new_bound(value)));
    env.insert_namespace(Arc::new(ns));
    // act
    let ns = env.get_namespace_or_panic("my-ns");
    let var = ns.try_get_var("my-var");
    // assert
    assert!(var.is_ok());
}

#[test]
fn builder_reports_what_blocks_it() {
    let builder = Environment::builder();
    assert!(!builder.can_build());
    assert_eq!(builder.build_blockers(), vec!["current_namespace_var is not set".to_string()]);
    let mut builder = Environment::builder();
    builder.set_current_namespace_var("a", "b");
    assert!(builder.can_build());
    assert!(builder.build_blockers().is_empty());
}

#[test]
fn current_namespace_follows_star_ns() {
    let mut env = create_env();
    assert!(matches!(env.try_get_current_namespace(), Err(GetCurrentNamespaceError::NoSuchVar(_))));
    let user = env.create_namespace("user");
    let handle = env.get_namespace_handle_or_panic("user");
    let mut core = (*env.get_namespace_or_panic("clojure.core")).clone();
    core.bind_handle("*ns*", handle);
    env.insert_namespace(Arc::new(core));
    let current = env.try_get_current_namespace().ok().unwrap();
    assert_eq!(current.name_str(), user.name_str());
    env.remove_namespace("user");
    let still = env.try_get_current_namespace().ok().unwrap();
    assert_eq!(still.name_str(), "user");
    assert!(env.try_get_namespace("user").is_none());
}

#[test]
fn each_call_makes_a_new_handle() {
    let mut env = create_env();
    let a = env.get_namespace_handle_or_panic("clojure.core");
    let b = env.get_namespace_handle_or_panic("clojure.core");
    assert!(a != b);
    assert!(a == a.clone());
    let reached_a = env.resolve_namespace_handle(a.namespace_handle().unwrap()).unwrap();
    let reached_b = env.resolve_namespace_handle(b.namespace_handle().unwrap()).unwrap();
    assert!(Arc::ptr_eq(&reached_a, &reached_b));
}

#[test]
fn a_handle_keeps_its_namespace_after_removal() {
    let mut env = create_env();
    let mut ns = (*env.create_namespace("scratch")).clone();
    ns.bind_value("x", Value::integer(1));
    env.insert_namespace(Arc::new(ns));
    let old = env.get_namespace_handle_or_panic("scratch");
    env.remove_namespace("scratch");
    env.create_namespace("scratch");
    let new = env.get_namespace_handle_or_panic("scratch");
    let old_ns = env.resolve_namespace_handle(old.namespace_handle().unwrap()).unwrap();
    let new_ns = env.resolve_namespace_handle(new.namespace_handle().unwrap()).unwrap();
    assert!(old_ns.try_get_var("x").is_ok());
    assert!(new_ns.try_get_var("x").is_err());
}

#[test]
fn a_handle_sees_later_changes_to_its_namespace() {
    let mut env = create_env();
    env.create_namespace("live");
    let h = env.get_namespace_handle_or_panic("live");
    let mut ns = (*env.get_namespace_or_panic("live")).clone();
    ns.bind_value("y", Value::integer(2));
    env.insert_namespace(Arc::new(ns));
    let reached = env.resolve_namespace_handle(h.namespace_handle().unwrap()).unwrap();
    assert!(reached.try_get_var("y").is_ok());
}

#[test]
fn all_namespaces_lists_each_once() {
    let mut env = create_env();
    env.create_namespace("a");
    env.create_namespace("b");
    env.create_namespace("a");
    assert_eq!(env.all_namespaces().len(), 3);
    assert!(env.try_get_namespace_handle("b").is_some());
    assert!(env.try_get_namespace("c").is_none());
}

#[test]
fn current_namespace_errors_name_what_is_missing() {
    let mut builder = Environment::builder();
    builder.set_current_namespace_var("nowhere", "*ns*");
    let env = builder.build();
    match env.try_get_current_namespace() {
        Err(GetCurrentNamespaceError::NoSuchNamespace(n)) => assert_eq!(n.name(), "nowhere"),
        _ => panic!("unexpected result"),
    }

    let mut env = create_env();
    let mut core = (*env.get_namespace_or_panic("clojure.core")).clone();
    core.insert_var("*ns*", Arc::new(Var::new_unbound()));
    env.insert_namespace(Arc::new(core.clone()));
    assert!(matches!(env.try_get_current_namespace(), Err(GetCurrentNamespaceError::UnboundVar(_))));

    core.bind_value("*ns*", Value::integer(1));
    env.insert_namespace(Arc::new(core.clone()));
    assert!(matches!(env.try_get_current_namespace(), Err(GetCurrentNamespaceError::IncorrectValueType(_))));

    core.bind_handle("*ns*", Handle::Resource(7));
    env.insert_namespace(Arc::new(core.clone()));
    assert!(matches!(env.try_get_current_namespace(), Err(GetCurrentNamespaceError::IncorrectHandleType(_))));

    core.bind_handle("*ns*", Handle::Namespace(NamespaceHandle { id: 99, serial: 0, name: SymbolUnqualified::new("missing") }));
    env.insert_namespace(Arc::new(core));
    match env.try_get_current_namespace() {
        Err(GetCurrentNamespaceError::NoSuchNamespace(n)) => assert_eq!(n.name(), "missing"),
        _ => panic!("unexpected result"),
    }
}
