use jinme::function::{Function, FunctionArity, FunctionBuilder};
use std::cmp::Ordering;

fn function(name: Option<&str>, ids: &[u64]) -> Function {
    let mut b = FunctionBuilder::new();
    if let Some(n) = name {
        b.set_name(n.to_string());
    }
    for (i, id) in ids.iter().enumerate() {
        b.add_body(FunctionArity::Exactly(i), *id);
    }
    b.build()
}

#[test]
fn functions_order_by_name_then_size_then_bodies() {
    assert_eq!(function(None, &[1]).compare_to(&function(Some("a"), &[1])), Ordering::Less);
    assert_eq!(function(Some("b"), &[1]).compare_to(&function(Some("a"), &[1, 2])), Ordering::Greater);
    assert_eq!(function(Some("ab"), &[1]).compare_to(&function(Some("abc"), &[1])), Ordering::Less);
    assert_eq!(function(Some("a"), &[1]).compare_to(&function(Some("a"), &[1, 2])), Ordering::Less);
    assert_eq!(function(Some("a"), &[1, 3]).compare_to(&function(Some("a"), &[1, 2])), Ordering::Greater);
    assert_eq!(function(Some("a"), &[1, 2]).compare_to(&function(Some("a"), &[1, 2])), Ordering::Equal);
}

#[test]
fn function_order_is_transitive_on_examples() {
    let a = function(None, &[9]);
    let b = function(Some("a"), &[1, 2]);
    let c = function(Some("a"), &[1, 3]);
    assert_eq!(a.compare_to(&b), Ordering::Less);
    assert_eq!(b.compare_to(&c), Ordering::Less);
    assert_eq!(a.compare_to(&c), Ordering::Less);
    assert_eq!(c.compare_to(&a), Ordering::Greater);
}
