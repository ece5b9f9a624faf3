use jinme::function::{Function, FunctionArity, FunctionBuilder};

fn arities(func: &Function) -> Vec<FunctionArity> {
    func.arities()
}

#[test]
fn exact_preferred_over_variadic() {
    let mut func_builder = Function::builder();
    func_builder.add_body(FunctionArity::AtLeast(3), 100);
    func_builder.add_body(FunctionArity::Exactly(2), 200);
    let func = func_builder.build();

    let ar = arities(&func);
    assert_eq!(ar.len(), 2);
    match &ar[0] {
        FunctionArity::Exactly(2) => {}
        _ => panic!("expected Exactly(2) first"),
    }

    let body = func.body_supporting_arg_count(2).expect("should find body");
    assert_eq!(body, 200);
}

#[test]
fn more_specific_among_exacts() {
    let mut func_builder = Function::builder();
    func_builder.add_body(FunctionArity::Exactly(2), 2);
    func_builder.add_body(FunctionArity::Exactly(3), 3);
    let func = func_builder.build();

    let func_arities = arities(&func);
    assert_eq!(func_arities.len(), 2);
    match &func_arities[0] {
        FunctionArity::Exactly(2) => {}
        _ => panic!("expected Exactly(2) first"),
    }

    let body = func.body_supporting_arg_count(3).expect("should find body");
    assert_eq!(body, 3);
}

#[test]
fn multiple_variadics_panics() {
    let mut func_builder = Function::builder();
    func_builder.add_body(FunctionArity::AtLeast(1), 1);
    func_builder.add_body(FunctionArity::AtLeast(3), 3);
    assert!(!func_builder.can_build());
}

#[test]
fn exactly_greater_than_variadic_panics() {
    let mut func_builder = Function::builder();
    func_builder.add_body(FunctionArity::Exactly(4), 4);
    func_builder.add_body(FunctionArity::AtLeast(3), 3);
    assert!(!func_builder.can_build());
}

#[test]
fn canonical_arity_ordering_independent_of_insertion_order() {
    let mut b1 = Function::builder();
    b1.add_body(FunctionArity::Exactly(2), 2);
    b1.add_body(FunctionArity::Exactly(3), 3);
    let f1 = b1.build();

    let mut b2 = Function::builder();
    b2.add_body(FunctionArity::Exactly(3), 3);
    b2.add_body(FunctionArity::Exactly(2), 2);
    let f2 = b2.build();

    assert_eq!(arities(&f1), arities(&f2));
}

#[test]
fn arity_strings_rendering() {
    let mut func_builder = Function::builder();
    func_builder.add_body(FunctionArity::AtLeast(4), 4);
    func_builder.add_body(FunctionArity::Exactly(2), 2);
    func_builder.add_body(FunctionArity::Exactly(0), 0);
    let f = func_builder.build();

    let parts = f.arity_strings();
    assert_eq!(parts, vec!["0".to_string(), "2".to_string(), "4+".to_string()]);
}

#[test]
fn supports_arg_count_by_arity() {
    assert!(FunctionArity::Exactly(2).supports_arg_count(2));
    assert!(!FunctionArity::Exactly(2).supports_arg_count(3));
    assert!(FunctionArity::AtLeast(2).supports_arg_count(5));
    assert!(!FunctionArity::AtLeast(2).supports_arg_count(1));
}

#[test]
fn named_builder_and_missing_body() {
    let mut b = FunctionBuilder::new();
    b.set_name("f".to_string());
    b.add_body(FunctionArity::Exactly(1), 9);
    let f = b.build();
    assert_eq!(f.name(), Some("f"));
    assert_eq!(f.body_supporting_arg_count(0), None);
    assert_eq!(f.body_supporting_arg_count(1), Some(9));
}

#[test]
fn build_function_names_and_orders_bodies() {
    let f = jinme::function::build_function("f", vec![(FunctionArity::AtLeast(2), 1), (FunctionArity::Exactly(0), 2)]);
    assert_eq!(f.name(), Some("f"));
    assert_eq!(f.arities(), vec![FunctionArity::Exactly(0), FunctionArity::AtLeast(2)]);
    assert_eq!(f.body_supporting_arg_count(5), Some(1));
    let v = jinme::function::build_function_value_ptr("g", vec![(FunctionArity::Exactly(1), 3)]);
    assert!(v.is_function());
}
