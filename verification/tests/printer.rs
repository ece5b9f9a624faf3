use jinme::float::Float;
use jinme::function::{FunctionArity, FunctionBuilder};
use jinme::handle::{Handle, NamespaceHandle};
use jinme::map::ValueMap;
use jinme::meta::display_meta;
use jinme::printer::{display_pieces, int_string, prn_pieces, text_of, Piece};
use jinme::symbol::SymbolUnqualified;
use jinme::value::{PtrValue, Value};
use jinme::var::Var;
use std::sync::Arc;

fn printed(v: PtrValue) -> Option<String> {
    text_of(&display_pieces(&v))
}

#[test]
fn scalars_print_as_read() {
    assert_eq!(printed(Value::nil_ptr()), Some("nil".to_string()));
    assert_eq!(printed(Value::boolean_ptr(true)), Some("true".to_string()));
    assert_eq!(printed(Value::boolean_ptr(false)), Some("false".to_string()));
    assert_eq!(printed(Value::integer_ptr(-120)), Some("-120".to_string()));
    assert_eq!(printed(Value::string_ptr("hi".to_string())), Some("\"hi\"".to_string()));
    assert_eq!(printed(Value::symbol_unqualified_ptr("x")), Some("x".to_string()));
    assert_eq!(printed(Value::symbol_qualified_ptr("ns", "x")), Some("ns/x".to_string()));
    assert_eq!(printed(Value::keyword_unqualified_ptr("k")), Some(":k".to_string()));
    assert_eq!(printed(Value::keyword_qualified_ptr("ns", "k")), Some(":ns/k".to_string()));
}

#[test]
fn integers_print_in_decimal() {
    assert_eq!(int_string(0), "0");
    assert_eq!(int_string(i64::MAX), "9223372036854775807");
    assert_eq!(int_string(i64::MIN), "-9223372036854775808");
}

#[test]
fn collections_print_with_their_brackets() {
    let v = Value::new_vector_ptr(vec![Value::integer_ptr(1), Value::keyword_unqualified_ptr("a")]);
    assert_eq!(printed(v), Some("[1 :a]".to_string()));
    let s = Value::new_set_ptr(vec![Value::integer_ptr(1), Value::integer_ptr(2)]);
    assert_eq!(printed(s), Some("#{1, 2}".to_string()));
    let m = Value::new_map_ptr(vec![
        (Value::keyword_unqualified_ptr("a"), Value::integer_ptr(1)),
        (Value::keyword_unqualified_ptr("b"), Value::new_list_ptr(vec![])),
    ]);
    assert_eq!(printed(m), Some("{:a 1, :b ()}".to_string()));
    assert_eq!(printed(Value::new_vector_ptr(vec![])), Some("[]".to_string()));
}

#[test]
fn floats_vars_and_functions_leave_pieces_to_the_caller() {
    let f = Float::from_bits(1.5f64.to_bits());
    let pieces = display_pieces(&Value::Float(f, None));
    assert!(matches!(pieces.as_slice(), [Piece::Float(x)] if *x == f));
    assert_eq!(text_of(&pieces), None);

    let var = Arc::new(Var::new_unbound());
    let pieces = display_pieces(&Value::Var(var, None));
    assert!(matches!(pieces.as_slice(), [Piece::Text(a), Piece::VarAddress(_), Piece::Text(b)] if a == "#var[" && b == "]"));

    let mut builder = FunctionBuilder::new();
    builder.set_name("f".to_string());
    builder.add_body(FunctionArity::AtLeast(2), 7);
    builder.add_body(FunctionArity::Exactly(1), 8);
    let func = Arc::new(builder.build());
    let pieces = display_pieces(&Value::function(func.clone()));
    assert!(matches!(pieces.as_slice(), [Piece::Text(a), Piece::FunctionAddress(_), Piece::Text(b)]
        if a == "#fn[" && b == " \"f\" [\"1\" \"2+\"]]"));

    let pieces = display_pieces(&Value::handle(Handle::Function(func)));
    assert!(matches!(pieces.as_slice(), [Piece::Text(a), Piece::FunctionAddress(_), Piece::Text(b)]
        if a == "#handle[jinme.Function " && b == " f]"));
}

#[test]
fn namespace_handles_print_their_name() {
    let v = Value::handle(Handle::Namespace(NamespaceHandle { id: 0, serial: 0, name: SymbolUnqualified::new("user") }));
    assert_eq!(text_of(&display_pieces(&v)), Some("#handle[jinme.Namespace \"user\"]".to_string()));
    let r = Value::handle(Handle::Resource(3));
    assert!(matches!(display_pieces(&r).as_slice(), [Piece::Resource(3)]));
}

#[test]
fn metadata_prints_as_a_map() {
    assert_eq!(text_of(&display_meta(&None)), Some("{}".to_string()));
    let mut m = ValueMap::new_empty();
    m.insert(Value::keyword_unqualified_ptr("doc"), Value::string_ptr("x".to_string()));
    assert_eq!(text_of(&display_meta(&Some(Arc::new(m)))), Some("{:doc \"x\"}".to_string()));
}

#[test]
fn prn_writes_values_apart_by_spaces() {
    let args = vec![Value::keyword_unqualified_ptr("hi"), Value::integer_ptr(1)];
    assert_eq!(text_of(&prn_pieces(&args)), Some(":hi 1\n".to_string()));
    assert_eq!(text_of(&prn_pieces(&vec![])), Some("\n".to_string()));
}
