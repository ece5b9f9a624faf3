use jinme::float::Float;
use jinme::printer::{display_pieces, text_of};
use jinme::reader::{read, ReadError};
use jinme::value::Value;

fn read_text(input: &str) -> String {
    let (_, v) = read(input).ok().unwrap();
    text_of(&display_pieces(&v.unwrap())).unwrap()
}

#[test]
fn reads_atoms() {
    assert_eq!(read("nil").ok().unwrap().1, Some(Value::nil_ptr()));
    assert_eq!(read(" true").ok().unwrap().1, Some(Value::boolean_ptr(true)));
    assert_eq!(read("-42").ok().unwrap().1, Some(Value::integer_ptr(-42)));
    assert_eq!(read("+7").ok().unwrap().1, Some(Value::integer_ptr(7)));
    assert_eq!(read("-9223372036854775808").ok().unwrap().1, Some(Value::integer_ptr(i64::MIN)));
    assert!(matches!(read("9223372036854775808"), Err(ReadError::BadNumber)));
    assert!(matches!(read("12ab"), Err(ReadError::BadNumber)));
    assert_eq!(
        read("1.5").ok().unwrap().1,
        Some(Value::float_ptr(Float::from_bits(1.5f64.to_bits())))
    );
    assert_eq!(read("foo").ok().unwrap().1, Some(Value::symbol_unqualified_ptr("foo")));
    assert_eq!(read("a.b/c").ok().unwrap().1, Some(Value::symbol_qualified_ptr("a.b", "c")));
    assert_eq!(read("/").ok().unwrap().1, Some(Value::symbol_unqualified_ptr("/")));
    assert_eq!(read(":k").ok().unwrap().1, Some(Value::keyword_unqualified_ptr("k")));
    assert_eq!(read(":ns/k").ok().unwrap().1, Some(Value::keyword_qualified_ptr("ns", "k")));
    assert_eq!(read("\"a\\nb\\\"\"").ok().unwrap().1, Some(Value::string_ptr("a\nb\"".to_string())));
}

#[test]
fn reads_collections() {
    assert_eq!(read_text("(1 2 3)"), "(1 2 3)");
    assert_eq!(read_text("[ 1, :a , \"s\" ]"), "[1 :a \"s\"]");
    assert_eq!(read_text("{:a 1 :b [2]}"), "{:a 1, :b [2]}");
    assert_eq!(read_text("#{1 2}"), "#{1, 2}");
    assert_eq!(read_text("(prn\n:hi)\n[:a :b]"), "(prn :hi)");
    assert_eq!(read_text("; comment\n(do)"), "(do)");
}

#[test]
fn reports_how_much_was_read() {
    assert_eq!(read("(a) rest").ok().unwrap().0, 3);
    assert_eq!(read("  x y").ok().unwrap().0, 3);
    assert_eq!(read("   ").ok().unwrap(), (3, None));
    assert_eq!(read("; only a comment").ok().unwrap(), (16, None));
}

#[test]
fn reports_errors() {
    assert!(matches!(read("(1 2"), Err(ReadError::UnexpectedEnd)));
    assert!(matches!(read(")"), Err(ReadError::UnexpectedCloser(')'))));
    assert!(matches!(read("(1]"), Err(ReadError::UnexpectedCloser(']'))));
    assert!(matches!(read("{:a}"), Err(ReadError::OddMapForms)));
    assert!(matches!(read("\"abc"), Err(ReadError::UnexpectedEnd)));
    assert!(matches!(read("\"a\\q\""), Err(ReadError::BadEscape('q'))));
    assert!(matches!(read(": x"), Err(ReadError::BadToken)));
    assert!(matches!(read("#x"), Err(ReadError::BadToken)));
}

#[test]
fn unqualified_keyword_equality() {
    let k1 = read(":foo").ok().unwrap().1.unwrap();
    let k2 = read(" :foo").ok().unwrap().1.unwrap();
    assert_eq!(k1, k2);
}

#[test]
fn reads_repeated_set_elements_and_map_keys_once() {
    assert_eq!(read_text("#{1 1 2}"), "#{1, 2}");
    assert_eq!(read_text("{:a 1 :a 2}"), "{:a 2}");
    assert_eq!(read_text("[(1 [2 #{3}]) {}]"), "[(1 [2 #{3}]) {}]");
    assert!(matches!(read("[1 \"\\x\"]"), Err(ReadError::BadEscape('x'))));
    assert!(matches!(read("(1 (2 99999999999999999999))"), Err(ReadError::BadNumber)));
}
