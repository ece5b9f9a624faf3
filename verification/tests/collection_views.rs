use jinme::keyword::Keyword;
use jinme::list::List;
use jinme::symbol::Symbol;
use jinme::value::optics::preview_integer;
use jinme::value::{PtrValue, Value};
use jinme::vector::Vector;
use jinme::{list, vector};

fn items() -> Vec<PtrValue> {
    vec![
        Value::symbol_unqualified_ptr("head"),
        Value::integer_ptr(2),
        Value::keyword_unqualified_ptr("tail"),
    ]
}

#[test]
fn vector_views() {
    let v = Vector::from_vec(items());
    assert_eq!(vector::optics::view_first(&v), Some(Value::symbol_unqualified_ptr("head")));
    assert_eq!(vector::optics::view_second(&v), Some(Value::integer_ptr(2)));
    assert_eq!(vector::optics::view_last(&v), Some(Value::keyword_unqualified_ptr("tail")));
    assert_eq!(vector::optics::view_nth(&v, 1), Some(Value::integer_ptr(2)));
    assert_eq!(vector::optics::view_nth(&v, 3), None);
    assert_eq!(vector::optics::view_first_as_symbol(&v), Some(Symbol::new_unqualified("head")));
    assert_eq!(vector::optics::view_first_as_keyword(&v), None);
    assert_eq!(vector::optics::view_second_as(&v, preview_integer), Some(2));
    assert_eq!(vector::optics::view_last_as(&v, preview_integer), None);
    assert_eq!(vector::optics::view_nth_as(&v, 1, preview_integer), Some(2));
    assert_eq!(vector::optics::view_nth_as(&v, 9, preview_integer), None);
    assert_eq!(vector::optics::view_first_as(&Vector::new_empty(), preview_integer), None);
}

#[test]
fn list_views() {
    let l = List::from_vec(items());
    assert_eq!(list::optics::view_first(&l), Some(Value::symbol_unqualified_ptr("head")));
    assert_eq!(list::optics::view_last(&l), Some(Value::keyword_unqualified_ptr("tail")));
    assert_eq!(list::optics::view_first_as_symbol(&l), Some(Symbol::new_unqualified("head")));
    assert_eq!(list::optics::view_first_as_keyword(&List::from_vec(vec![Value::keyword_unqualified_ptr("k")])), Some(Keyword::new_unqualified("k")));
    assert_eq!(list::optics::view_nth(&l, 5), None);
}

#[test]
fn vector_partials() {
    let v = Vector::from_vec(items());
    let empty = Vector::new_empty();
    assert_eq!(vector::partials::get_nth(1)(&v), Some(Value::integer_ptr(2)));
    assert_eq!(vector::partials::get_nth(7)(&v), None);
    assert_eq!(vector::partials::get_nth_ref(1)(&v), Some(&Value::integer(2)));
    assert_eq!(vector::partials::get_nth_or(7, Value::integer_ptr(0))(&v), Value::integer_ptr(0));
    assert_eq!(vector::partials::get_nth_or_nil(7)(&v), Value::nil_ptr());
    assert_eq!(vector::partials::get_nth_or_else(7, |x: &Vector| Value::integer_ptr(x.len() as i64))(&v), Value::integer_ptr(3));
    assert_eq!(vector::partials::get_last_or(Value::integer_ptr(0))(&empty), Value::integer_ptr(0));
    assert_eq!(vector::partials::get_last_or_else(|_: &Vector| Value::nil_ptr())(&v), Value::keyword_unqualified_ptr("tail"));
}

#[test]
fn list_partials() {
    let l = List::from_vec(items());
    assert_eq!(list::partials::get_nth(0)(&l), Some(Value::symbol_unqualified_ptr("head")));
    assert_eq!(list::partials::get_nth_or_nil(3)(&l), Value::nil_ptr());
    assert_eq!(list::partials::get_last_or(Value::integer_ptr(0))(&l), Value::keyword_unqualified_ptr("tail"));
    assert_eq!(list::partials::get_last_or_else(|_: &List| Value::integer_ptr(5))(&List::new_empty()), Value::integer_ptr(5));
}
