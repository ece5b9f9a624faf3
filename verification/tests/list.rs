use jinme::list::List;
use jinme::printer::{display_pieces, text_of};
use jinme::value::Value;
use std::sync::Arc;

#[test]
fn push_front() {
    let mut list = List::new_empty();
    list.push_front(Value::integer_ptr(1));
    list.push_front(Value::integer_ptr(2));
    list.push_front(Value::integer_ptr(3));
    assert_eq!(list.len(), 3);
    let items = list.items();
    assert_eq!(*items[0], Value::integer(3));
    assert_eq!(*items[1], Value::integer(2));
    assert_eq!(*items[2], Value::integer(1));
}

#[test]
fn get_nth_or_panic_given_index_in_bounds() {
    let list = List::from(vec![Value::integer_ptr(3), Value::integer_ptr(7), Value::integer_ptr(9)]);
    let nth_1 = list.get_nth_or_panic(1);
    assert_eq!(*nth_1, Value::integer(7));
}

#[test]
fn get_nth_or_nil() {
    let list = List::from(vec![
        Value::keyword_unqualified_ptr("vanilla"),
        Value::keyword_unqualified_ptr("chocolate"),
        Value::keyword_unqualified_ptr("strawberry"),
    ]);
    let nth_3 = list.get_nth_or_nil(3);
    assert!(nth_3.is_nil());
}

#[test]
fn get_nth_or() {
    let list = List::from(vec![
        Value::keyword_unqualified_ptr("red"),
        Value::keyword_unqualified_ptr("green"),
        Value::keyword_unqualified_ptr("blue"),
    ]);
    let or_value = Value::keyword_unqualified_ptr("unknown");
    let nth_5 = list.get_nth_or(5, or_value.clone());
    assert_eq!(*nth_5, *or_value);
}

#[test]
fn new_empty_creates_empty_list() {
    let list = List::new_empty();
    assert_eq!(list.len(), 0);
}

#[test]
fn list_new_with_elements() {
    let list = List::from(vec![Value::integer_ptr(1), Value::integer_ptr(2), Value::integer_ptr(3)]);
    assert_eq!(list.len(), 3);
    assert_eq!(*list.items()[0], Value::integer(1));
}

#[test]
fn new_empty_value() {
    let val = List::new_empty_value();
    assert!(val.is_list());
    if let Value::List(list, _) = val {
        assert_eq!(list.len(), 0);
    } else {
        panic!("Expected List variant");
    }
}

#[test]
fn list_new_value() {
    let val = List::new_value(vec![Value::integer_ptr(10), Value::integer_ptr(20)]);
    assert!(val.is_list());
    if let Value::List(list, _) = val {
        assert_eq!(list.len(), 2);
        assert_eq!(*list.items()[0], Value::integer(10));
    } else {
        panic!("Expected List variant");
    }
}

#[test]
fn length_increases_with_push_front() {
    let mut list = List::new_empty();
    assert_eq!(list.len(), 0);
    list.push_front(Value::integer_ptr(1));
    assert_eq!(list.len(), 1);
    list.push_front(Value::integer_ptr(2));
    assert_eq!(list.len(), 2);
    list.push_front(Value::integer_ptr(3));
    assert_eq!(list.len(), 3);
}

#[test]
fn lifo_ordering_with_push_front() {
    let mut list = List::new_empty();
    list.push_front(Value::integer_ptr(1));
    list.push_front(Value::integer_ptr(2));
    list.push_front(Value::integer_ptr(3));
    let items = list.items();
    assert_eq!(*items[0], Value::integer(3));
    assert_eq!(*items[1], Value::integer(2));
    assert_eq!(*items[2], Value::integer(1));
}

#[test]
fn multiple_pushes_preserve_order() {
    let mut list = List::new_empty();
    for i in 1..=5 {
        list.push_front(Value::integer_ptr(i));
    }
    let items = list.items();
    for (k, expected) in [5i64, 4, 3, 2, 1].iter().enumerate() {
        assert_eq!(*items[k], Value::integer(*expected));
    }
}

#[test]
fn list_equality_with_same_elements() {
    let list1 = List::from(vec![Value::integer_ptr(1), Value::integer_ptr(2)]);
    let list2 = List::from(vec![Value::integer_ptr(1), Value::integer_ptr(2)]);
    assert_eq!(list1, list2);
}

#[test]
fn inequality_with_different_elements() {
    let list1 = List::from(vec![Value::integer_ptr(1)]);
    let list2 = List::from(vec![Value::integer_ptr(2)]);
    assert_ne!(list1, list2);
}

#[test]
fn cloned_list_equals_original() {
    let list1 = List::from(vec![Value::integer_ptr(1), Value::integer_ptr(2), Value::integer_ptr(3)]);
    let list2 = list1.clone();
    assert_eq!(list1, list2);
}

#[test]
fn into_value() {
    let list = List::from(vec![Value::integer_ptr(42)]);
    let val = list.into_value();
    assert!(val.is_list());
}

#[test]
fn into_value_ptr() {
    let list = List::from(vec![Value::integer_ptr(99)]);
    let rc_val = list.into_value_ptr();
    assert!(rc_val.is_list());
}

#[test]
fn rest_drops_the_first_element() {
    let list = List::from(vec![Value::integer_ptr(1), Value::integer_ptr(2), Value::integer_ptr(3)]);
    let rest = list.rest();
    assert_eq!(rest, List::from(vec![Value::integer_ptr(2), Value::integer_ptr(3)]));
    assert_eq!(List::new_empty().rest().len(), 0);
}

#[test]
fn first_second_last() {
    let list = List::from(vec![Value::integer_ptr(1), Value::integer_ptr(2), Value::integer_ptr(3)]);
    assert_eq!(list.get_first(), Some(Arc::new(Value::integer(1))));
    assert_eq!(list.get_second(), Some(Arc::new(Value::integer(2))));
    assert_eq!(list.get_last(), Some(Arc::new(Value::integer(3))));
    let empty = List::new_empty();
    assert_eq!(empty.get_first(), None);
    assert!(empty.get_last_or_nil().is_nil());
    assert_eq!(*empty.get_second_or(Value::integer_ptr(7)), Value::integer(7));
}

#[test]
fn display() {
    let list = List::from(vec![
        Value::integer_ptr(1),
        Value::integer_ptr(2),
        Value::integer_ptr(3),
    ]);
    let pieces = display_pieces(&list.into_value());
    assert_eq!(text_of(&pieces), Some("(1 2 3)".to_string()));
}

#[test]
#[should_panic]
fn get_nth_or_panic_given_index_out_of_bounds_panics() {
    for (index, list) in vec![
        (0, List::new_empty()),
        (10, List::new_empty()),
        (1, List::from(vec![Arc::new(Value::nil())])),
    ] {
        let _ = list.get_nth_or_panic(index);
    }
}

#[test]
fn get_nth_or_else_and_collect_rest() {
    let list = List::from(vec![Value::integer_ptr(1), Value::integer_ptr(2)]);
    assert_eq!(list.get_nth_or_else(1, |_| Value::nil_ptr()), Value::integer_ptr(2));
    assert_eq!(list.get_nth_or_else(5, |l| Value::integer_ptr(l.len() as i64)), Value::integer_ptr(2));
    assert_eq!(list.get_first_or_else(|_| Value::nil_ptr()), Value::integer_ptr(1));
    assert_eq!(list.get_second_or_else(|_| Value::nil_ptr()), Value::integer_ptr(2));
    assert_eq!(list.get_last_or_else(|_| Value::nil_ptr()), Value::integer_ptr(2));
    assert_eq!(List::new_empty().get_last_or_else(|_| Value::integer_ptr(9)), Value::integer_ptr(9));
    assert_eq!(list.collect_rest(), vec![Value::integer_ptr(2)]);
    assert_eq!(List::new_empty().collect_rest(), Vec::new());
}
