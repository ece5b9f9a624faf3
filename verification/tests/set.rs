use jinme::set::ValueSet;
use jinme::value::Value;

#[test]
fn new_empty_creates_empty_set() {
    let set = ValueSet::new_empty();
    assert_eq!(set.len(), 0);
}

#[test]
fn set_new_with_elements() {
    let set = ValueSet::new(vec![Value::integer_ptr(1), Value::integer_ptr(2), Value::integer_ptr(3)]);
    assert_eq!(set.len(), 3);
}

#[test]
fn set_new_value() {
    let val = ValueSet::new_value(vec![Value::integer_ptr(10), Value::integer_ptr(20)]);
    assert!(val.is_set());
    if let Value::ValueSet(s, _) = val {
        assert_eq!(s.len(), 2);
    } else {
        panic!("Expected Set variant");
    }
}

#[test]
fn insert_adds_new_element() {
    let mut set = ValueSet::new_empty();
    set.insert(Value::integer_ptr(1));
    assert_eq!(set.len(), 1);
    assert!(set.contains(&Value::integer_ptr(1)));
}

#[test]
fn insert_prevents_duplicate_by_value_equality() {
    let mut set = ValueSet::new_empty();
    let val1 = Value::integer_ptr(42);
    let val2 = Value::integer_ptr(42);
    set.insert(val1);
    set.insert(val2);
    assert_eq!(set.len(), 1);
}

#[test]
fn insert_prevents_duplicate_by_pointer_equality() {
    let mut set = ValueSet::new_empty();
    let val = Value::integer_ptr(42);
    set.insert(val.clone());
    set.insert(val.clone());
    assert_eq!(set.len(), 1);
}

#[test]
fn insert_cannot_insert_same_value_twice() {
    let mut set = ValueSet::new_empty();
    set.insert(Value::integer_ptr(100));
    set.insert(Value::integer_ptr(100));
    set.insert(Value::integer_ptr(100));
    assert_eq!(set.len(), 1);
}

#[test]
fn insert_allows_multiple_distinct_values() {
    let mut set = ValueSet::new_empty();
    set.insert(Value::integer_ptr(1));
    set.insert(Value::integer_ptr(2));
    set.insert(Value::integer_ptr(3));
    assert_eq!(set.len(), 3);
}

#[test]
fn get_returns_some_for_present_value() {
    let set = ValueSet::new(vec![Value::integer_ptr(42)]);
    let result = set.get(&Value::integer_ptr(42));
    assert!(result.is_some());
}

#[test]
fn get_returns_none_for_missing_value() {
    let set = ValueSet::new(vec![Value::integer_ptr(42)]);
    let result = set.get(&Value::integer_ptr(99));
    assert!(result.is_none());
}

#[test]
fn get_or_nil_returns_nil_for_missing_value() {
    let set = ValueSet::new(vec![Value::integer_ptr(42)]);
    let result = set.get_or_nil(&Value::integer_ptr(99));
    assert!(result.is_nil());
}

#[test]
fn remove_removes_element_and_returns_value() {
    let mut set = ValueSet::new(vec![Value::integer_ptr(1), Value::integer_ptr(2), Value::integer_ptr(3)]);
    let removed = set.remove(&Value::integer_ptr(2));
    assert!(removed.is_some());
    assert_eq!(set.len(), 2);
    assert!(!set.contains(&Value::integer_ptr(2)));
}

#[test]
fn remove_returns_none_for_non_existent_value() {
    let mut set = ValueSet::new(vec![Value::integer_ptr(42)]);
    let removed = set.remove(&Value::integer_ptr(99));
    assert!(removed.is_none());
}

#[test]
fn remove_allows_reinsert() {
    let mut set = ValueSet::new(vec![Value::integer_ptr(42)]);
    set.remove(&Value::integer_ptr(42));
    assert_eq!(set.len(), 0);
    set.insert(Value::integer_ptr(42));
    assert_eq!(set.len(), 1);
    assert!(set.contains(&Value::integer_ptr(42)));
}

#[test]
fn contains_returns_false_for_non_existent() {
    let set = ValueSet::new(vec![Value::integer_ptr(42)]);
    assert!(!set.contains(&Value::integer_ptr(99)));
}

#[test]
fn set_equality_with_same_elements() {
    let set1 = ValueSet::new(vec![Value::integer_ptr(1), Value::integer_ptr(2)]);
    let set2 = ValueSet::new(vec![Value::integer_ptr(1), Value::integer_ptr(2)]);
    assert_eq!(set1, set2);
}

#[test]
fn sets_equal_whatever_the_order() {
    let set1 = ValueSet::new(vec![Value::integer_ptr(1), Value::integer_ptr(2)]);
    let set2 = ValueSet::new(vec![Value::integer_ptr(2), Value::integer_ptr(1)]);
    assert_eq!(set1, set2);
    assert_ne!(set1, ValueSet::new(vec![Value::integer_ptr(1)]));
}

#[test]
fn set_new_keeps_equal_values_once() {
    let set = ValueSet::new(vec![Value::integer_ptr(1), Value::integer_ptr(2), Value::integer_ptr(2)]);
    assert_eq!(set.len(), 2);
    assert!(set.contains(&Value::integer_ptr(1)));
    assert!(set.contains(&Value::integer_ptr(2)));
}
