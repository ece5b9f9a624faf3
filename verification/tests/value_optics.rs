use jinme::meta::MetaOps;
use jinme::float::Float;
use jinme::keyword::Keyword;
use jinme::list::List;
use jinme::map::ValueMap;
use jinme::optics::prism2::{PrismModify, PrismPreview, PrismReview, PrismSet, PrismTryModify};
use jinme::set::ValueSet;
use jinme::symbol::Symbol;
use jinme::value::optics::{modify_integer, modify_meta, preview_boolean_ref, preview_integer, preview_list_nth, preview_meta, preview_meta_ref, preview_nil, preview_vector_second, review_boolean, review_float, review_integer, review_keyword, review_list, review_map, review_nil, review_set, review_string, review_symbol, review_vector, set_integer, set_meta, try_get_meta, try_modify_integer};
use jinme::value::Value;
use jinme::vector::Vector;
use std::sync::Arc;

#[test]
fn test_modify_integer() {
    let val = review_integer(42);
    let modified = modify_integer(val, |i| i * 2);
    assert_eq!(preview_integer(&modified), Some(84));
}

#[test]
fn test_modify_integer_wrong_type() {
    let val = review_boolean(true);
    let modified = modify_integer(val.clone(), |i| i * 2);
    assert_eq!(modified, val);
}

#[test]
fn test_preview_nil() {
    let val = review_nil();
    assert_eq!(preview_nil(&val), Some(()));
}

#[test]
fn test_preview_meta_none() {
    let val = review_integer(42);
    assert!(preview_meta(&val).is_none());
}

#[test]
fn test_preview_meta_with_metadata() {
    let meta = ValueMap::new_empty();
    let val = set_meta(review_integer(42), Some(Arc::new(meta)));
    assert!(preview_meta(&val).is_some());
}

#[test]
fn test_modify_meta_add() {
    let val = review_integer(42);
    let modified = modify_meta(val, |_| Some(Arc::new(ValueMap::new_empty())));
    assert!(preview_meta(&modified).is_some());
    assert_eq!(preview_integer(&modified), Some(42));
}

#[test]
fn test_modify_meta_remove() {
    let val = set_meta(review_integer(42), Some(Arc::new(ValueMap::new_empty())));
    assert!(preview_meta(&val).is_some());
    let modified = modify_meta(val, |_| None);
    assert!(preview_meta(&modified).is_none());
    assert_eq!(preview_integer(&modified), Some(42));
}

#[test]
fn test_set_meta_replaces() {
    let val = set_meta(review_integer(42), Some(Arc::new(ValueMap::new_empty())));
    assert!(preview_meta(&val).is_some());
    let new_meta = ValueMap::new_empty();
    let modified = set_meta(val, Some(Arc::new(new_meta)));
    assert!(preview_meta(&modified).is_some());
    assert_eq!(preview_integer(&modified), Some(42));
}

#[test]
fn test_set_meta_to_none() {
    let val = set_meta(review_integer(42), Some(Arc::new(ValueMap::new_empty())));
    let modified = set_meta(val, None);
    assert!(preview_meta(&modified).is_none());
    assert_eq!(preview_integer(&modified), Some(42));
}

#[test]
fn test_try_get_meta_success() {
    let meta = ValueMap::new_empty();
    let val = set_meta(review_integer(42), Some(Arc::new(meta)));
    let result = try_get_meta(val);
    assert!(result.is_ok());
}

#[test]
fn test_try_get_meta_failure() {
    let val = review_integer(42);
    let result = try_get_meta(val.clone());
    assert!(result.is_err());
    assert_eq!(result.err().unwrap(), val);
}

#[test]
fn test_meta_on_various_types() {
    let values = vec![
        review_nil(),
        review_boolean(true),
        review_integer(42),
        review_float(Float::from_bits(3.14f64.to_bits())),
        review_string("test".to_string()),
        review_symbol(Symbol::new_unqualified("sym")),
        review_keyword(Keyword::new_unqualified("kw")),
        review_list(List::new_empty()),
        review_vector(Vector::new_empty()),
        review_set(ValueSet::new_empty()),
        review_map(ValueMap::new_empty()),
    ];

    for val in values {
        assert!(preview_meta(&val).is_none());
        let with_meta = set_meta(val.clone(), Some(Arc::new(ValueMap::new_empty())));
        assert!(preview_meta(&with_meta).is_some());
        let without_meta = set_meta(with_meta, None);
        assert!(preview_meta(&without_meta).is_none());
    }
}

#[test]
fn test_preview_meta_ref() {
    let val_no_meta = review_integer(42);
    assert!(preview_meta_ref(&val_no_meta).is_none());
    let val_with_meta = set_meta(review_integer(42), Some(Arc::new(ValueMap::new_empty())));
    let meta_ref = preview_meta_ref(&val_with_meta);
    assert!(meta_ref.is_some());
}

#[test]
fn test_preview_nil_ref() {
    assert_eq!(preview_nil(&review_nil()), Some(()));
    assert_eq!(preview_nil(&review_boolean(true)), None);
}

#[test]
fn test_preview_boolean_ref() {
    assert_eq!(preview_boolean_ref(&review_boolean(true)), Some(&true));
    assert_eq!(preview_boolean_ref(&review_boolean(false)), Some(&false));
    assert_eq!(preview_boolean_ref(&review_nil()), None);
}

#[test]
fn prism_nil() {
    let prism_nil = jinme::value::optics::prism_nil();
    assert_eq!(prism_nil.preview(&Value::nil()), Some(()));
    assert_eq!(prism_nil.preview(&Value::integer(42)), None);
    assert_eq!(*prism_nil.review(()), Value::nil());
}

#[test]
fn prism_integer() {
    let prism_integer = jinme::value::optics::prism_integer();
    assert_eq!(prism_integer.preview(&Value::integer(42)), Some(42));
    assert_eq!(prism_integer.preview(&Value::nil()), None);
    assert_eq!(*prism_integer.review(42), Value::integer(42));
}

#[test]
fn prism_float() {
    let f = Float::from_bits(3.14f64.to_bits());
    let prism_float = jinme::value::optics::prism_float();
    assert_eq!(prism_float.preview(&Value::float(f)), Some(f));
    assert_eq!(prism_float.preview(&Value::nil()), None);
    assert_eq!(*prism_float.review(f), Value::float(f));
}

#[test]
fn prism_string() {
    let prism_string = jinme::value::optics::prism_string();
    assert_eq!(prism_string.preview(&Value::string("hello".into())), Some("hello".to_string()));
    assert_eq!(prism_string.preview(&Value::nil()), None);
    assert_eq!(*prism_string.review("hello".to_string()), Value::string("hello".into()));
}

#[test]
fn prism_symbol() {
    let prism_symbol = jinme::value::optics::prism_symbol();
    assert_eq!(prism_symbol.preview(&Value::symbol_unqualified("sym")), Some(Symbol::new_unqualified("sym")));
    assert_eq!(prism_symbol.preview(&Value::nil()), None);
    assert_eq!(*prism_symbol.review(Symbol::new_unqualified("sym")), Value::symbol_unqualified("sym"));
}

#[test]
fn prism_keyword() {
    let prism_keyword = jinme::value::optics::prism_keyword();
    assert_eq!(prism_keyword.preview(&Value::keyword_unqualified("kw")), Some(Keyword::new_unqualified("kw")));
    assert_eq!(prism_keyword.preview(&Value::nil()), None);
    assert_eq!(*prism_keyword.review(Keyword::new_unqualified("kw")), Value::keyword_unqualified("kw"));
}

#[test]
fn prism_list() {
    let prism_list = jinme::value::optics::prism_list();
    assert_eq!(
        prism_list.preview(&Value::list_from(vec![Value::integer_ptr(1), Value::integer_ptr(2)])),
        Some(List::from(vec![Value::integer_ptr(1), Value::integer_ptr(2)]))
    );
    assert_eq!(prism_list.preview(&Value::nil()), None);
    assert_eq!(
        *prism_list.review(List::from(vec![Value::integer_ptr(1), Value::integer_ptr(2)])),
        Value::list_from(vec![Value::integer_ptr(1), Value::integer_ptr(2)])
    );
}

#[test]
fn prism_vector() {
    let prism_vector = jinme::value::optics::prism_vector();
    assert_eq!(
        prism_vector.preview(&Value::vector_from(vec![Value::integer_ptr(1), Value::integer_ptr(2)])),
        Some(Vector::from(vec![Value::integer_ptr(1), Value::integer_ptr(2)]))
    );
    assert_eq!(prism_vector.preview(&Value::nil()), None);
    assert_eq!(
        *prism_vector.review(Vector::from(vec![Value::integer_ptr(1), Value::integer_ptr(2)])),
        Value::vector_from(vec![Value::integer_ptr(1), Value::integer_ptr(2)])
    );
}

#[test]
fn prism_set() {
    let prism_set = jinme::value::optics::prism_set();
    assert_eq!(
        prism_set.preview(&Value::set_from(vec![Value::integer_ptr(1), Value::integer_ptr(2)])),
        Some(ValueSet::new(vec![Value::integer_ptr(1), Value::integer_ptr(2)]))
    );
    assert_eq!(prism_set.preview(&Value::nil()), None);
    assert_eq!(
        *prism_set.review(ValueSet::new(vec![Value::integer_ptr(1), Value::integer_ptr(2)])),
        Value::set_from(vec![Value::integer_ptr(1), Value::integer_ptr(2)])
    );
}

#[test]
fn prism_map() {
    let prism_map = jinme::value::optics::prism_map();
    let test_map = ValueMap::new(vec![(Value::integer_ptr(1), Value::integer_ptr(2))]);
    assert_eq!(
        prism_map.preview(&Value::map_from(vec![(Value::integer_ptr(1), Value::integer_ptr(2))])),
        Some(test_map.clone())
    );
    assert_eq!(prism_map.preview(&Value::nil()), None);
    let test_map2 = ValueMap::new(vec![(Value::integer_ptr(1), Value::integer_ptr(2))]);
    assert_eq!(
        *prism_map.review(test_map2),
        Value::map_from(vec![(Value::integer_ptr(1), Value::integer_ptr(2))])
    );
}

#[test]
fn set_and_try_modify_follow_the_kind() {
    assert_eq!(*set_integer(review_integer(1), 5), Value::integer(5));
    let s = review_string("a".to_string());
    assert_eq!(set_integer(s.clone(), 5), s);
    assert_eq!(*try_modify_integer(review_integer(2), |i| i + 1).ok().unwrap(), Value::integer(3));
    assert!(try_modify_integer(s, |i| i + 1).is_err());
    assert_eq!(preview_vector_second(&Value::vector_from(vec![Value::integer_ptr(1), Value::integer_ptr(2)])), Some(Value::integer_ptr(2)));
    assert_eq!(preview_list_nth(&Value::nil(), 0), None);
}

#[test]
fn with_meta_keeps_the_value() {
    let meta = Some(Arc::new(ValueMap::new(vec![(Value::keyword_unqualified_ptr("line"), Value::integer_ptr(3))])));
    let v = Value::string("x".to_string());
    let w = v.with_meta(meta.clone());
    assert_eq!(v, w);
    assert_eq!(w.meta(), meta);
    assert!(v.meta().is_none());
}

#[test]
fn value_equality_is_symmetric_on_examples() {
    let a = Value::new_set_ptr(vec![Value::integer_ptr(1), Value::keyword_unqualified_ptr("k")]);
    let b = Value::new_set_ptr(vec![Value::keyword_unqualified_ptr("k"), Value::integer_ptr(1)]);
    assert_eq!(a == b, b == a);
    assert!(a == b);
    let m1 = Value::new_map_ptr(vec![(Value::integer_ptr(1), Value::nil_ptr())]);
    let m2 = Value::new_map_ptr(vec![(Value::integer_ptr(1), Value::boolean_ptr(false))]);
    assert_eq!(m1 == m2, m2 == m1);
    assert!(m1 != m2);
}

#[test]
fn nil_optics() {
    assert!(jinme::value::optics::preview_nil_ref(&Value::nil()).is_some());
    assert!(jinme::value::optics::preview_nil_ref(&Value::integer(1)).is_none());
    let with_meta = review_integer(1);
    assert_eq!(jinme::value::optics::modify_nil(with_meta.clone(), |_| ()), with_meta);
    assert_eq!(jinme::value::optics::modify_nil(Value::nil_ptr(), |_| ()), Value::nil_ptr());
    assert!(jinme::value::optics::try_modify_nil(review_integer(1), |_| ()).is_err());
    assert!(jinme::value::optics::try_modify_nil(Value::nil_ptr(), |_| ()).is_ok());
}

#[test]
fn value_equality_is_reflexive_without_nan() {
    let nested = Value::new_map_ptr(vec![(
        Value::keyword_unqualified_ptr("k"),
        Value::new_set_ptr(vec![Value::integer_ptr(1), Value::float_ptr(Float::from_bits(0x3ff0_0000_0000_0000))]),
    )]);
    assert!(*nested == *nested);
    let nan = Value::float_ptr(Float::from_bits(0x7ff8_0000_0000_0000));
    assert!(*nan != *nan);
    let list_with_nan = Value::new_list_ptr(vec![nan.clone()]);
    assert!(*list_with_nan != *list_with_nan);
}

#[test]
fn value_equality_is_transitive_on_examples() {
    let a = Value::new_set_ptr(vec![Value::integer_ptr(1), Value::new_vector_ptr(vec![Value::keyword_unqualified_ptr("k")])]);
    let b = Value::new_set_ptr(vec![Value::new_vector_ptr(vec![Value::keyword_unqualified_ptr("k")]), Value::integer_ptr(1)]);
    let c = Value::new_set_ptr(vec![Value::integer_ptr(1), Value::new_vector_ptr(vec![Value::keyword_unqualified_ptr("k")])]);
    assert!(*a == *b && *b == *c);
    assert!(*a == *c);
    let zero = Value::float_ptr(Float::from_bits(0));
    let negative_zero = Value::float_ptr(Float::from_bits(0x8000_0000_0000_0000));
    assert!(*zero == *negative_zero && *negative_zero == *zero);
}

#[test]
fn metadata_gives_back_what_was_associated() {
    let none: Option<Arc<ValueMap>> = None;
    let k = Value::keyword_unqualified_ptr("doc");
    let first = none.assoc(k.clone(), Value::string_ptr("one".to_string()));
    assert_eq!(first.get(&k), Some(Value::string_ptr("one".to_string())));
    let second = first.assoc(Value::keyword_unqualified_ptr("doc"), Value::string_ptr("two".to_string()));
    assert_eq!(second.get(&k), Some(Value::string_ptr("two".to_string())));
    let other = Value::keyword_unqualified_ptr("line");
    let third = second.assoc(other.clone(), Value::integer_ptr(3));
    assert_eq!(third.get(&k), Some(Value::string_ptr("two".to_string())));
    assert_eq!(third.get(&other), Some(Value::integer_ptr(3)));
    assert_eq!(third.as_ref().unwrap().len(), 2);
}

#[test]
fn prism_integer_changes_only_integers() {
    let prism = jinme::value::optics::prism_integer();
    assert_eq!(*prism.modify(review_integer(2), |x| x + 1), Value::integer(3));
    let b = review_boolean(true);
    assert!(Arc::ptr_eq(&prism.modify(b.clone(), |x| x + 1), &b));
    assert_eq!(*prism.set(review_integer(2), 9), Value::integer(9));
    assert!(Arc::ptr_eq(&prism.set(b.clone(), 9), &b));
    match prism.try_modify(review_integer(5), |x| x * 2) {
        Ok(v) => assert_eq!(*v, Value::integer(10)),
        Err(_) => panic!("an integer holds an integer"),
    }
    assert!(matches!(prism.try_modify(review_nil(), |x| x), Err(_)));
}
