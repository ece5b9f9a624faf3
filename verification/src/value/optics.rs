//! Optics on the kinds of [`Value`]: for each kind, a way to read what a
//! value of that kind holds (`preview_*`), to make a value of that kind
//! (`review_*`), and to change or replace what it holds (`modify_*`,
//! `set_*`, `try_modify_*`), together with the prism made of them.
use vstd::prelude::*;
use std::sync::Arc;
use crate::float::Float;
use crate::function::PtrFunction;
use crate::handle::Handle;
use crate::keyword::{Keyword, KeywordQualified, KeywordUnqualified};
use crate::list::List;
use crate::map::ValueMap;
use crate::optics::prism2::{Prism, PrismModify, PrismPreview, PrismReview, PrismSet, PrismTryModify};
use crate::set::ValueSet;
use crate::symbol::{Symbol, SymbolQualified, SymbolUnqualified};
use crate::value::{PtrValue, Value, elem_at, spec_meta};
use crate::var::PtrVar;
use crate::vector::Vector;

verus! {

/// Whether `f` makes `y` of a copy of `x`.
pub open spec fn modified_by<T: View, F: Fn(T) -> T>(f: F, x: T, y: T) -> bool {
    exists|c: T| c@ == x@ && #[trigger] f.ensures((c,), y)
}

/// A kind of thing that a value may hold, with the functions that read it
/// out of a value of that kind and make a value of that kind from it.
pub trait ValueFocus: Sized {
    /// Whether `r` is what reading this kind of thing out of `v` gives.
    spec fn previews(v: Value, r: Option<Self>) -> bool;

    /// Whether `v` is the value, without metadata, that holds `a`.
    spec fn reviews(a: Self, v: Value) -> bool;

    /// What `value` holds, if it is of this kind.
    fn preview_of(value: &Value) -> (res: Option<Self>)
        ensures
            Self::previews(*value, res),
    ;

    /// The value, without metadata, that holds `a`.
    fn review_of(a: Self) -> (res: PtrValue)
        ensures
            Self::reviews(a, *res),
    ;

    /// Whether `a` and `b` are the same: equal, or for collections, with
    /// the same elements.
    spec fn same_focus(a: Self, b: Self) -> bool;

    /// The value that holds `a` reads back as `a`.
    proof fn lemma_review_then_preview(a: Self, v: PtrValue)
        requires
            Self::reviews(a, *v),
        ensures
            exists|r: Self| #[trigger] Self::previews(*v, Some(r)) && Self::same_focus(r, a),
    ;
}

/// The prism on the values that hold an `A`.
pub struct ValuePrism<A> {
    kind: std::marker::PhantomData<A>,
}

impl<A> ValuePrism<A> {
    /// The prism on the values that hold an `A`.
    pub fn new() -> (res: Self) {
        ValuePrism { kind: std::marker::PhantomData }
    }
}

impl<A: ValueFocus> PrismPreview<Value, A> for ValuePrism<A> {
    open spec fn preview_requires(&self, source: &Value) -> bool {
        true
    }

    open spec fn preview_ensures(&self, source: &Value, res: Option<A>) -> bool {
        A::previews(*source, res)
    }

    fn preview(&self, source: &Value) -> (res: Option<A>) {
        A::preview_of(source)
    }
}

impl<A: ValueFocus> PrismReview<Value, A> for ValuePrism<A> {
    open spec fn review_requires(&self, a: &A) -> bool {
        true
    }

    open spec fn review_ensures(&self, a: &A, res: PtrValue) -> bool {
        A::reviews(*a, *res)
    }

    fn review(&self, a: A) -> (res: PtrValue) {
        A::review_of(a)
    }
}

impl<A: ValueFocus> PrismModify<Value, A> for ValuePrism<A> {
    open spec fn modify_requires(&self, source: &Value) -> bool {
        true
    }

    fn modify<M: Fn(A) -> A>(&self, source: PtrValue, f: M) -> (res: PtrValue) {
        let p = A::preview_of(&*source);
        let ghost gp = p;
        assert(self.preview_ensures(&*source, gp));
        match p {
            Some(a) => {
                let ghost ga = a;
                let b = f(a);
                let ghost gb = b;
                let r = A::review_of(b);
                assert(f.ensures((ga,), gb) && self.review_ensures(&gb, r));
                r
            },
            None => source,
        }
    }
}

impl<A: ValueFocus> PrismSet<Value, A> for ValuePrism<A> {
    open spec fn set_requires(&self, source: &Value) -> bool {
        true
    }

    fn set(&self, source: PtrValue, a: A) -> (res: PtrValue) {
        let p = A::preview_of(&*source);
        let ghost gp = p;
        assert(self.preview_ensures(&*source, gp));
        match p {
            Some(_) => A::review_of(a),
            None => source,
        }
    }
}

impl<A: ValueFocus> PrismTryModify<Value, A> for ValuePrism<A> {
    open spec fn try_modify_requires(&self, source: &Value) -> bool {
        true
    }

    fn try_modify<M: Fn(A) -> A>(&self, source: PtrValue, f: M) -> (res: Result<PtrValue, PtrValue>) {
        let p = A::preview_of(&*source);
        let ghost gp = p;
        assert(self.preview_ensures(&*source, gp));
        match p {
            Some(a) => {
                let ghost ga = a;
                let b = f(a);
                let ghost gb = b;
                let r = A::review_of(b);
                assert(f.ensures((ga,), gb) && self.review_ensures(&gb, r));
                Ok(r)
            },
            None => Err(source),
        }
    }
}

impl<A: ValueFocus> Prism<Value, A> for ValuePrism<A> {
}

/// A prism on values reads back what it makes: previewing the value that
/// `review` makes of `a` gives `a` again (for collections, one with the
/// same elements).
pub proof fn law_prism_review_then_preview<A: ValueFocus>(p: ValuePrism<A>, a: A, v: PtrValue)
    requires
        p.review_ensures(&a, v),
    ensures
        exists|r: A| #[trigger] p.preview_ensures(&*v, Some(r)) && A::same_focus(r, a),
{
    A::lemma_review_then_preview(a, v);
    let r = choose|r: A| #[trigger] A::previews(*v, Some(r)) && A::same_focus(r, a);
    assert(p.preview_ensures(&*v, Some(r)));
}

/// Whether `x` holds the `nil` value.
pub fn preview_nil(value: &Value) -> (res: Option<()>)
    ensures
        res is Some <==> *value is Nil,
{
    match value {
        Value::Nil(_) => Some(()),
        _ => None,
    }
}

/// The nil value.
pub fn review_nil() -> (res: PtrValue)
    ensures
        *res == Value::Nil(None),
{
    Value::nil_ptr()
}

/// A reference to the unit that a nil value holds, if `value` is nil.
pub fn preview_nil_ref(value: &Value) -> (res: Option<&()>)
    ensures
        res is Some <==> *value is Nil,
{
    match value {
        Value::Nil(_) => Some(&()),
        _ => None,
    }
}

/// A nil value without metadata if `value` is nil, after calling `f` on the
/// unit it holds; `value` otherwise.
pub fn modify_nil<F: Fn(()) -> ()>(value: PtrValue, f: F) -> (res: PtrValue)
    requires
        f.requires(((),)),
    ensures
        *value is Nil ==> *res == Value::Nil(None),
        !(*value is Nil) ==> res == value,
{
    match &*value {
        Value::Nil(_) => {
            f(());
            Value::nil_ptr()
        },
        _ => value,
    }
}

/// `Ok` of a nil value without metadata if `value` is nil, after calling
/// `f` on the unit it holds; `Err` of `value` otherwise.
pub fn try_modify_nil<F: Fn(()) -> ()>(value: PtrValue, f: F) -> (res: Result<PtrValue, PtrValue>)
    requires
        f.requires(((),)),
    ensures
        *value is Nil ==> (res matches Ok(r) && *r == Value::Nil(None)),
        !(*value is Nil) ==> res == Err::<PtrValue, PtrValue>(value),
{
    match &*value {
        Value::Nil(_) => {
            f(());
            Ok(Value::nil_ptr())
        },
        _ => Err(value),
    }
}

/// A nil value without metadata if `value` is nil, `value` otherwise.
pub fn set_nil(value: PtrValue) -> (res: PtrValue)
    ensures
        *value is Nil ==> *res == Value::Nil(None),
        !(*value is Nil) ==> res == value,
{
    match &*value {
        Value::Nil(_) => Value::nil_ptr(),
        _ => value,
    }
}

impl ValueFocus for () {
    open spec fn previews(v: Value, r: Option<()>) -> bool {
        (r is Some) <==> v is Nil
    }

    open spec fn reviews(a: (), v: Value) -> bool {
        v == Value::Nil(None)
    }

    fn preview_of(value: &Value) -> (res: Option<()>) {
        preview_nil(value)
    }

    fn review_of(_a: ()) -> (res: PtrValue) {
        review_nil()
    }

    open spec fn same_focus(a: (), b: ()) -> bool {
        a == b
    }

    proof fn lemma_review_then_preview(a: (), v: PtrValue) {
        assert(Self::previews(*v, Some(a)) && Self::same_focus(a, a));
    }
}

/// The prism on nil values: it reads what a nil value holds, makes
/// a nil value without metadata, and may be used on any value.
pub fn prism_nil() -> (res: ValuePrism<()>)
    ensures
        forall|s: &Value| #[trigger] res.preview_requires(s),
        forall|s: &Value, p: Option<()>| #[trigger] res.preview_ensures(s, p) <==> (
            (p is Some) <==> *s is Nil),
        forall|a: &()| #[trigger] res.review_requires(a),
        forall|a: &(), v: PtrValue| #[trigger] res.review_ensures(a, v) <==> *v == Value::Nil(None),
        forall|s: &Value| #[trigger] res.modify_requires(s),
        forall|s: &Value| #[trigger] res.set_requires(s),
        forall|s: &Value| #[trigger] res.try_modify_requires(s),
{
    ValuePrism::new()
}

/// What `value` holds, if it is a boolean.
pub fn preview_boolean(value: &Value) -> (res: Option<bool>)
    ensures
        match (res, *value) {
            (Some(r), Value::Boolean(x, _)) => r == x,
            (None, Value::Boolean(_, _)) => false,
            (Some(_), _) => false,
            (None, _) => true,
        },
{
    match value {
        Value::Boolean(x, _) => Some(*x),
        _ => None,
    }
}

/// What `value` holds, by reference, if it is a boolean.
pub fn preview_boolean_ref(value: &Value) -> (res: Option<&bool>)
    ensures
        match *value {
            Value::Boolean(x, _) => res == Some(&x),
            _ => res is None,
        },
{
    match value {
        Value::Boolean(x, _) => Some(x),
        _ => None,
    }
}

/// A boolean value holding `x`, without metadata.
pub fn review_boolean(x: bool) -> (res: PtrValue)
    ensures
        *res == Value::Boolean(x, None),
{
    Arc::new(Value::Boolean(x, None))
}

/// A boolean value holding `x` if `value` is a boolean, `value` otherwise.
pub fn set_boolean(value: PtrValue, x: bool) -> (res: PtrValue)
    ensures
        *value is Boolean ==> *res == Value::Boolean(x, None),
        !(*value is Boolean) ==> res == value,
{
    match &*value {
        Value::Boolean(_, _) => Arc::new(Value::Boolean(x, None)),
        _ => value,
    }
}

/// A boolean value holding what `f` makes of what `value` holds, if `value`
/// is a boolean; `value` otherwise.
pub fn modify_boolean<F: Fn(bool) -> bool>(value: PtrValue, f: F) -> (res: PtrValue)
    requires
        forall|a: bool| #[trigger] f.requires((a,)),
    ensures
        match *value {
            Value::Boolean(x, _) => *res matches Value::Boolean(y, None) && f.ensures((x,), y),
            _ => res == value,
        },
{
    match &*value {
        Value::Boolean(x, _) => {
            let c = *x;
            let ghost gc = c;
            let y = f(c);
            assert(f.ensures((gc,), y));
            Arc::new(Value::Boolean(y, None))
        },
        _ => value,
    }
}

/// `Ok` of what [`modify_boolean`] makes if `value` is a boolean, `Err` of
/// `value` otherwise.
pub fn try_modify_boolean<F: Fn(bool) -> bool>(value: PtrValue, f: F) -> (res: Result<PtrValue, PtrValue>)
    requires
        forall|a: bool| #[trigger] f.requires((a,)),
    ensures
        match *value {
            Value::Boolean(x, _) => res matches Ok(v) && *v matches Value::Boolean(y, None)
                && f.ensures((x,), y),
            _ => res == Err::<PtrValue, PtrValue>(value),
        },
{
    match &*value {
        Value::Boolean(x, _) => {
            let c = *x;
            let ghost gc = c;
            let y = f(c);
            assert(f.ensures((gc,), y));
            Ok(Arc::new(Value::Boolean(y, None)))
        },
        _ => Err(value),
    }
}

impl ValueFocus for bool {
    open spec fn previews(v: Value, r: Option<bool>) -> bool {
        match v {
            Value::Boolean(x, _) => r == Some(x),
            _ => r is None,
        }
    }

    open spec fn reviews(a: bool, v: Value) -> bool {
        v == Value::Boolean(a, None)
    }

    fn preview_of(value: &Value) -> (res: Option<bool>) {
        preview_boolean(value)
    }

    fn review_of(a: bool) -> (res: PtrValue) {
        review_boolean(a)
    }

    open spec fn same_focus(a: bool, b: bool) -> bool {
        a == b
    }

    proof fn lemma_review_then_preview(a: bool, v: PtrValue) {
        assert(Self::previews(*v, Some(a)) && Self::same_focus(a, a));
    }
}

/// The prism on boolean values: it reads what a boolean value holds, makes
/// a boolean value without metadata, and may be used on any value.
pub fn prism_boolean() -> (res: ValuePrism<bool>)
    ensures
        forall|s: &Value| #[trigger] res.preview_requires(s),
        forall|s: &Value, p: Option<bool>| #[trigger] res.preview_ensures(s, p) <==> (
            match *s {
                Value::Boolean(x, _) => p == Some(x),
                _ => p is None,
            }),
        forall|a: &bool| #[trigger] res.review_requires(a),
        forall|a: &bool, v: PtrValue| #[trigger] res.review_ensures(a, v) <==> *v == Value::Boolean(*a, None),
        forall|s: &Value| #[trigger] res.modify_requires(s),
        forall|s: &Value| #[trigger] res.set_requires(s),
        forall|s: &Value| #[trigger] res.try_modify_requires(s),
{
    ValuePrism::new()
}

/// What `value` holds, if it is a integer.
pub fn preview_integer(value: &Value) -> (res: Option<i64>)
    ensures
        match (res, *value) {
            (Some(r), Value::Integer(x, _)) => r == x,
            (None, Value::Integer(_, _)) => false,
            (Some(_), _) => false,
            (None, _) => true,
        },
{
    match value {
        Value::Integer(x, _) => Some(*x),
        _ => None,
    }
}

/// What `value` holds, by reference, if it is a integer.
pub fn preview_integer_ref(value: &Value) -> (res: Option<&i64>)
    ensures
        match *value {
            Value::Integer(x, _) => res == Some(&x),
            _ => res is None,
        },
{
    match value {
        Value::Integer(x, _) => Some(x),
        _ => None,
    }
}

/// A integer value holding `x`, without metadata.
pub fn review_integer(x: i64) -> (res: PtrValue)
    ensures
        *res == Value::Integer(x, None),
{
    Arc::new(Value::Integer(x, None))
}

/// A integer value holding `x` if `value` is a integer, `value` otherwise.
pub fn set_integer(value: PtrValue, x: i64) -> (res: PtrValue)
    ensures
        *value is Integer ==> *res == Value::Integer(x, None),
        !(*value is Integer) ==> res == value,
{
    match &*value {
        Value::Integer(_, _) => Arc::new(Value::Integer(x, None)),
        _ => value,
    }
}

/// A integer value holding what `f` makes of what `value` holds, if `value`
/// is a integer; `value` otherwise.
pub fn modify_integer<F: Fn(i64) -> i64>(value: PtrValue, f: F) -> (res: PtrValue)
    requires
        forall|a: i64| #[trigger] f.requires((a,)),
    ensures
        match *value {
            Value::Integer(x, _) => *res matches Value::Integer(y, None) && f.ensures((x,), y),
            _ => res == value,
        },
{
    match &*value {
        Value::Integer(x, _) => {
            let c = *x;
            let ghost gc = c;
            let y = f(c);
            assert(f.ensures((gc,), y));
            Arc::new(Value::Integer(y, None))
        },
        _ => value,
    }
}

/// `Ok` of what [`modify_integer`] makes if `value` is a integer, `Err` of
/// `value` otherwise.
pub fn try_modify_integer<F: Fn(i64) -> i64>(value: PtrValue, f: F) -> (res: Result<PtrValue, PtrValue>)
    requires
        forall|a: i64| #[trigger] f.requires((a,)),
    ensures
        match *value {
            Value::Integer(x, _) => res matches Ok(v) && *v matches Value::Integer(y, None)
                && f.ensures((x,), y),
            _ => res == Err::<PtrValue, PtrValue>(value),
        },
{
    match &*value {
        Value::Integer(x, _) => {
            let c = *x;
            let ghost gc = c;
            let y = f(c);
            assert(f.ensures((gc,), y));
            Ok(Arc::new(Value::Integer(y, None)))
        },
        _ => Err(value),
    }
}

impl ValueFocus for i64 {
    open spec fn previews(v: Value, r: Option<i64>) -> bool {
        match v {
            Value::Integer(x, _) => r == Some(x),
            _ => r is None,
        }
    }

    open spec fn reviews(a: i64, v: Value) -> bool {
        v == Value::Integer(a, None)
    }

    fn preview_of(value: &Value) -> (res: Option<i64>) {
        preview_integer(value)
    }

    fn review_of(a: i64) -> (res: PtrValue) {
        review_integer(a)
    }

    open spec fn same_focus(a: i64, b: i64) -> bool {
        a == b
    }

    proof fn lemma_review_then_preview(a: i64, v: PtrValue) {
        assert(Self::previews(*v, Some(a)) && Self::same_focus(a, a));
    }
}

/// The prism on integer values: it reads what an integer value holds, makes
/// an integer value without metadata, and may be used on any value.
pub fn prism_integer() -> (res: ValuePrism<i64>)
    ensures
        forall|s: &Value| #[trigger] res.preview_requires(s),
        forall|s: &Value, p: Option<i64>| #[trigger] res.preview_ensures(s, p) <==> (
            match *s {
                Value::Integer(x, _) => p == Some(x),
                _ => p is None,
            }),
        forall|a: &i64| #[trigger] res.review_requires(a),
        forall|a: &i64, v: PtrValue| #[trigger] res.review_ensures(a, v) <==> *v == Value::Integer(*a, None),
        forall|s: &Value| #[trigger] res.modify_requires(s),
        forall|s: &Value| #[trigger] res.set_requires(s),
        forall|s: &Value| #[trigger] res.try_modify_requires(s),
{
    ValuePrism::new()
}

/// What `value` holds, if it is a float.
pub fn preview_float(value: &Value) -> (res: Option<Float>)
    ensures
        match (res, *value) {
            (Some(r), Value::Float(x, _)) => r == x,
            (None, Value::Float(_, _)) => false,
            (Some(_), _) => false,
            (None, _) => true,
        },
{
    match value {
        Value::Float(x, _) => Some(*x),
        _ => None,
    }
}

/// What `value` holds, by reference, if it is a float.
pub fn preview_float_ref(value: &Value) -> (res: Option<&Float>)
    ensures
        match *value {
            Value::Float(x, _) => res == Some(&x),
            _ => res is None,
        },
{
    match value {
        Value::Float(x, _) => Some(x),
        _ => None,
    }
}

/// A float value holding `x`, without metadata.
pub fn review_float(x: Float) -> (res: PtrValue)
    ensures
        *res == Value::Float(x, None),
{
    Arc::new(Value::Float(x, None))
}

/// A float value holding `x` if `value` is a float, `value` otherwise.
pub fn set_float(value: PtrValue, x: Float) -> (res: PtrValue)
    ensures
        *value is Float ==> *res == Value::Float(x, None),
        !(*value is Float) ==> res == value,
{
    match &*value {
        Value::Float(_, _) => Arc::new(Value::Float(x, None)),
        _ => value,
    }
}

/// A float value holding what `f` makes of what `value` holds, if `value`
/// is a float; `value` otherwise.
pub fn modify_float<F: Fn(Float) -> Float>(value: PtrValue, f: F) -> (res: PtrValue)
    requires
        forall|a: Float| #[trigger] f.requires((a,)),
    ensures
        match *value {
            Value::Float(x, _) => *res matches Value::Float(y, None) && f.ensures((x,), y),
            _ => res == value,
        },
{
    match &*value {
        Value::Float(x, _) => {
            let c = *x;
            let ghost gc = c;
            let y = f(c);
            assert(f.ensures((gc,), y));
            Arc::new(Value::Float(y, None))
        },
        _ => value,
    }
}

/// `Ok` of what [`modify_float`] makes if `value` is a float, `Err` of
/// `value` otherwise.
pub fn try_modify_float<F: Fn(Float) -> Float>(value: PtrValue, f: F) -> (res: Result<PtrValue, PtrValue>)
    requires
        forall|a: Float| #[trigger] f.requires((a,)),
    ensures
        match *value {
            Value::Float(x, _) => res matches Ok(v) && *v matches Value::Float(y, None)
                && f.ensures((x,), y),
            _ => res == Err::<PtrValue, PtrValue>(value),
        },
{
    match &*value {
        Value::Float(x, _) => {
            let c = *x;
            let ghost gc = c;
            let y = f(c);
            assert(f.ensures((gc,), y));
            Ok(Arc::new(Value::Float(y, None)))
        },
        _ => Err(value),
    }
}

impl ValueFocus for Float {
    open spec fn previews(v: Value, r: Option<Float>) -> bool {
        match v {
            Value::Float(x, _) => r == Some(x),
            _ => r is None,
        }
    }

    open spec fn reviews(a: Float, v: Value) -> bool {
        v == Value::Float(a, None)
    }

    fn preview_of(value: &Value) -> (res: Option<Float>) {
        preview_float(value)
    }

    fn review_of(a: Float) -> (res: PtrValue) {
        review_float(a)
    }

    open spec fn same_focus(a: Float, b: Float) -> bool {
        a == b
    }

    proof fn lemma_review_then_preview(a: Float, v: PtrValue) {
        assert(Self::previews(*v, Some(a)) && Self::same_focus(a, a));
    }
}

/// The prism on float values: it reads what a float value holds, makes
/// a float value without metadata, and may be used on any value.
pub fn prism_float() -> (res: ValuePrism<Float>)
    ensures
        forall|s: &Value| #[trigger] res.preview_requires(s),
        forall|s: &Value, p: Option<Float>| #[trigger] res.preview_ensures(s, p) <==> (
            match *s {
                Value::Float(x, _) => p == Some(x),
                _ => p is None,
            }),
        forall|a: &Float| #[trigger] res.review_requires(a),
        forall|a: &Float, v: PtrValue| #[trigger] res.review_ensures(a, v) <==> *v == Value::Float(*a, None),
        forall|s: &Value| #[trigger] res.modify_requires(s),
        forall|s: &Value| #[trigger] res.set_requires(s),
        forall|s: &Value| #[trigger] res.try_modify_requires(s),
{
    ValuePrism::new()
}

/// What `value` holds, if it is a string.
pub fn preview_string(value: &Value) -> (res: Option<String>)
    ensures
        match (res, *value) {
            (Some(r), Value::String(x, _)) => r == x,
            (None, Value::String(_, _)) => false,
            (Some(_), _) => false,
            (None, _) => true,
        },
{
    match value {
        Value::String(x, _) => Some(x.clone()),
        _ => None,
    }
}

/// What `value` holds, by reference, if it is a string.
pub fn preview_string_ref(value: &Value) -> (res: Option<&String>)
    ensures
        match *value {
            Value::String(x, _) => res == Some(&x),
            _ => res is None,
        },
{
    match value {
        Value::String(x, _) => Some(x),
        _ => None,
    }
}

/// A string value holding `x`, without metadata.
pub fn review_string(x: String) -> (res: PtrValue)
    ensures
        *res == Value::String(x, None),
{
    Arc::new(Value::String(x, None))
}

/// A string value holding `x` if `value` is a string, `value` otherwise.
pub fn set_string(value: PtrValue, x: String) -> (res: PtrValue)
    ensures
        *value is String ==> *res == Value::String(x, None),
        !(*value is String) ==> res == value,
{
    match &*value {
        Value::String(_, _) => Arc::new(Value::String(x, None)),
        _ => value,
    }
}

/// A string value holding what `f` makes of what `value` holds, if `value`
/// is a string; `value` otherwise.
pub fn modify_string<F: Fn(String) -> String>(value: PtrValue, f: F) -> (res: PtrValue)
    requires
        forall|a: String| #[trigger] f.requires((a,)),
    ensures
        match *value {
            Value::String(x, _) => *res matches Value::String(y, None) && f.ensures((x,), y),
            _ => res == value,
        },
{
    match &*value {
        Value::String(x, _) => {
            let c = x.clone();
            let ghost gc = c;
            let y = f(c);
            assert(f.ensures((gc,), y));
            Arc::new(Value::String(y, None))
        },
        _ => value,
    }
}

/// `Ok` of what [`modify_string`] makes if `value` is a string, `Err` of
/// `value` otherwise.
pub fn try_modify_string<F: Fn(String) -> String>(value: PtrValue, f: F) -> (res: Result<PtrValue, PtrValue>)
    requires
        forall|a: String| #[trigger] f.requires((a,)),
    ensures
        match *value {
            Value::String(x, _) => res matches Ok(v) && *v matches Value::String(y, None)
                && f.ensures((x,), y),
            _ => res == Err::<PtrValue, PtrValue>(value),
        },
{
    match &*value {
        Value::String(x, _) => {
            let c = x.clone();
            let ghost gc = c;
            let y = f(c);
            assert(f.ensures((gc,), y));
            Ok(Arc::new(Value::String(y, None)))
        },
        _ => Err(value),
    }
}

impl ValueFocus for String {
    open spec fn previews(v: Value, r: Option<String>) -> bool {
        match v {
            Value::String(x, _) => r == Some(x),
            _ => r is None,
        }
    }

    open spec fn reviews(a: String, v: Value) -> bool {
        v == Value::String(a, None)
    }

    fn preview_of(value: &Value) -> (res: Option<String>) {
        preview_string(value)
    }

    fn review_of(a: String) -> (res: PtrValue) {
        review_string(a)
    }

    open spec fn same_focus(a: String, b: String) -> bool {
        a == b
    }

    proof fn lemma_review_then_preview(a: String, v: PtrValue) {
        assert(Self::previews(*v, Some(a)) && Self::same_focus(a, a));
    }
}

/// The prism on string values: it reads what a string value holds, makes
/// a string value without metadata, and may be used on any value.
pub fn prism_string() -> (res: ValuePrism<String>)
    ensures
        forall|s: &Value| #[trigger] res.preview_requires(s),
        forall|s: &Value, p: Option<String>| #[trigger] res.preview_ensures(s, p) <==> (
            match *s {
                Value::String(x, _) => p == Some(x),
                _ => p is None,
            }),
        forall|a: &String| #[trigger] res.review_requires(a),
        forall|a: &String, v: PtrValue| #[trigger] res.review_ensures(a, v) <==> *v == Value::String(*a, None),
        forall|s: &Value| #[trigger] res.modify_requires(s),
        forall|s: &Value| #[trigger] res.set_requires(s),
        forall|s: &Value| #[trigger] res.try_modify_requires(s),
{
    ValuePrism::new()
}

/// What `value` holds, if it is a symbol.
pub fn preview_symbol(value: &Value) -> (res: Option<Symbol>)
    ensures
        match (res, *value) {
            (Some(r), Value::Symbol(x, _)) => r == x,
            (None, Value::Symbol(_, _)) => false,
            (Some(_), _) => false,
            (None, _) => true,
        },
{
    match value {
        Value::Symbol(x, _) => Some(x.clone()),
        _ => None,
    }
}

/// What `value` holds, by reference, if it is a symbol.
pub fn preview_symbol_ref(value: &Value) -> (res: Option<&Symbol>)
    ensures
        match *value {
            Value::Symbol(x, _) => res == Some(&x),
            _ => res is None,
        },
{
    match value {
        Value::Symbol(x, _) => Some(x),
        _ => None,
    }
}

/// A symbol value holding `x`, without metadata.
pub fn review_symbol(x: Symbol) -> (res: PtrValue)
    ensures
        *res == Value::Symbol(x, None),
{
    Arc::new(Value::Symbol(x, None))
}

/// A symbol value holding `x` if `value` is a symbol, `value` otherwise.
pub fn set_symbol(value: PtrValue, x: Symbol) -> (res: PtrValue)
    ensures
        *value is Symbol ==> *res == Value::Symbol(x, None),
        !(*value is Symbol) ==> res == value,
{
    match &*value {
        Value::Symbol(_, _) => Arc::new(Value::Symbol(x, None)),
        _ => value,
    }
}

/// A symbol value holding what `f` makes of what `value` holds, if `value`
/// is a symbol; `value` otherwise.
pub fn modify_symbol<F: Fn(Symbol) -> Symbol>(value: PtrValue, f: F) -> (res: PtrValue)
    requires
        forall|a: Symbol| #[trigger] f.requires((a,)),
    ensures
        match *value {
            Value::Symbol(x, _) => *res matches Value::Symbol(y, None) && f.ensures((x,), y),
            _ => res == value,
        },
{
    match &*value {
        Value::Symbol(x, _) => {
            let c = x.clone();
            let ghost gc = c;
            let y = f(c);
            assert(f.ensures((gc,), y));
            Arc::new(Value::Symbol(y, None))
        },
        _ => value,
    }
}

/// `Ok` of what [`modify_symbol`] makes if `value` is a symbol, `Err` of
/// `value` otherwise.
pub fn try_modify_symbol<F: Fn(Symbol) -> Symbol>(value: PtrValue, f: F) -> (res: Result<PtrValue, PtrValue>)
    requires
        forall|a: Symbol| #[trigger] f.requires((a,)),
    ensures
        match *value {
            Value::Symbol(x, _) => res matches Ok(v) && *v matches Value::Symbol(y, None)
                && f.ensures((x,), y),
            _ => res == Err::<PtrValue, PtrValue>(value),
        },
{
    match &*value {
        Value::Symbol(x, _) => {
            let c = x.clone();
            let ghost gc = c;
            let y = f(c);
            assert(f.ensures((gc,), y));
            Ok(Arc::new(Value::Symbol(y, None)))
        },
        _ => Err(value),
    }
}

impl ValueFocus for Symbol {
    open spec fn previews(v: Value, r: Option<Symbol>) -> bool {
        match v {
            Value::Symbol(x, _) => r == Some(x),
            _ => r is None,
        }
    }

    open spec fn reviews(a: Symbol, v: Value) -> bool {
        v == Value::Symbol(a, None)
    }

    fn preview_of(value: &Value) -> (res: Option<Symbol>) {
        preview_symbol(value)
    }

    fn review_of(a: Symbol) -> (res: PtrValue) {
        review_symbol(a)
    }

    open spec fn same_focus(a: Symbol, b: Symbol) -> bool {
        a == b
    }

    proof fn lemma_review_then_preview(a: Symbol, v: PtrValue) {
        assert(Self::previews(*v, Some(a)) && Self::same_focus(a, a));
    }
}

/// The prism on symbol values: it reads what a symbol value holds, makes
/// a symbol value without metadata, and may be used on any value.
pub fn prism_symbol() -> (res: ValuePrism<Symbol>)
    ensures
        forall|s: &Value| #[trigger] res.preview_requires(s),
        forall|s: &Value, p: Option<Symbol>| #[trigger] res.preview_ensures(s, p) <==> (
            match *s {
                Value::Symbol(x, _) => p == Some(x),
                _ => p is None,
            }),
        forall|a: &Symbol| #[trigger] res.review_requires(a),
        forall|a: &Symbol, v: PtrValue| #[trigger] res.review_ensures(a, v) <==> *v == Value::Symbol(*a, None),
        forall|s: &Value| #[trigger] res.modify_requires(s),
        forall|s: &Value| #[trigger] res.set_requires(s),
        forall|s: &Value| #[trigger] res.try_modify_requires(s),
{
    ValuePrism::new()
}

/// What `value` holds, if it is a keyword.
pub fn preview_keyword(value: &Value) -> (res: Option<Keyword>)
    ensures
        match (res, *value) {
            (Some(r), Value::Keyword(x, _)) => r == x,
            (None, Value::Keyword(_, _)) => false,
            (Some(_), _) => false,
            (None, _) => true,
        },
{
    match value {
        Value::Keyword(x, _) => Some(x.clone()),
        _ => None,
    }
}

/// What `value` holds, by reference, if it is a keyword.
pub fn preview_keyword_ref(value: &Value) -> (res: Option<&Keyword>)
    ensures
        match *value {
            Value::Keyword(x, _) => res == Some(&x),
            _ => res is None,
        },
{
    match value {
        Value::Keyword(x, _) => Some(x),
        _ => None,
    }
}

/// A keyword value holding `x`, without metadata.
pub fn review_keyword(x: Keyword) -> (res: PtrValue)
    ensures
        *res == Value::Keyword(x, None),
{
    Arc::new(Value::Keyword(x, None))
}

/// A keyword value holding `x` if `value` is a keyword, `value` otherwise.
pub fn set_keyword(value: PtrValue, x: Keyword) -> (res: PtrValue)
    ensures
        *value is Keyword ==> *res == Value::Keyword(x, None),
        !(*value is Keyword) ==> res == value,
{
    match &*value {
        Value::Keyword(_, _) => Arc::new(Value::Keyword(x, None)),
        _ => value,
    }
}

/// A keyword value holding what `f` makes of what `value` holds, if `value`
/// is a keyword; `value` otherwise.
pub fn modify_keyword<F: Fn(Keyword) -> Keyword>(value: PtrValue, f: F) -> (res: PtrValue)
    requires
        forall|a: Keyword| #[trigger] f.requires((a,)),
    ensures
        match *value {
            Value::Keyword(x, _) => *res matches Value::Keyword(y, None) && f.ensures((x,), y),
            _ => res == value,
        },
{
    match &*value {
        Value::Keyword(x, _) => {
            let c = x.clone();
            let ghost gc = c;
            let y = f(c);
            assert(f.ensures((gc,), y));
            Arc::new(Value::Keyword(y, None))
        },
        _ => value,
    }
}

/// `Ok` of what [`modify_keyword`] makes if `value` is a keyword, `Err` of
/// `value` otherwise.
pub fn try_modify_keyword<F: Fn(Keyword) -> Keyword>(value: PtrValue, f: F) -> (res: Result<PtrValue, PtrValue>)
    requires
        forall|a: Keyword| #[trigger] f.requires((a,)),
    ensures
        match *value {
            Value::Keyword(x, _) => res matches Ok(v) && *v matches Value::Keyword(y, None)
                && f.ensures((x,), y),
            _ => res == Err::<PtrValue, PtrValue>(value),
        },
{
    match &*value {
        Value::Keyword(x, _) => {
            let c = x.clone();
            let ghost gc = c;
            let y = f(c);
            assert(f.ensures((gc,), y));
            Ok(Arc::new(Value::Keyword(y, None)))
        },
        _ => Err(value),
    }
}

impl ValueFocus for Keyword {
    open spec fn previews(v: Value, r: Option<Keyword>) -> bool {
        match v {
            Value::Keyword(x, _) => r == Some(x),
            _ => r is None,
        }
    }

    open spec fn reviews(a: Keyword, v: Value) -> bool {
        v == Value::Keyword(a, None)
    }

    fn preview_of(value: &Value) -> (res: Option<Keyword>) {
        preview_keyword(value)
    }

    fn review_of(a: Keyword) -> (res: PtrValue) {
        review_keyword(a)
    }

    open spec fn same_focus(a: Keyword, b: Keyword) -> bool {
        a == b
    }

    proof fn lemma_review_then_preview(a: Keyword, v: PtrValue) {
        assert(Self::previews(*v, Some(a)) && Self::same_focus(a, a));
    }
}

/// The prism on keyword values: it reads what a keyword value holds, makes
/// a keyword value without metadata, and may be used on any value.
pub fn prism_keyword() -> (res: ValuePrism<Keyword>)
    ensures
        forall|s: &Value| #[trigger] res.preview_requires(s),
        forall|s: &Value, p: Option<Keyword>| #[trigger] res.preview_ensures(s, p) <==> (
            match *s {
                Value::Keyword(x, _) => p == Some(x),
                _ => p is None,
            }),
        forall|a: &Keyword| #[trigger] res.review_requires(a),
        forall|a: &Keyword, v: PtrValue| #[trigger] res.review_ensures(a, v) <==> *v == Value::Keyword(*a, None),
        forall|s: &Value| #[trigger] res.modify_requires(s),
        forall|s: &Value| #[trigger] res.set_requires(s),
        forall|s: &Value| #[trigger] res.try_modify_requires(s),
{
    ValuePrism::new()
}

/// What `value` holds, if it is a list.
pub fn preview_list(value: &Value) -> (res: Option<List>)
    ensures
        match (res, *value) {
            (Some(r), Value::List(x, _)) => r@ == x@,
            (None, Value::List(_, _)) => false,
            (Some(_), _) => false,
            (None, _) => true,
        },
{
    match value {
        Value::List(x, _) => Some(x.clone_exact()),
        _ => None,
    }
}

/// What `value` holds, by reference, if it is a list.
pub fn preview_list_ref(value: &Value) -> (res: Option<&List>)
    ensures
        match *value {
            Value::List(x, _) => res == Some(&x),
            _ => res is None,
        },
{
    match value {
        Value::List(x, _) => Some(x),
        _ => None,
    }
}

/// A list value holding `x`, without metadata.
pub fn review_list(x: List) -> (res: PtrValue)
    ensures
        *res == Value::List(x, None),
{
    Arc::new(Value::List(x, None))
}

/// A list value holding `x` if `value` is a list, `value` otherwise.
pub fn set_list(value: PtrValue, x: List) -> (res: PtrValue)
    ensures
        *value is List ==> *res == Value::List(x, None),
        !(*value is List) ==> res == value,
{
    match &*value {
        Value::List(_, _) => Arc::new(Value::List(x, None)),
        _ => value,
    }
}

/// A list value holding what `f` makes of what `value` holds, if `value`
/// is a list; `value` otherwise.
pub fn modify_list<F: Fn(List) -> List>(value: PtrValue, f: F) -> (res: PtrValue)
    requires
        forall|a: List| #[trigger] f.requires((a,)),
    ensures
        match *value {
            Value::List(x, _) => *res matches Value::List(y, None) && modified_by(f, x, y),
            _ => res == value,
        },
{
    match &*value {
        Value::List(x, _) => {
            let c = x.clone_exact();
            let ghost gc = c;
            let y = f(c);
            assert(modified_by(f, *x, y)) by { assert(gc@ == x@); assert(f.ensures((gc,), y)); }
            Arc::new(Value::List(y, None))
        },
        _ => value,
    }
}

/// `Ok` of what [`modify_list`] makes if `value` is a list, `Err` of
/// `value` otherwise.
pub fn try_modify_list<F: Fn(List) -> List>(value: PtrValue, f: F) -> (res: Result<PtrValue, PtrValue>)
    requires
        forall|a: List| #[trigger] f.requires((a,)),
    ensures
        match *value {
            Value::List(x, _) => res matches Ok(v) && *v matches Value::List(y, None)
                && modified_by(f, x, y),
            _ => res == Err::<PtrValue, PtrValue>(value),
        },
{
    match &*value {
        Value::List(x, _) => {
            let c = x.clone_exact();
            let ghost gc = c;
            let y = f(c);
            assert(modified_by(f, *x, y)) by { assert(gc@ == x@); assert(f.ensures((gc,), y)); }
            Ok(Arc::new(Value::List(y, None)))
        },
        _ => Err(value),
    }
}

impl ValueFocus for List {
    open spec fn previews(v: Value, r: Option<List>) -> bool {
        match v {
            Value::List(x, _) => (r matches Some(y) && y@ == x@),
            _ => r is None,
        }
    }

    open spec fn reviews(a: List, v: Value) -> bool {
        v == Value::List(a, None)
    }

    fn preview_of(value: &Value) -> (res: Option<List>) {
        preview_list(value)
    }

    fn review_of(a: List) -> (res: PtrValue) {
        review_list(a)
    }

    open spec fn same_focus(a: List, b: List) -> bool {
        a@ == b@
    }

    proof fn lemma_review_then_preview(a: List, v: PtrValue) {
        assert(Self::previews(*v, Some(a)) && Self::same_focus(a, a));
    }
}

/// The prism on list values: it reads what a list value holds, makes
/// a list value without metadata, and may be used on any value.
pub fn prism_list() -> (res: ValuePrism<List>)
    ensures
        forall|s: &Value| #[trigger] res.preview_requires(s),
        forall|s: &Value, p: Option<List>| #[trigger] res.preview_ensures(s, p) <==> (
            match *s {
                Value::List(x, _) => (p matches Some(y) && y@ == x@),
                _ => p is None,
            }),
        forall|a: &List| #[trigger] res.review_requires(a),
        forall|a: &List, v: PtrValue| #[trigger] res.review_ensures(a, v) <==> *v == Value::List(*a, None),
        forall|s: &Value| #[trigger] res.modify_requires(s),
        forall|s: &Value| #[trigger] res.set_requires(s),
        forall|s: &Value| #[trigger] res.try_modify_requires(s),
{
    ValuePrism::new()
}

/// What `value` holds, if it is a vector.
pub fn preview_vector(value: &Value) -> (res: Option<Vector>)
    ensures
        match (res, *value) {
            (Some(r), Value::Vector(x, _)) => r@ == x@,
            (None, Value::Vector(_, _)) => false,
            (Some(_), _) => false,
            (None, _) => true,
        },
{
    match value {
        Value::Vector(x, _) => Some(x.clone_exact()),
        _ => None,
    }
}

/// What `value` holds, by reference, if it is a vector.
pub fn preview_vector_ref(value: &Value) -> (res: Option<&Vector>)
    ensures
        match *value {
            Value::Vector(x, _) => res == Some(&x),
            _ => res is None,
        },
{
    match value {
        Value::Vector(x, _) => Some(x),
        _ => None,
    }
}

/// A vector value holding `x`, without metadata.
pub fn review_vector(x: Vector) -> (res: PtrValue)
    ensures
        *res == Value::Vector(x, None),
{
    Arc::new(Value::Vector(x, None))
}

/// A vector value holding `x` if `value` is a vector, `value` otherwise.
pub fn set_vector(value: PtrValue, x: Vector) -> (res: PtrValue)
    ensures
        *value is Vector ==> *res == Value::Vector(x, None),
        !(*value is Vector) ==> res == value,
{
    match &*value {
        Value::Vector(_, _) => Arc::new(Value::Vector(x, None)),
        _ => value,
    }
}

/// A vector value holding what `f` makes of what `value` holds, if `value`
/// is a vector; `value` otherwise.
pub fn modify_vector<F: Fn(Vector) -> Vector>(value: PtrValue, f: F) -> (res: PtrValue)
    requires
        forall|a: Vector| #[trigger] f.requires((a,)),
    ensures
        match *value {
            Value::Vector(x, _) => *res matches Value::Vector(y, None) && modified_by(f, x, y),
            _ => res == value,
        },
{
    match &*value {
        Value::Vector(x, _) => {
            let c = x.clone_exact();
            let ghost gc = c;
            let y = f(c);
            assert(modified_by(f, *x, y)) by { assert(gc@ == x@); assert(f.ensures((gc,), y)); }
            Arc::new(Value::Vector(y, None))
        },
        _ => value,
    }
}

/// `Ok` of what [`modify_vector`] makes if `value` is a vector, `Err` of
/// `value` otherwise.
pub fn try_modify_vector<F: Fn(Vector) -> Vector>(value: PtrValue, f: F) -> (res: Result<PtrValue, PtrValue>)
    requires
        forall|a: Vector| #[trigger] f.requires((a,)),
    ensures
        match *value {
            Value::Vector(x, _) => res matches Ok(v) && *v matches Value::Vector(y, None)
                && modified_by(f, x, y),
            _ => res == Err::<PtrValue, PtrValue>(value),
        },
{
    match &*value {
        Value::Vector(x, _) => {
            let c = x.clone_exact();
            let ghost gc = c;
            let y = f(c);
            assert(modified_by(f, *x, y)) by { assert(gc@ == x@); assert(f.ensures((gc,), y)); }
            Ok(Arc::new(Value::Vector(y, None)))
        },
        _ => Err(value),
    }
}

impl ValueFocus for Vector {
    open spec fn previews(v: Value, r: Option<Vector>) -> bool {
        match v {
            Value::Vector(x, _) => (r matches Some(y) && y@ == x@),
            _ => r is None,
        }
    }

    open spec fn reviews(a: Vector, v: Value) -> bool {
        v == Value::Vector(a, None)
    }

    fn preview_of(value: &Value) -> (res: Option<Vector>) {
        preview_vector(value)
    }

    fn review_of(a: Vector) -> (res: PtrValue) {
        review_vector(a)
    }

    open spec fn same_focus(a: Vector, b: Vector) -> bool {
        a@ == b@
    }

    proof fn lemma_review_then_preview(a: Vector, v: PtrValue) {
        assert(Self::previews(*v, Some(a)) && Self::same_focus(a, a));
    }
}

/// The prism on vector values: it reads what a vector value holds, makes
/// a vector value without metadata, and may be used on any value.
pub fn prism_vector() -> (res: ValuePrism<Vector>)
    ensures
        forall|s: &Value| #[trigger] res.preview_requires(s),
        forall|s: &Value, p: Option<Vector>| #[trigger] res.preview_ensures(s, p) <==> (
            match *s {
                Value::Vector(x, _) => (p matches Some(y) && y@ == x@),
                _ => p is None,
            }),
        forall|a: &Vector| #[trigger] res.review_requires(a),
        forall|a: &Vector, v: PtrValue| #[trigger] res.review_ensures(a, v) <==> *v == Value::Vector(*a, None),
        forall|s: &Value| #[trigger] res.modify_requires(s),
        forall|s: &Value| #[trigger] res.set_requires(s),
        forall|s: &Value| #[trigger] res.try_modify_requires(s),
{
    ValuePrism::new()
}

/// What `value` holds, if it is a set.
pub fn preview_set(value: &Value) -> (res: Option<ValueSet>)
    ensures
        match (res, *value) {
            (Some(r), Value::ValueSet(x, _)) => r@ == x@,
            (None, Value::ValueSet(_, _)) => false,
            (Some(_), _) => false,
            (None, _) => true,
        },
{
    match value {
        Value::ValueSet(x, _) => Some(x.clone_exact()),
        _ => None,
    }
}

/// What `value` holds, by reference, if it is a set.
pub fn preview_set_ref(value: &Value) -> (res: Option<&ValueSet>)
    ensures
        match *value {
            Value::ValueSet(x, _) => res == Some(&x),
            _ => res is None,
        },
{
    match value {
        Value::ValueSet(x, _) => Some(x),
        _ => None,
    }
}

/// A set value holding `x`, without metadata.
pub fn review_set(x: ValueSet) -> (res: PtrValue)
    ensures
        *res == Value::ValueSet(x, None),
{
    Arc::new(Value::ValueSet(x, None))
}

/// A set value holding `x` if `value` is a set, `value` otherwise.
pub fn set_set(value: PtrValue, x: ValueSet) -> (res: PtrValue)
    ensures
        *value is ValueSet ==> *res == Value::ValueSet(x, None),
        !(*value is ValueSet) ==> res == value,
{
    match &*value {
        Value::ValueSet(_, _) => Arc::new(Value::ValueSet(x, None)),
        _ => value,
    }
}

/// A set value holding what `f` makes of what `value` holds, if `value`
/// is a set; `value` otherwise.
pub fn modify_set<F: Fn(ValueSet) -> ValueSet>(value: PtrValue, f: F) -> (res: PtrValue)
    requires
        forall|a: ValueSet| #[trigger] f.requires((a,)),
    ensures
        match *value {
            Value::ValueSet(x, _) => *res matches Value::ValueSet(y, None) && modified_by(f, x, y),
            _ => res == value,
        },
{
    match &*value {
        Value::ValueSet(x, _) => {
            let c = x.clone_exact();
            let ghost gc = c;
            let y = f(c);
            assert(modified_by(f, *x, y)) by { assert(gc@ == x@); assert(f.ensures((gc,), y)); }
            Arc::new(Value::ValueSet(y, None))
        },
        _ => value,
    }
}

/// `Ok` of what [`modify_set`] makes if `value` is a set, `Err` of
/// `value` otherwise.
pub fn try_modify_set<F: Fn(ValueSet) -> ValueSet>(value: PtrValue, f: F) -> (res: Result<PtrValue, PtrValue>)
    requires
        forall|a: ValueSet| #[trigger] f.requires((a,)),
    ensures
        match *value {
            Value::ValueSet(x, _) => res matches Ok(v) && *v matches Value::ValueSet(y, None)
                && modified_by(f, x, y),
            _ => res == Err::<PtrValue, PtrValue>(value),
        },
{
    match &*value {
        Value::ValueSet(x, _) => {
            let c = x.clone_exact();
            let ghost gc = c;
            let y = f(c);
            assert(modified_by(f, *x, y)) by { assert(gc@ == x@); assert(f.ensures((gc,), y)); }
            Ok(Arc::new(Value::ValueSet(y, None)))
        },
        _ => Err(value),
    }
}

impl ValueFocus for ValueSet {
    open spec fn previews(v: Value, r: Option<ValueSet>) -> bool {
        match v {
            Value::ValueSet(x, _) => (r matches Some(y) && y@ == x@),
            _ => r is None,
        }
    }

    open spec fn reviews(a: ValueSet, v: Value) -> bool {
        v == Value::ValueSet(a, None)
    }

    fn preview_of(value: &Value) -> (res: Option<ValueSet>) {
        preview_set(value)
    }

    fn review_of(a: ValueSet) -> (res: PtrValue) {
        review_set(a)
    }

    open spec fn same_focus(a: ValueSet, b: ValueSet) -> bool {
        a@ == b@
    }

    proof fn lemma_review_then_preview(a: ValueSet, v: PtrValue) {
        assert(Self::previews(*v, Some(a)) && Self::same_focus(a, a));
    }
}

/// The prism on set values: it reads what a set value holds, makes
/// a set value without metadata, and may be used on any value.
pub fn prism_set() -> (res: ValuePrism<ValueSet>)
    ensures
        forall|s: &Value| #[trigger] res.preview_requires(s),
        forall|s: &Value, p: Option<ValueSet>| #[trigger] res.preview_ensures(s, p) <==> (
            match *s {
                Value::ValueSet(x, _) => (p matches Some(y) && y@ == x@),
                _ => p is None,
            }),
        forall|a: &ValueSet| #[trigger] res.review_requires(a),
        forall|a: &ValueSet, v: PtrValue| #[trigger] res.review_ensures(a, v) <==> *v == Value::ValueSet(*a, None),
        forall|s: &Value| #[trigger] res.modify_requires(s),
        forall|s: &Value| #[trigger] res.set_requires(s),
        forall|s: &Value| #[trigger] res.try_modify_requires(s),
{
    ValuePrism::new()
}

/// What `value` holds, if it is a map.
pub fn preview_map(value: &Value) -> (res: Option<ValueMap>)
    ensures
        match (res, *value) {
            (Some(r), Value::ValueMap(x, _)) => r@ == x@,
            (None, Value::ValueMap(_, _)) => false,
            (Some(_), _) => false,
            (None, _) => true,
        },
{
    match value {
        Value::ValueMap(x, _) => Some(x.clone_exact()),
        _ => None,
    }
}

/// What `value` holds, by reference, if it is a map.
pub fn preview_map_ref(value: &Value) -> (res: Option<&ValueMap>)
    ensures
        match *value {
            Value::ValueMap(x, _) => res == Some(&x),
            _ => res is None,
        },
{
    match value {
        Value::ValueMap(x, _) => Some(x),
        _ => None,
    }
}

/// A map value holding `x`, without metadata.
pub fn review_map(x: ValueMap) -> (res: PtrValue)
    ensures
        *res == Value::ValueMap(x, None),
{
    Arc::new(Value::ValueMap(x, None))
}

/// A map value holding `x` if `value` is a map, `value` otherwise.
pub fn set_map(value: PtrValue, x: ValueMap) -> (res: PtrValue)
    ensures
        *value is ValueMap ==> *res == Value::ValueMap(x, None),
        !(*value is ValueMap) ==> res == value,
{
    match &*value {
        Value::ValueMap(_, _) => Arc::new(Value::ValueMap(x, None)),
        _ => value,
    }
}

/// A map value holding what `f` makes of what `value` holds, if `value`
/// is a map; `value` otherwise.
pub fn modify_map<F: Fn(ValueMap) -> ValueMap>(value: PtrValue, f: F) -> (res: PtrValue)
    requires
        forall|a: ValueMap| #[trigger] f.requires((a,)),
    ensures
        match *value {
            Value::ValueMap(x, _) => *res matches Value::ValueMap(y, None) && modified_by(f, x, y),
            _ => res == value,
        },
{
    match &*value {
        Value::ValueMap(x, _) => {
            let c = x.clone_exact();
            let ghost gc = c;
            let y = f(c);
            assert(modified_by(f, *x, y)) by { assert(gc@ == x@); assert(f.ensures((gc,), y)); }
            Arc::new(Value::ValueMap(y, None))
        },
        _ => value,
    }
}

/// `Ok` of what [`modify_map`] makes if `value` is a map, `Err` of
/// `value` otherwise.
pub fn try_modify_map<F: Fn(ValueMap) -> ValueMap>(value: PtrValue, f: F) -> (res: Result<PtrValue, PtrValue>)
    requires
        forall|a: ValueMap| #[trigger] f.requires((a,)),
    ensures
        match *value {
            Value::ValueMap(x, _) => res matches Ok(v) && *v matches Value::ValueMap(y, None)
                && modified_by(f, x, y),
            _ => res == Err::<PtrValue, PtrValue>(value),
        },
{
    match &*value {
        Value::ValueMap(x, _) => {
            let c = x.clone_exact();
            let ghost gc = c;
            let y = f(c);
            assert(modified_by(f, *x, y)) by { assert(gc@ == x@); assert(f.ensures((gc,), y)); }
            Ok(Arc::new(Value::ValueMap(y, None)))
        },
        _ => Err(value),
    }
}

impl ValueFocus for ValueMap {
    open spec fn previews(v: Value, r: Option<ValueMap>) -> bool {
        match v {
            Value::ValueMap(x, _) => (r matches Some(y) && y@ == x@),
            _ => r is None,
        }
    }

    open spec fn reviews(a: ValueMap, v: Value) -> bool {
        v == Value::ValueMap(a, None)
    }

    fn preview_of(value: &Value) -> (res: Option<ValueMap>) {
        preview_map(value)
    }

    fn review_of(a: ValueMap) -> (res: PtrValue) {
        review_map(a)
    }

    open spec fn same_focus(a: ValueMap, b: ValueMap) -> bool {
        a@ == b@
    }

    proof fn lemma_review_then_preview(a: ValueMap, v: PtrValue) {
        assert(Self::previews(*v, Some(a)) && Self::same_focus(a, a));
    }
}

/// The prism on map values: it reads what a map value holds, makes
/// a map value without metadata, and may be used on any value.
pub fn prism_map() -> (res: ValuePrism<ValueMap>)
    ensures
        forall|s: &Value| #[trigger] res.preview_requires(s),
        forall|s: &Value, p: Option<ValueMap>| #[trigger] res.preview_ensures(s, p) <==> (
            match *s {
                Value::ValueMap(x, _) => (p matches Some(y) && y@ == x@),
                _ => p is None,
            }),
        forall|a: &ValueMap| #[trigger] res.review_requires(a),
        forall|a: &ValueMap, v: PtrValue| #[trigger] res.review_ensures(a, v) <==> *v == Value::ValueMap(*a, None),
        forall|s: &Value| #[trigger] res.modify_requires(s),
        forall|s: &Value| #[trigger] res.set_requires(s),
        forall|s: &Value| #[trigger] res.try_modify_requires(s),
{
    ValuePrism::new()
}

/// What `value` holds, if it is a var.
pub fn preview_var(value: &Value) -> (res: Option<PtrVar>)
    ensures
        match (res, *value) {
            (Some(r), Value::Var(x, _)) => r == x,
            (None, Value::Var(_, _)) => false,
            (Some(_), _) => false,
            (None, _) => true,
        },
{
    match value {
        Value::Var(x, _) => Some(x.clone()),
        _ => None,
    }
}

/// What `value` holds, by reference, if it is a var.
pub fn preview_var_ref(value: &Value) -> (res: Option<&PtrVar>)
    ensures
        match *value {
            Value::Var(x, _) => res == Some(&x),
            _ => res is None,
        },
{
    match value {
        Value::Var(x, _) => Some(x),
        _ => None,
    }
}

/// A var value holding `x`, without metadata.
pub fn review_var(x: PtrVar) -> (res: PtrValue)
    ensures
        *res == Value::Var(x, None),
{
    Arc::new(Value::Var(x, None))
}

/// A var value holding `x` if `value` is a var, `value` otherwise.
pub fn set_var(value: PtrValue, x: PtrVar) -> (res: PtrValue)
    ensures
        *value is Var ==> *res == Value::Var(x, None),
        !(*value is Var) ==> res == value,
{
    match &*value {
        Value::Var(_, _) => Arc::new(Value::Var(x, None)),
        _ => value,
    }
}

/// A var value holding what `f` makes of what `value` holds, if `value`
/// is a var; `value` otherwise.
pub fn modify_var<F: Fn(PtrVar) -> PtrVar>(value: PtrValue, f: F) -> (res: PtrValue)
    requires
        forall|a: PtrVar| #[trigger] f.requires((a,)),
    ensures
        match *value {
            Value::Var(x, _) => *res matches Value::Var(y, None) && f.ensures((x,), y),
            _ => res == value,
        },
{
    match &*value {
        Value::Var(x, _) => {
            let c = x.clone();
            let ghost gc = c;
            let y = f(c);
            assert(f.ensures((gc,), y));
            Arc::new(Value::Var(y, None))
        },
        _ => value,
    }
}

/// `Ok` of what [`modify_var`] makes if `value` is a var, `Err` of
/// `value` otherwise.
pub fn try_modify_var<F: Fn(PtrVar) -> PtrVar>(value: PtrValue, f: F) -> (res: Result<PtrValue, PtrValue>)
    requires
        forall|a: PtrVar| #[trigger] f.requires((a,)),
    ensures
        match *value {
            Value::Var(x, _) => res matches Ok(v) && *v matches Value::Var(y, None)
                && f.ensures((x,), y),
            _ => res == Err::<PtrValue, PtrValue>(value),
        },
{
    match &*value {
        Value::Var(x, _) => {
            let c = x.clone();
            let ghost gc = c;
            let y = f(c);
            assert(f.ensures((gc,), y));
            Ok(Arc::new(Value::Var(y, None)))
        },
        _ => Err(value),
    }
}

impl ValueFocus for PtrVar {
    open spec fn previews(v: Value, r: Option<PtrVar>) -> bool {
        match v {
            Value::Var(x, _) => r == Some(x),
            _ => r is None,
        }
    }

    open spec fn reviews(a: PtrVar, v: Value) -> bool {
        v == Value::Var(a, None)
    }

    fn preview_of(value: &Value) -> (res: Option<PtrVar>) {
        preview_var(value)
    }

    fn review_of(a: PtrVar) -> (res: PtrValue) {
        review_var(a)
    }

    open spec fn same_focus(a: PtrVar, b: PtrVar) -> bool {
        a == b
    }

    proof fn lemma_review_then_preview(a: PtrVar, v: PtrValue) {
        assert(Self::previews(*v, Some(a)) && Self::same_focus(a, a));
    }
}

/// The prism on var values: it reads what a var value holds, makes
/// a var value without metadata, and may be used on any value.
pub fn prism_var() -> (res: ValuePrism<PtrVar>)
    ensures
        forall|s: &Value| #[trigger] res.preview_requires(s),
        forall|s: &Value, p: Option<PtrVar>| #[trigger] res.preview_ensures(s, p) <==> (
            match *s {
                Value::Var(x, _) => p == Some(x),
                _ => p is None,
            }),
        forall|a: &PtrVar| #[trigger] res.review_requires(a),
        forall|a: &PtrVar, v: PtrValue| #[trigger] res.review_ensures(a, v) <==> *v == Value::Var(*a, None),
        forall|s: &Value| #[trigger] res.modify_requires(s),
        forall|s: &Value| #[trigger] res.set_requires(s),
        forall|s: &Value| #[trigger] res.try_modify_requires(s),
{
    ValuePrism::new()
}

/// What `value` holds, if it is a function.
pub fn preview_function(value: &Value) -> (res: Option<PtrFunction>)
    ensures
        match (res, *value) {
            (Some(r), Value::Function(x, _)) => r == x,
            (None, Value::Function(_, _)) => false,
            (Some(_), _) => false,
            (None, _) => true,
        },
{
    match value {
        Value::Function(x, _) => Some(x.clone()),
        _ => None,
    }
}

/// What `value` holds, by reference, if it is a function.
pub fn preview_function_ref(value: &Value) -> (res: Option<&PtrFunction>)
    ensures
        match *value {
            Value::Function(x, _) => res == Some(&x),
            _ => res is None,
        },
{
    match value {
        Value::Function(x, _) => Some(x),
        _ => None,
    }
}

/// A function value holding `x`, without metadata.
pub fn review_function(x: PtrFunction) -> (res: PtrValue)
    ensures
        *res == Value::Function(x, None),
{
    Arc::new(Value::Function(x, None))
}

/// A function value holding `x` if `value` is a function, `value` otherwise.
pub fn set_function(value: PtrValue, x: PtrFunction) -> (res: PtrValue)
    ensures
        *value is Function ==> *res == Value::Function(x, None),
        !(*value is Function) ==> res == value,
{
    match &*value {
        Value::Function(_, _) => Arc::new(Value::Function(x, None)),
        _ => value,
    }
}

/// A function value holding what `f` makes of what `value` holds, if `value`
/// is a function; `value` otherwise.
pub fn modify_function<F: Fn(PtrFunction) -> PtrFunction>(value: PtrValue, f: F) -> (res: PtrValue)
    requires
        forall|a: PtrFunction| #[trigger] f.requires((a,)),
    ensures
        match *value {
            Value::Function(x, _) => *res matches Value::Function(y, None) && f.ensures((x,), y),
            _ => res == value,
        },
{
    match &*value {
        Value::Function(x, _) => {
            let c = x.clone();
            let ghost gc = c;
            let y = f(c);
            assert(f.ensures((gc,), y));
            Arc::new(Value::Function(y, None))
        },
        _ => value,
    }
}

/// `Ok` of what [`modify_function`] makes if `value` is a function, `Err` of
/// `value` otherwise.
pub fn try_modify_function<F: Fn(PtrFunction) -> PtrFunction>(value: PtrValue, f: F) -> (res: Result<PtrValue, PtrValue>)
    requires
        forall|a: PtrFunction| #[trigger] f.requires((a,)),
    ensures
        match *value {
            Value::Function(x, _) => res matches Ok(v) && *v matches Value::Function(y, None)
                && f.ensures((x,), y),
            _ => res == Err::<PtrValue, PtrValue>(value),
        },
{
    match &*value {
        Value::Function(x, _) => {
            let c = x.clone();
            let ghost gc = c;
            let y = f(c);
            assert(f.ensures((gc,), y));
            Ok(Arc::new(Value::Function(y, None)))
        },
        _ => Err(value),
    }
}

impl ValueFocus for PtrFunction {
    open spec fn previews(v: Value, r: Option<PtrFunction>) -> bool {
        match v {
            Value::Function(x, _) => r == Some(x),
            _ => r is None,
        }
    }

    open spec fn reviews(a: PtrFunction, v: Value) -> bool {
        v == Value::Function(a, None)
    }

    fn preview_of(value: &Value) -> (res: Option<PtrFunction>) {
        preview_function(value)
    }

    fn review_of(a: PtrFunction) -> (res: PtrValue) {
        review_function(a)
    }

    open spec fn same_focus(a: PtrFunction, b: PtrFunction) -> bool {
        a == b
    }

    proof fn lemma_review_then_preview(a: PtrFunction, v: PtrValue) {
        assert(Self::previews(*v, Some(a)) && Self::same_focus(a, a));
    }
}

/// The prism on function values: it reads what a function value holds, makes
/// a function value without metadata, and may be used on any value.
pub fn prism_function() -> (res: ValuePrism<PtrFunction>)
    ensures
        forall|s: &Value| #[trigger] res.preview_requires(s),
        forall|s: &Value, p: Option<PtrFunction>| #[trigger] res.preview_ensures(s, p) <==> (
            match *s {
                Value::Function(x, _) => p == Some(x),
                _ => p is None,
            }),
        forall|a: &PtrFunction| #[trigger] res.review_requires(a),
        forall|a: &PtrFunction, v: PtrValue| #[trigger] res.review_ensures(a, v) <==> *v == Value::Function(*a, None),
        forall|s: &Value| #[trigger] res.modify_requires(s),
        forall|s: &Value| #[trigger] res.set_requires(s),
        forall|s: &Value| #[trigger] res.try_modify_requires(s),
{
    ValuePrism::new()
}

/// What `value` holds, if it is a handle.
pub fn preview_handle(value: &Value) -> (res: Option<Handle>)
    ensures
        match (res, *value) {
            (Some(r), Value::Handle(x, _)) => r == x,
            (None, Value::Handle(_, _)) => false,
            (Some(_), _) => false,
            (None, _) => true,
        },
{
    match value {
        Value::Handle(x, _) => Some(x.clone()),
        _ => None,
    }
}

/// What `value` holds, by reference, if it is a handle.
pub fn preview_handle_ref(value: &Value) -> (res: Option<&Handle>)
    ensures
        match *value {
            Value::Handle(x, _) => res == Some(&x),
            _ => res is None,
        },
{
    match value {
        Value::Handle(x, _) => Some(x),
        _ => None,
    }
}

/// A handle value holding `x`, without metadata.
pub fn review_handle(x: Handle) -> (res: PtrValue)
    ensures
        *res == Value::Handle(x, None),
{
    Arc::new(Value::Handle(x, None))
}

/// A handle value holding `x` if `value` is a handle, `value` otherwise.
pub fn set_handle(value: PtrValue, x: Handle) -> (res: PtrValue)
    ensures
        *value is Handle ==> *res == Value::Handle(x, None),
        !(*value is Handle) ==> res == value,
{
    match &*value {
        Value::Handle(_, _) => Arc::new(Value::Handle(x, None)),
        _ => value,
    }
}

/// A handle value holding what `f` makes of what `value` holds, if `value`
/// is a handle; `value` otherwise.
pub fn modify_handle<F: Fn(Handle) -> Handle>(value: PtrValue, f: F) -> (res: PtrValue)
    requires
        forall|a: Handle| #[trigger] f.requires((a,)),
    ensures
        match *value {
            Value::Handle(x, _) => *res matches Value::Handle(y, None) && f.ensures((x,), y),
            _ => res == value,
        },
{
    match &*value {
        Value::Handle(x, _) => {
            let c = x.clone();
            let ghost gc = c;
            let y = f(c);
            assert(f.ensures((gc,), y));
            Arc::new(Value::Handle(y, None))
        },
        _ => value,
    }
}

/// `Ok` of what [`modify_handle`] makes if `value` is a handle, `Err` of
/// `value` otherwise.
pub fn try_modify_handle<F: Fn(Handle) -> Handle>(value: PtrValue, f: F) -> (res: Result<PtrValue, PtrValue>)
    requires
        forall|a: Handle| #[trigger] f.requires((a,)),
    ensures
        match *value {
            Value::Handle(x, _) => res matches Ok(v) && *v matches Value::Handle(y, None)
                && f.ensures((x,), y),
            _ => res == Err::<PtrValue, PtrValue>(value),
        },
{
    match &*value {
        Value::Handle(x, _) => {
            let c = x.clone();
            let ghost gc = c;
            let y = f(c);
            assert(f.ensures((gc,), y));
            Ok(Arc::new(Value::Handle(y, None)))
        },
        _ => Err(value),
    }
}

impl ValueFocus for Handle {
    open spec fn previews(v: Value, r: Option<Handle>) -> bool {
        match v {
            Value::Handle(x, _) => r == Some(x),
            _ => r is None,
        }
    }

    open spec fn reviews(a: Handle, v: Value) -> bool {
        v == Value::Handle(a, None)
    }

    fn preview_of(value: &Value) -> (res: Option<Handle>) {
        preview_handle(value)
    }

    fn review_of(a: Handle) -> (res: PtrValue) {
        review_handle(a)
    }

    open spec fn same_focus(a: Handle, b: Handle) -> bool {
        a == b
    }

    proof fn lemma_review_then_preview(a: Handle, v: PtrValue) {
        assert(Self::previews(*v, Some(a)) && Self::same_focus(a, a));
    }
}

/// The prism on handle values: it reads what a handle value holds, makes
/// a handle value without metadata, and may be used on any value.
pub fn prism_handle() -> (res: ValuePrism<Handle>)
    ensures
        forall|s: &Value| #[trigger] res.preview_requires(s),
        forall|s: &Value, p: Option<Handle>| #[trigger] res.preview_ensures(s, p) <==> (
            match *s {
                Value::Handle(x, _) => p == Some(x),
                _ => p is None,
            }),
        forall|a: &Handle| #[trigger] res.review_requires(a),
        forall|a: &Handle, v: PtrValue| #[trigger] res.review_ensures(a, v) <==> *v == Value::Handle(*a, None),
        forall|s: &Value| #[trigger] res.modify_requires(s),
        forall|s: &Value| #[trigger] res.set_requires(s),
        forall|s: &Value| #[trigger] res.try_modify_requires(s),
{
    ValuePrism::new()
}

/// What `value` holds, if it is a bare symbol.
pub fn preview_symbol_unqualified(value: &Value) -> (res: Option<SymbolUnqualified>)
    ensures
        match *value {
            Value::Symbol(Symbol::Unqualified(s), _) => res == Some(s),
            _ => res is None,
        },
{
    match value {
        Value::Symbol(Symbol::Unqualified(s), _) => Some(s.clone()),
        _ => None,
    }
}

/// What `value` holds, if it is a qualified symbol.
pub fn preview_symbol_qualified(value: &Value) -> (res: Option<SymbolQualified>)
    ensures
        match *value {
            Value::Symbol(Symbol::Qualified(s), _) => res == Some(s),
            _ => res is None,
        },
{
    match value {
        Value::Symbol(Symbol::Qualified(s), _) => Some(s.clone()),
        _ => None,
    }
}

/// What `value` holds, if it is a bare keyword.
pub fn preview_keyword_unqualified(value: &Value) -> (res: Option<KeywordUnqualified>)
    ensures
        match *value {
            Value::Keyword(Keyword::Unqualified(k), _) => res == Some(k),
            _ => res is None,
        },
{
    match value {
        Value::Keyword(Keyword::Unqualified(k), _) => Some(k.clone()),
        _ => None,
    }
}

/// What `value` holds, if it is a qualified keyword.
pub fn preview_keyword_qualified(value: &Value) -> (res: Option<KeywordQualified>)
    ensures
        match *value {
            Value::Keyword(Keyword::Qualified(k), _) => res == Some(k),
            _ => res is None,
        },
{
    match value {
        Value::Keyword(Keyword::Qualified(k), _) => Some(k.clone()),
        _ => None,
    }
}

/// The first element of `value`, if it is a list that has one.
pub fn preview_list_first(value: &Value) -> (res: Option<PtrValue>)
    ensures
        match *value {
            Value::List(l, _) => res == elem_at(l@, 0),
            _ => res is None,
        },
{
    match value {
        Value::List(l, _) => l.get_first(),
        _ => None,
    }
}

/// The second element of `value`, if it is a list that has one.
pub fn preview_list_second(value: &Value) -> (res: Option<PtrValue>)
    ensures
        match *value {
            Value::List(l, _) => res == elem_at(l@, 1),
            _ => res is None,
        },
{
    match value {
        Value::List(l, _) => l.get_second(),
        _ => None,
    }
}

/// The last element of `value`, if it is a list that has one.
pub fn preview_list_last(value: &Value) -> (res: Option<PtrValue>)
    ensures
        match *value {
            Value::List(l, _) => res == elem_at(l@, l@.len() - 1),
            _ => res is None,
        },
{
    match value {
        Value::List(l, _) => l.get_last(),
        _ => None,
    }
}

/// The element at index `n` of `value`, if it is a list that has one.
pub fn preview_list_nth(value: &Value, n: usize) -> (res: Option<PtrValue>)
    ensures
        match *value {
            Value::List(l, _) => res == elem_at(l@, n as int),
            _ => res is None,
        },
{
    match value {
        Value::List(l, _) => l.get_nth(n),
        _ => None,
    }
}

/// The first element of `value`, if it is a vector that has one.
pub fn preview_vector_first(value: &Value) -> (res: Option<PtrValue>)
    ensures
        match *value {
            Value::Vector(l, _) => res == elem_at(l@, 0),
            _ => res is None,
        },
{
    match value {
        Value::Vector(l, _) => l.get_first(),
        _ => None,
    }
}

/// The second element of `value`, if it is a vector that has one.
pub fn preview_vector_second(value: &Value) -> (res: Option<PtrValue>)
    ensures
        match *value {
            Value::Vector(l, _) => res == elem_at(l@, 1),
            _ => res is None,
        },
{
    match value {
        Value::Vector(l, _) => l.get_second(),
        _ => None,
    }
}

/// The last element of `value`, if it is a vector that has one.
pub fn preview_vector_last(value: &Value) -> (res: Option<PtrValue>)
    ensures
        match *value {
            Value::Vector(l, _) => res == elem_at(l@, l@.len() - 1),
            _ => res is None,
        },
{
    match value {
        Value::Vector(l, _) => l.get_last(),
        _ => None,
    }
}

/// The element at index `n` of `value`, if it is a vector that has one.
pub fn preview_vector_nth(value: &Value, n: usize) -> (res: Option<PtrValue>)
    ensures
        match *value {
            Value::Vector(l, _) => res == elem_at(l@, n as int),
            _ => res is None,
        },
{
    match value {
        Value::Vector(l, _) => l.get_nth(n),
        _ => None,
    }
}

/// The map `value` holds, by reference, if it is a map.
pub fn view_map(value: &Value) -> (res: Option<&ValueMap>)
    ensures
        match *value {
            Value::ValueMap(x, _) => res == Some(&x),
            _ => res is None,
        },
{
    preview_map_ref(value)
}

/// The metadata of `value`.
pub fn preview_meta(value: &Value) -> (res: Option<Arc<ValueMap>>)
    ensures
        res == spec_meta(*value),
{
    value.meta()
}

/// The metadata of `value`, by reference.
pub fn preview_meta_ref(value: &Value) -> (res: Option<&Arc<ValueMap>>)
    ensures
        match spec_meta(*value) {
            Some(m) => res == Some(&m),
            None => res is None,
        },
{
    let m = match value {
        Value::Nil(m) => m,
        Value::Boolean(_, m) => m,
        Value::Integer(_, m) => m,
        Value::Float(_, m) => m,
        Value::String(_, m) => m,
        Value::Symbol(_, m) => m,
        Value::Keyword(_, m) => m,
        Value::List(_, m) => m,
        Value::Vector(_, m) => m,
        Value::ValueSet(_, m) => m,
        Value::ValueMap(_, m) => m,
        Value::Var(_, m) => m,
        Value::Function(_, m) => m,
        Value::Handle(_, m) => m,
    };
    match m {
        Some(m) => Some(m),
        None => None,
    }
}

/// `value` with its metadata changed by `f`.
pub fn modify_meta<F: Fn(Option<Arc<ValueMap>>) -> Option<Arc<ValueMap>>>(value: PtrValue, f: F) -> (res: PtrValue)
    requires
        forall|m: Option<Arc<ValueMap>>| #[trigger] f.requires((m,)),
    ensures
        crate::value::same_contents(*res, *value),
        f.ensures((spec_meta(*value),), spec_meta(*res)),
{
    let m = f(value.meta());
    Arc::new(value.with_meta(m))
}

/// `value` with its metadata replaced by `meta`.
pub fn set_meta(value: PtrValue, meta: Option<Arc<ValueMap>>) -> (res: PtrValue)
    ensures
        crate::value::same_contents(*res, *value),
        spec_meta(*res) == meta,
{
    Arc::new(value.with_meta(meta))
}

/// `Ok` of the metadata of `value` if it has some, `Err` of `value` otherwise.
pub fn try_get_meta(value: PtrValue) -> (res: Result<Arc<ValueMap>, PtrValue>)
    ensures
        match spec_meta(*value) {
            Some(m) => res == Ok::<Arc<ValueMap>, PtrValue>(m),
            None => res == Err::<Arc<ValueMap>, PtrValue>(value),
        },
{
    match value.meta() {
        Some(m) => Ok(m),
        None => Err(value),
    }
}

} // verus!
