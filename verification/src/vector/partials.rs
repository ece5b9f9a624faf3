//! Element accessors on vectors with the index or the fallback given first:
//! each returns a function from a vector to the element.
use vstd::prelude::*;
use crate::value::{PtrValue, Value, elem_at, elem_or};
use crate::vector::Vector;

verus! {

/// A function that gives the last element of a vector, or `default` where the
/// vector is empty.
pub fn get_last_or(default: PtrValue) -> (res: impl Fn(&Vector) -> PtrValue)
    ensures
        forall|l: &Vector| #[trigger] res.requires((l,)),
        forall|l: &Vector, r: PtrValue| res.ensures((l,), r) ==> r == elem_or(l@, l@.len() - 1, default),
{
    move |vector: &Vector| -> (r: PtrValue)
        ensures
            r == elem_or(vector@, vector@.len() - 1, default),
        { vector.get_last_or(default.clone()) }
}

/// A function that gives the last element of a vector, or what `else_fn`
/// gives for the vector where it is empty.
pub fn get_last_or_else<F: Fn(&Vector) -> PtrValue>(else_fn: F) -> (res: impl Fn(&Vector) -> PtrValue)
    requires
        forall|l: &Vector| #[trigger] else_fn.requires((l,)),
    ensures
        forall|l: &Vector| #[trigger] res.requires((l,)),
        forall|l: &Vector, r: PtrValue| res.ensures((l,), r) ==> {
            &&& 0 < l@.len() ==> r == l@.last()
            &&& l@.len() == 0 ==> else_fn.ensures((l,), r)
        },
{
    move |vector: &Vector| -> (r: PtrValue)
        requires
            forall|l: &Vector| #[trigger] else_fn.requires((l,)),
        ensures
            0 < vector@.len() ==> r == vector@.last(),
            vector@.len() == 0 ==> else_fn.ensures((vector,), r),
        {
            match vector.get_last() {
                Some(v) => v,
                None => else_fn(vector),
            }
        }
}

/// A function that gives the element of a vector at index `n`, if there is one.
pub fn get_nth(n: usize) -> (res: impl Fn(&Vector) -> Option<PtrValue>)
    ensures
        forall|l: &Vector| #[trigger] res.requires((l,)),
        forall|l: &Vector, r: Option<PtrValue>| res.ensures((l,), r) ==> r == elem_at(l@, n as int),
{
    move |vector: &Vector| -> (r: Option<PtrValue>)
        ensures
            r == elem_at(vector@, n as int),
        { vector.get_nth(n) }
}

/// A function that gives the element of a vector at index `n`, by reference,
/// if there is one.
pub fn get_nth_ref(n: usize) -> (res: impl Fn(&Vector) -> Option<&Value>)
    ensures
        forall|l: &Vector| #[trigger] res.requires((l,)),
        forall|l: &Vector, r: Option<&Value>| res.ensures((l,), r) ==> match r {
            Some(v) => n < l@.len() && *v == *l@[n as int],
            None => n >= l@.len(),
        },
{
    move |vector: &Vector| -> (r: Option<&Value>)
        ensures
            match r {
                Some(v) => n < vector@.len() && *v == *vector@[n as int],
                None => n >= vector@.len(),
            },
        { vector.get_nth_ref(n) }
}

/// A function that gives the element of a vector at index `n`, or `default`
/// where there is none.
pub fn get_nth_or(n: usize, default: PtrValue) -> (res: impl Fn(&Vector) -> PtrValue)
    ensures
        forall|l: &Vector| #[trigger] res.requires((l,)),
        forall|l: &Vector, r: PtrValue| res.ensures((l,), r) ==> r == elem_or(l@, n as int, default),
{
    move |vector: &Vector| -> (r: PtrValue)
        ensures
            r == elem_or(vector@, n as int, default),
        { vector.get_nth_or(n, default.clone()) }
}

/// A function that gives the element of a vector at index `n`, or `nil` where
/// there is none.
pub fn get_nth_or_nil(n: usize) -> (res: impl Fn(&Vector) -> PtrValue)
    ensures
        forall|l: &Vector| #[trigger] res.requires((l,)),
        forall|l: &Vector, r: PtrValue| res.ensures((l,), r) ==> {
            &&& n < l@.len() ==> r == l@[n as int]
            &&& n >= l@.len() ==> *r == Value::Nil(None)
        },
{
    move |vector: &Vector| -> (r: PtrValue)
        ensures
            n < vector@.len() ==> r == vector@[n as int],
            n >= vector@.len() ==> *r == Value::Nil(None),
        { vector.get_nth_or_nil(n) }
}

/// A function that gives the element of a vector at index `n`, or what
/// `else_fn` gives for the vector where there is none.
pub fn get_nth_or_else<F: Fn(&Vector) -> PtrValue>(n: usize, else_fn: F) -> (res: impl Fn(&Vector) -> PtrValue)
    requires
        forall|l: &Vector| #[trigger] else_fn.requires((l,)),
    ensures
        forall|l: &Vector| #[trigger] res.requires((l,)),
        forall|l: &Vector, r: PtrValue| res.ensures((l,), r) ==> {
            &&& n < l@.len() ==> r == l@[n as int]
            &&& n >= l@.len() ==> else_fn.ensures((l,), r)
        },
{
    move |vector: &Vector| -> (r: PtrValue)
        requires
            forall|l: &Vector| #[trigger] else_fn.requires((l,)),
        ensures
            n < vector@.len() ==> r == vector@[n as int],
            n >= vector@.len() ==> else_fn.ensures((vector,), r),
        {
            match vector.get_nth(n) {
                Some(v) => v,
                None => else_fn(vector),
            }
        }
}

} // verus!
