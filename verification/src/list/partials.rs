//! Element accessors on lists with the index or the fallback given first:
//! each returns a function from a list to the element.
use vstd::prelude::*;
use crate::value::{PtrValue, Value, elem_at, elem_or};
use crate::list::List;

verus! {

/// A function that gives the last element of a list, or `default` where the
/// list is empty.
pub fn get_last_or(default: PtrValue) -> (res: impl Fn(&List) -> PtrValue)
    ensures
        forall|l: &List| #[trigger] res.requires((l,)),
        forall|l: &List, r: PtrValue| res.ensures((l,), r) ==> r == elem_or(l@, l@.len() - 1, default),
{
    move |list: &List| -> (r: PtrValue)
        ensures
            r == elem_or(list@, list@.len() - 1, default),
        { list.get_last_or(default.clone()) }
}

/// A function that gives the last element of a list, or what `else_fn`
/// gives for the list where it is empty.
pub fn get_last_or_else<F: Fn(&List) -> PtrValue>(else_fn: F) -> (res: impl Fn(&List) -> PtrValue)
    requires
        forall|l: &List| #[trigger] else_fn.requires((l,)),
    ensures
        forall|l: &List| #[trigger] res.requires((l,)),
        forall|l: &List, r: PtrValue| res.ensures((l,), r) ==> {
            &&& 0 < l@.len() ==> r == l@.last()
            &&& l@.len() == 0 ==> else_fn.ensures((l,), r)
        },
{
    move |list: &List| -> (r: PtrValue)
        requires
            forall|l: &List| #[trigger] else_fn.requires((l,)),
        ensures
            0 < list@.len() ==> r == list@.last(),
            list@.len() == 0 ==> else_fn.ensures((list,), r),
        {
            match list.get_last() {
                Some(v) => v,
                None => else_fn(list),
            }
        }
}

/// A function that gives the element of a list at index `n`, if there is one.
pub fn get_nth(n: usize) -> (res: impl Fn(&List) -> Option<PtrValue>)
    ensures
        forall|l: &List| #[trigger] res.requires((l,)),
        forall|l: &List, r: Option<PtrValue>| res.ensures((l,), r) ==> r == elem_at(l@, n as int),
{
    move |list: &List| -> (r: Option<PtrValue>)
        ensures
            r == elem_at(list@, n as int),
        { list.get_nth(n) }
}

/// A function that gives the element of a list at index `n`, by reference,
/// if there is one.
pub fn get_nth_ref(n: usize) -> (res: impl Fn(&List) -> Option<&Value>)
    ensures
        forall|l: &List| #[trigger] res.requires((l,)),
        forall|l: &List, r: Option<&Value>| res.ensures((l,), r) ==> match r {
            Some(v) => n < l@.len() && *v == *l@[n as int],
            None => n >= l@.len(),
        },
{
    move |list: &List| -> (r: Option<&Value>)
        ensures
            match r {
                Some(v) => n < list@.len() && *v == *list@[n as int],
                None => n >= list@.len(),
            },
        { list.get_nth_ref(n) }
}

/// A function that gives the element of a list at index `n`, or `default`
/// where there is none.
pub fn get_nth_or(n: usize, default: PtrValue) -> (res: impl Fn(&List) -> PtrValue)
    ensures
        forall|l: &List| #[trigger] res.requires((l,)),
        forall|l: &List, r: PtrValue| res.ensures((l,), r) ==> r == elem_or(l@, n as int, default),
{
    move |list: &List| -> (r: PtrValue)
        ensures
            r == elem_or(list@, n as int, default),
        { list.get_nth_or(n, default.clone()) }
}

/// A function that gives the element of a list at index `n`, or `nil` where
/// there is none.
pub fn get_nth_or_nil(n: usize) -> (res: impl Fn(&List) -> PtrValue)
    ensures
        forall|l: &List| #[trigger] res.requires((l,)),
        forall|l: &List, r: PtrValue| res.ensures((l,), r) ==> {
            &&& n < l@.len() ==> r == l@[n as int]
            &&& n >= l@.len() ==> *r == Value::Nil(None)
        },
{
    move |list: &List| -> (r: PtrValue)
        ensures
            n < list@.len() ==> r == list@[n as int],
            n >= list@.len() ==> *r == Value::Nil(None),
        { list.get_nth_or_nil(n) }
}

/// A function that gives the element of a list at index `n`, or what
/// `else_fn` gives for the list where there is none.
pub fn get_nth_or_else<F: Fn(&List) -> PtrValue>(n: usize, else_fn: F) -> (res: impl Fn(&List) -> PtrValue)
    requires
        forall|l: &List| #[trigger] else_fn.requires((l,)),
    ensures
        forall|l: &List| #[trigger] res.requires((l,)),
        forall|l: &List, r: PtrValue| res.ensures((l,), r) ==> {
            &&& n < l@.len() ==> r == l@[n as int]
            &&& n >= l@.len() ==> else_fn.ensures((l,), r)
        },
{
    move |list: &List| -> (r: PtrValue)
        requires
            forall|l: &List| #[trigger] else_fn.requires((l,)),
        ensures
            n < list@.len() ==> r == list@[n as int],
            n >= list@.len() ==> else_fn.ensures((list,), r),
        {
            match list.get_nth(n) {
                Some(v) => v,
                None => else_fn(list),
            }
        }
}

} // verus!
