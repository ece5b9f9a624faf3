//! Element access helpers on vectors, plain and through a preview function.
use vstd::prelude::*;
use crate::keyword::Keyword;
use crate::symbol::Symbol;
use crate::value::{PtrValue, Value, elem_at};
use crate::value::optics::{preview_keyword, preview_symbol};
use crate::vector::Vector;

verus! {

/// The first element of `vector`, if there is one.
pub fn view_first(vector: &Vector) -> (res: Option<PtrValue>)
    ensures
        res == elem_at(vector@, 0),
{
    vector.get_first()
}

/// The second element of `vector`, if there is one.
pub fn view_second(vector: &Vector) -> (res: Option<PtrValue>)
    ensures
        res == elem_at(vector@, 1),
{
    vector.get_second()
}

/// The last element of `vector`, if there is one.
pub fn view_last(vector: &Vector) -> (res: Option<PtrValue>)
    ensures
        res == elem_at(vector@, vector@.len() - 1),
{
    vector.get_last()
}

/// The element of `vector` at index `n`, or `None` where `n` is out of bounds.
pub fn view_nth(vector: &Vector, n: usize) -> (res: Option<PtrValue>)
    ensures
        res == elem_at(vector@, n as int),
{
    vector.get_nth(n)
}

/// What `prism_preview` makes of the element of `vector` at index `n`; `None`
/// where there is no such element.
fn preview_at<T, F: Fn(&Value) -> Option<T>>(vector: &Vector, n: usize, prism_preview: F) -> (res: Option<T>)
    requires
        n < vector@.len() ==> prism_preview.requires((&*vector@[n as int],)),
    ensures
        n >= vector@.len() ==> res is None,
        n < vector@.len() ==> prism_preview.ensures((&*vector@[n as int],), res),
{
    match vector.get_nth_ref(n) {
        Some(v) => prism_preview(v),
        None => None,
    }
}

/// What `prism_preview` makes of the first element of `vector`; `None` where
/// `vector` is empty.
pub fn view_first_as<T, F: Fn(&Value) -> Option<T>>(vector: &Vector, prism_preview: F) -> (res: Option<T>)
    requires
        0 < vector@.len() ==> prism_preview.requires((&*vector@[0],)),
    ensures
        vector@.len() == 0 ==> res is None,
        0 < vector@.len() ==> prism_preview.ensures((&*vector@[0],), res),
{
    preview_at(vector, 0, prism_preview)
}

/// What `prism_preview` makes of the second element of `vector`; `None` where
/// `vector` has fewer than two elements.
pub fn view_second_as<T, F: Fn(&Value) -> Option<T>>(vector: &Vector, prism_preview: F) -> (res: Option<T>)
    requires
        1 < vector@.len() ==> prism_preview.requires((&*vector@[1],)),
    ensures
        vector@.len() <= 1 ==> res is None,
        1 < vector@.len() ==> prism_preview.ensures((&*vector@[1],), res),
{
    preview_at(vector, 1, prism_preview)
}

/// What `prism_preview` makes of the last element of `vector`; `None` where
/// `vector` is empty.
pub fn view_last_as<T, F: Fn(&Value) -> Option<T>>(vector: &Vector, prism_preview: F) -> (res: Option<T>)
    requires
        0 < vector@.len() ==> prism_preview.requires((&*vector@.last(),)),
    ensures
        vector@.len() == 0 ==> res is None,
        0 < vector@.len() ==> prism_preview.ensures((&*vector@.last(),), res),
{
    let len = vector.len();
    if len == 0 {
        None
    } else {
        preview_at(vector, len - 1, prism_preview)
    }
}

/// What `prism_preview` makes of the element of `vector` at index `n`; `None`
/// where `n` is out of bounds.
pub fn view_nth_as<T, F: Fn(&Value) -> Option<T>>(vector: &Vector, n: usize, prism_preview: F) -> (res: Option<T>)
    requires
        n < vector@.len() ==> prism_preview.requires((&*vector@[n as int],)),
    ensures
        n >= vector@.len() ==> res is None,
        n < vector@.len() ==> prism_preview.ensures((&*vector@[n as int],), res),
{
    preview_at(vector, n, prism_preview)
}

/// The first element of `vector` as a symbol: `None` where `vector` is empty or
/// its first element is no symbol.
pub fn view_first_as_symbol(vector: &Vector) -> (res: Option<Symbol>)
    ensures
        match res {
            Some(s) => 0 < vector@.len() && (*vector@[0] matches Value::Symbol(x, _) && x == s),
            None => vector@.len() == 0 || !(*vector@[0] is Symbol),
        },
{
    view_first_as(vector, preview_symbol)
}

/// The first element of `vector` as a keyword: `None` where `vector` is empty or
/// its first element is no keyword.
pub fn view_first_as_keyword(vector: &Vector) -> (res: Option<Keyword>)
    ensures
        match res {
            Some(k) => 0 < vector@.len() && (*vector@[0] matches Value::Keyword(x, _) && x == k),
            None => vector@.len() == 0 || !(*vector@[0] is Keyword),
        },
{
    view_first_as(vector, preview_keyword)
}

} // verus!
