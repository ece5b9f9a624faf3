//! Element access helpers on lists, plain and through a preview function.
use vstd::prelude::*;
use crate::keyword::Keyword;
use crate::symbol::Symbol;
use crate::value::{PtrValue, Value, elem_at};
use crate::value::optics::{preview_keyword, preview_symbol};
use crate::list::List;

verus! {

/// The first element of `list`, if there is one.
pub fn view_first(list: &List) -> (res: Option<PtrValue>)
    ensures
        res == elem_at(list@, 0),
{
    list.get_first()
}

/// The second element of `list`, if there is one.
pub fn view_second(list: &List) -> (res: Option<PtrValue>)
    ensures
        res == elem_at(list@, 1),
{
    list.get_second()
}

/// The last element of `list`, if there is one.
pub fn view_last(list: &List) -> (res: Option<PtrValue>)
    ensures
        res == elem_at(list@, list@.len() - 1),
{
    list.get_last()
}

/// The element of `list` at index `n`, or `None` where `n` is out of bounds.
pub fn view_nth(list: &List, n: usize) -> (res: Option<PtrValue>)
    ensures
        res == elem_at(list@, n as int),
{
    list.get_nth(n)
}

/// What `prism_preview` makes of the element of `list` at index `n`; `None`
/// where there is no such element.
fn preview_at<T, F: Fn(&Value) -> Option<T>>(list: &List, n: usize, prism_preview: F) -> (res: Option<T>)
    requires
        n < list@.len() ==> prism_preview.requires((&*list@[n as int],)),
    ensures
        n >= list@.len() ==> res is None,
        n < list@.len() ==> prism_preview.ensures((&*list@[n as int],), res),
{
    match list.get_nth_ref(n) {
        Some(v) => prism_preview(v),
        None => None,
    }
}

/// What `prism_preview` makes of the first element of `list`; `None` where
/// `list` is empty.
pub fn view_first_as<T, F: Fn(&Value) -> Option<T>>(list: &List, prism_preview: F) -> (res: Option<T>)
    requires
        0 < list@.len() ==> prism_preview.requires((&*list@[0],)),
    ensures
        list@.len() == 0 ==> res is None,
        0 < list@.len() ==> prism_preview.ensures((&*list@[0],), res),
{
    preview_at(list, 0, prism_preview)
}

/// What `prism_preview` makes of the second element of `list`; `None` where
/// `list` has fewer than two elements.
pub fn view_second_as<T, F: Fn(&Value) -> Option<T>>(list: &List, prism_preview: F) -> (res: Option<T>)
    requires
        1 < list@.len() ==> prism_preview.requires((&*list@[1],)),
    ensures
        list@.len() <= 1 ==> res is None,
        1 < list@.len() ==> prism_preview.ensures((&*list@[1],), res),
{
    preview_at(list, 1, prism_preview)
}

/// What `prism_preview` makes of the last element of `list`; `None` where
/// `list` is empty.
pub fn view_last_as<T, F: Fn(&Value) -> Option<T>>(list: &List, prism_preview: F) -> (res: Option<T>)
    requires
        0 < list@.len() ==> prism_preview.requires((&*list@.last(),)),
    ensures
        list@.len() == 0 ==> res is None,
        0 < list@.len() ==> prism_preview.ensures((&*list@.last(),), res),
{
    let len = list.len();
    if len == 0 {
        None
    } else {
        preview_at(list, len - 1, prism_preview)
    }
}

/// What `prism_preview` makes of the element of `list` at index `n`; `None`
/// where `n` is out of bounds.
pub fn view_nth_as<T, F: Fn(&Value) -> Option<T>>(list: &List, n: usize, prism_preview: F) -> (res: Option<T>)
    requires
        n < list@.len() ==> prism_preview.requires((&*list@[n as int],)),
    ensures
        n >= list@.len() ==> res is None,
        n < list@.len() ==> prism_preview.ensures((&*list@[n as int],), res),
{
    preview_at(list, n, prism_preview)
}

/// The first element of `list` as a symbol: `None` where `list` is empty or
/// its first element is no symbol.
pub fn view_first_as_symbol(list: &List) -> (res: Option<Symbol>)
    ensures
        match res {
            Some(s) => 0 < list@.len() && (*list@[0] matches Value::Symbol(x, _) && x == s),
            None => list@.len() == 0 || !(*list@[0] is Symbol),
        },
{
    view_first_as(list, preview_symbol)
}

/// The first element of `list` as a keyword: `None` where `list` is empty or
/// its first element is no keyword.
pub fn view_first_as_keyword(list: &List) -> (res: Option<Keyword>)
    ensures
        match res {
            Some(k) => 0 < list@.len() && (*list@[0] matches Value::Keyword(x, _) && x == k),
            None => list@.len() == 0 || !(*list@[0] is Keyword),
        },
{
    view_first_as(list, preview_keyword)
}

} // verus!
