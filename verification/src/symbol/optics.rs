//! Prism-style accessors for the two kinds of [`Symbol`].
use vstd::prelude::*;
use crate::symbol::{Symbol, SymbolQualified, SymbolUnqualified};

verus! {

pub fn preview_unqualified(symbol: Symbol) -> (res: Option<SymbolUnqualified>)
    ensures
        match symbol {
            Symbol::Unqualified(s) => res == Some(s),
            Symbol::Qualified(_) => res is None,
        },
{
    match symbol {
        Symbol::Unqualified(symbol) => Some(symbol),
        _ => None,
    }
}

pub fn preview_unqualified_ref(symbol: &Symbol) -> (res: Option<&SymbolUnqualified>)
    ensures
        match symbol {
            Symbol::Unqualified(s) => res == Some(s),
            Symbol::Qualified(_) => res is None,
        },
{
    match symbol {
        Symbol::Unqualified(symbol) => Some(symbol),
        _ => None,
    }
}

pub fn preview_qualified(symbol: Symbol) -> (res: Option<SymbolQualified>)
    ensures
        match symbol {
            Symbol::Qualified(s) => res == Some(s),
            Symbol::Unqualified(_) => res is None,
        },
{
    match symbol {
        Symbol::Qualified(symbol) => Some(symbol),
        _ => None,
    }
}

pub fn preview_qualified_ref(symbol: &Symbol) -> (res: Option<&SymbolQualified>)
    ensures
        match symbol {
            Symbol::Qualified(s) => res == Some(s),
            Symbol::Unqualified(_) => res is None,
        },
{
    match symbol {
        Symbol::Qualified(symbol) => Some(symbol),
        _ => None,
    }
}

} // verus!
