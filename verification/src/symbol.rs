//! Symbols: identifiers that name values, either bare (`foo`) or
//! qualified by a namespace (`user/foo`).
use vstd::prelude::*;

pub mod optics;

verus! {

/// An identifier that evaluates to a `Value`.
///
/// Symbols may be either unqualified (just a name) or qualified (with a namespace).
/// Unqualified symbols are resolved in the current namespace, while qualified symbols
/// specify both the namespace and the name.
#[derive(Debug, Eq, PartialOrd, Ord, Hash)]
pub enum Symbol {
    /// An unqualified symbol (just a name)
    Unqualified(SymbolUnqualified),
    /// A qualified symbol with namespace and name
    Qualified(SymbolQualified),
}

/// A bare symbol name.
#[derive(Debug, Eq, PartialOrd, Ord, Hash)]
pub struct SymbolUnqualified(pub(crate) String);

/// A symbol made of a namespace part and a name part.
#[derive(Debug, Eq, PartialOrd, Ord, Hash)]
pub struct SymbolQualified(pub(crate) String, pub(crate) String);

impl View for SymbolUnqualified {
    type V = Seq<char>;

    closed spec fn view(&self) -> Seq<char> {
        self.0@
    }
}

impl View for SymbolQualified {
    /// `(namespace, name)`
    type V = (Seq<char>, Seq<char>);

    closed spec fn view(&self) -> (Seq<char>, Seq<char>) {
        (self.0@, self.1@)
    }
}

impl View for Symbol {
    /// `(namespace, name)`; an unqualified symbol has no namespace.
    type V = (Option<Seq<char>>, Seq<char>);

    open spec fn view(&self) -> (Option<Seq<char>>, Seq<char>) {
        match self {
            Symbol::Unqualified(s) => (None, s@),
            Symbol::Qualified(s) => (Some(s@.0), s@.1),
        }
    }
}

impl Clone for SymbolUnqualified {
    fn clone(&self) -> (res: Self)
        ensures
            res == *self,
    {
        SymbolUnqualified(self.0.clone())
    }
}

impl Clone for SymbolQualified {
    fn clone(&self) -> (res: Self)
        ensures
            res == *self,
    {
        SymbolQualified(self.0.clone(), self.1.clone())
    }
}

impl Clone for Symbol {
    fn clone(&self) -> (res: Self)
        ensures
            res == *self,
    {
        match self {
            Symbol::Unqualified(s) => Symbol::Unqualified(s.clone()),
            Symbol::Qualified(s) => Symbol::Qualified(s.clone()),
        }
    }
}

impl PartialEq for SymbolUnqualified {
    fn eq(&self, other: &Self) -> (res: bool) {
        self.0 == other.0
    }
}

impl vstd::std_specs::cmp::PartialEqSpecImpl for SymbolUnqualified {
    open spec fn obeys_eq_spec() -> bool {
        true
    }

    open spec fn eq_spec(&self, other: &Self) -> bool {
        self@ == other@
    }
}

impl PartialEq for SymbolQualified {
    fn eq(&self, other: &Self) -> (res: bool) {
        self.0 == other.0 && self.1 == other.1
    }
}

impl vstd::std_specs::cmp::PartialEqSpecImpl for SymbolQualified {
    open spec fn obeys_eq_spec() -> bool {
        true
    }

    open spec fn eq_spec(&self, other: &Self) -> bool {
        self@ == other@
    }
}

impl PartialEq for Symbol {
    fn eq(&self, other: &Self) -> (res: bool) {
        match (self, other) {
            (Symbol::Unqualified(a), Symbol::Unqualified(b)) => a == b,
            (Symbol::Qualified(a), Symbol::Qualified(b)) => a == b,
            _ => false,
        }
    }
}

impl vstd::std_specs::cmp::PartialEqSpecImpl for Symbol {
    open spec fn obeys_eq_spec() -> bool {
        true
    }

    open spec fn eq_spec(&self, other: &Self) -> bool {
        self@ == other@
    }
}

impl Symbol {
    /// Creates an unqualified symbol named `name`.
    pub fn new_unqualified(name: &str) -> (res: Self)
        ensures
            res@ == (None::<Seq<char>>, name@),
            res is Unqualified,
    {
        Symbol::Unqualified(SymbolUnqualified(name.to_owned()))
    }

    /// Creates a symbol with namespace `namespace` and name `name`.
    pub fn new_qualified(namespace: &str, name: &str) -> (res: Self)
        ensures
            res@ == (Some(namespace@), name@),
            res is Qualified,
    {
        Symbol::Qualified(SymbolQualified(namespace.to_owned(), name.to_owned()))
    }

    pub fn is_unqualified(&self) -> (res: bool)
        ensures
            res == (self is Unqualified),
            res == self@.0.is_none(),
    {
        matches!(self, Symbol::Unqualified(_))
    }

    pub fn is_qualified(&self) -> (res: bool)
        ensures
            res == (self is Qualified),
            res == self@.0.is_some(),
    {
        matches!(self, Symbol::Qualified(_))
    }

    pub fn as_unqualified_symbol(&self) -> (res: Option<&SymbolUnqualified>)
        ensures
            match self {
                Symbol::Unqualified(s) => res == Some(s),
                Symbol::Qualified(_) => res is None,
            },
    {
        match self {
            Symbol::Unqualified(inner) => Some(inner),
            _ => None,
        }
    }

    pub fn as_qualified_symbol(&self) -> (res: Option<&SymbolQualified>)
        ensures
            match self {
                Symbol::Qualified(s) => res == Some(s),
                Symbol::Unqualified(_) => res is None,
            },
    {
        match self {
            Symbol::Qualified(inner) => Some(inner),
            _ => None,
        }
    }

    /// The name part of the symbol.
    pub fn name(&self) -> (res: &str)
        ensures
            res@ == self@.1,
    {
        match self {
            Symbol::Unqualified(symbol) => symbol.name(),
            Symbol::Qualified(symbol) => symbol.name(),
        }
    }

    /// The namespace part of the symbol, if it is qualified.
    pub fn namespace(&self) -> (res: Option<&str>)
        ensures
            res is Some <==> self@.0 is Some,
            res matches Some(ns) ==> ns@ == self@.0.unwrap(),
    {
        match self {
            Symbol::Unqualified(_) => None,
            Symbol::Qualified(symbol) => Some(symbol.namespace()),
        }
    }

    /// The namespace part of a qualified symbol.
    pub fn namespace_or_panic(&self) -> (res: &str)
        requires
            self is Qualified,
        ensures
            self@.0 == Some(res@),
    {
        match self {
            Symbol::Qualified(symbol) => symbol.namespace(),
            Symbol::Unqualified(_) => {
                assert(false);
                ""
            },
        }
    }
}

impl SymbolUnqualified {
    pub fn new(name: &str) -> (res: Self)
        ensures
            res@ == name@,
    {
        SymbolUnqualified(name.to_owned())
    }

    pub fn name(&self) -> (res: &str)
        ensures
            res@ == self@,
    {
        self.0.as_str()
    }

    /// The name, as the string it is held in.
    pub(crate) fn name_as_string(&self) -> (res: &String)
        ensures
            res@ == self@,
    {
        &self.0
    }
}

impl SymbolQualified {
    pub fn new(namespace: &str, name: &str) -> (res: Self)
        ensures
            res@ == (namespace@, name@),
    {
        SymbolQualified(namespace.to_owned(), name.to_owned())
    }

    pub fn namespace(&self) -> (res: &str)
        ensures
            res@ == self@.0,
    {
        self.0.as_str()
    }

    pub fn name(&self) -> (res: &str)
        ensures
            res@ == self@.1,
    {
        self.1.as_str()
    }
}

} // verus!
