//! Keywords: identifiers that evaluate to themselves, either bare (`:foo`)
//! or qualified by a namespace (`:user/foo`).
use vstd::prelude::*;

pub mod optics;

verus! {

/// A keyword that evaluates to itself.
///
/// Keywords are used for metadata, attributes, and as keys in maps. They may be
/// either unqualified (just a name) or qualified (with a namespace).
#[derive(Debug, Eq, PartialOrd, Ord, Hash)]
pub enum Keyword {
    /// An unqualified keyword (just a name)
    Unqualified(KeywordUnqualified),
    /// A qualified keyword with namespace and name
    Qualified(KeywordQualified),
}

/// A bare keyword name.
#[derive(Debug, Eq, PartialOrd, Ord, Hash)]
pub struct KeywordUnqualified(String);

/// A keyword made of a namespace part and a name part.
#[derive(Debug, Eq, PartialOrd, Ord, Hash)]
pub struct KeywordQualified(String, String);

impl View for KeywordUnqualified {
    type V = Seq<char>;

    closed spec fn view(&self) -> Seq<char> {
        self.0@
    }
}

impl View for KeywordQualified {
    /// `(namespace, name)`
    type V = (Seq<char>, Seq<char>);

    closed spec fn view(&self) -> (Seq<char>, Seq<char>) {
        (self.0@, self.1@)
    }
}

impl View for Keyword {
    /// `(namespace, name)`; an unqualified keyword has no namespace.
    type V = (Option<Seq<char>>, Seq<char>);

    open spec fn view(&self) -> (Option<Seq<char>>, Seq<char>) {
        match self {
            Keyword::Unqualified(s) => (None, s@),
            Keyword::Qualified(s) => (Some(s@.0), s@.1),
        }
    }
}

impl Clone for KeywordUnqualified {
    fn clone(&self) -> (res: Self)
        ensures
            res == *self,
    {
        KeywordUnqualified(self.0.clone())
    }
}

impl Clone for KeywordQualified {
    fn clone(&self) -> (res: Self)
        ensures
            res == *self,
    {
        KeywordQualified(self.0.clone(), self.1.clone())
    }
}

impl Clone for Keyword {
    fn clone(&self) -> (res: Self)
        ensures
            res == *self,
    {
        match self {
            Keyword::Unqualified(s) => Keyword::Unqualified(s.clone()),
            Keyword::Qualified(s) => Keyword::Qualified(s.clone()),
        }
    }
}

impl PartialEq for KeywordUnqualified {
    fn eq(&self, other: &Self) -> (res: bool) {
        self.0 == other.0
    }
}

impl vstd::std_specs::cmp::PartialEqSpecImpl for KeywordUnqualified {
    open spec fn obeys_eq_spec() -> bool {
        true
    }

    open spec fn eq_spec(&self, other: &Self) -> bool {
        self@ == other@
    }
}

impl PartialEq for KeywordQualified {
    fn eq(&self, other: &Self) -> (res: bool) {
        self.0 == other.0 && self.1 == other.1
    }
}

impl vstd::std_specs::cmp::PartialEqSpecImpl for KeywordQualified {
    open spec fn obeys_eq_spec() -> bool {
        true
    }

    open spec fn eq_spec(&self, other: &Self) -> bool {
        self@ == other@
    }
}

impl PartialEq for Keyword {
    fn eq(&self, other: &Self) -> (res: bool) {
        match (self, other) {
            (Keyword::Unqualified(a), Keyword::Unqualified(b)) => a == b,
            (Keyword::Qualified(a), Keyword::Qualified(b)) => a == b,
            _ => false,
        }
    }
}

impl vstd::std_specs::cmp::PartialEqSpecImpl for Keyword {
    open spec fn obeys_eq_spec() -> bool {
        true
    }

    open spec fn eq_spec(&self, other: &Self) -> bool {
        self@ == other@
    }
}

impl Keyword {
    /// Creates an unqualified keyword named `name`.
    pub fn new_unqualified(name: &str) -> (res: Self)
        ensures
            res@ == (None::<Seq<char>>, name@),
            res is Unqualified,
    {
        Keyword::Unqualified(KeywordUnqualified(name.to_owned()))
    }

    /// Creates a keyword with namespace `namespace` and name `name`.
    pub fn new_qualified(namespace: &str, name: &str) -> (res: Self)
        ensures
            res@ == (Some(namespace@), name@),
            res is Qualified,
    {
        Keyword::Qualified(KeywordQualified(namespace.to_owned(), name.to_owned()))
    }

    pub fn is_unqualified(&self) -> (res: bool)
        ensures
            res == (self is Unqualified),
            res == self@.0.is_none(),
    {
        matches!(self, Keyword::Unqualified(_))
    }

    pub fn is_qualified(&self) -> (res: bool)
        ensures
            res == (self is Qualified),
            res == self@.0.is_some(),
    {
        matches!(self, Keyword::Qualified(_))
    }

    pub fn as_unqualified_keyword(&self) -> (res: Option<&KeywordUnqualified>)
        ensures
            match self {
                Keyword::Unqualified(s) => res == Some(s),
                Keyword::Qualified(_) => res is None,
            },
    {
        match self {
            Keyword::Unqualified(inner) => Some(inner),
            _ => None,
        }
    }

    pub fn as_qualified_keyword(&self) -> (res: Option<&KeywordQualified>)
        ensures
            match self {
                Keyword::Qualified(s) => res == Some(s),
                Keyword::Unqualified(_) => res is None,
            },
    {
        match self {
            Keyword::Qualified(inner) => Some(inner),
            _ => None,
        }
    }

    /// The name part of the keyword.
    pub fn name(&self) -> (res: &str)
        ensures
            res@ == self@.1,
    {
        match self {
            Keyword::Unqualified(keyword) => keyword.name(),
            Keyword::Qualified(keyword) => keyword.name(),
        }
    }

    /// The namespace part of the keyword, if it is qualified.
    pub fn namespace(&self) -> (res: Option<&str>)
        ensures
            res is Some <==> self@.0 is Some,
            res matches Some(ns) ==> ns@ == self@.0.unwrap(),
    {
        match self {
            Keyword::Unqualified(_) => None,
            Keyword::Qualified(keyword) => Some(keyword.namespace()),
        }
    }

    /// The namespace part of a qualified keyword.
    pub fn namespace_or_panic(&self) -> (res: &str)
        requires
            self is Qualified,
        ensures
            self@.0 == Some(res@),
    {
        match self {
            Keyword::Qualified(keyword) => keyword.namespace(),
            Keyword::Unqualified(_) => {
                assert(false);
                ""
            },
        }
    }
}

impl KeywordUnqualified {
    pub fn new(name: &str) -> (res: Self)
        ensures
            res@ == name@,
    {
        KeywordUnqualified(name.to_owned())
    }

    pub fn name(&self) -> (res: &str)
        ensures
            res@ == self@,
    {
        self.0.as_str()
    }
}

impl KeywordQualified {
    pub fn new(namespace: &str, name: &str) -> (res: Self)
        ensures
            res@ == (namespace@, name@),
    {
        KeywordQualified(namespace.to_owned(), name.to_owned())
    }

    pub fn namespace(&self) -> (res: &str)
        ensures
            res@ == self@.0,
    {
        self.0.as_str()
    }

    pub fn name(&self) -> (res: &str)
        ensures
            res@ == self@.1,
    {
        self.1.as_str()
    }
}

} // verus!
