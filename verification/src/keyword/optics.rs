//! Prism-style accessors for the two kinds of [`Keyword`].
use vstd::prelude::*;
use crate::keyword::{Keyword, KeywordQualified, KeywordUnqualified};

verus! {

pub fn preview_unqualified(keyword: Keyword) -> (res: Option<KeywordUnqualified>)
    ensures
        match keyword {
            Keyword::Unqualified(s) => res == Some(s),
            Keyword::Qualified(_) => res is None,
        },
{
    match keyword {
        Keyword::Unqualified(keyword) => Some(keyword),
        _ => None,
    }
}

pub fn view_unqualified_ref(keyword: &Keyword) -> (res: Option<&KeywordUnqualified>)
    ensures
        match keyword {
            Keyword::Unqualified(s) => res == Some(s),
            Keyword::Qualified(_) => res is None,
        },
{
    match keyword {
        Keyword::Unqualified(keyword) => Some(keyword),
        _ => None,
    }
}

pub fn preview_qualified(keyword: Keyword) -> (res: Option<KeywordQualified>)
    ensures
        match keyword {
            Keyword::Qualified(s) => res == Some(s),
            Keyword::Unqualified(_) => res is None,
        },
{
    match keyword {
        Keyword::Qualified(keyword) => Some(keyword),
        _ => None,
    }
}

pub fn view_qualified_ref(keyword: &Keyword) -> (res: Option<&KeywordQualified>)
    ensures
        match keyword {
            Keyword::Qualified(s) => res == Some(s),
            Keyword::Unqualified(_) => res is None,
        },
{
    match keyword {
        Keyword::Qualified(keyword) => Some(keyword),
        _ => None,
    }
}

} // verus!
