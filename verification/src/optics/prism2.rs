//! Prisms whose sources are shared through pointers: a way to read a
//! focus that a source may hold, and to make a source from a focus.
use vstd::prelude::*;
use std::sync::Arc;

verus! {

/// Reads the focus `A` out of a source `S` that holds one, by copying.
pub trait PrismPreview<S, A> {
    /// Whether `preview` may be called on `source`.
    spec fn preview_requires(&self, source: &S) -> bool;

    /// What `preview` gives on `source`, where it may be called.
    spec fn preview_ensures(&self, source: &S, res: Option<A>) -> bool;

    /// The focus of `source`, if it holds one.
    fn preview(&self, source: &S) -> (res: Option<A>)
        requires
            self.preview_requires(source),
        ensures
            self.preview_ensures(source, res),
    ;
}

/// Makes a source `S` that holds a given focus `A`.
pub trait PrismReview<S, A> {
    /// Whether `review` may be called on `a`.
    spec fn review_requires(&self, a: &A) -> bool;

    /// What `review` gives on `a`, where it may be called.
    spec fn review_ensures(&self, a: &A, res: Arc<S>) -> bool;

    /// A source that holds `a`.
    fn review(&self, a: A) -> (res: Arc<S>)
        requires
            self.review_requires(&a),
        ensures
            self.review_ensures(&a, res),
    ;
}

/// Changes the focus of a source that holds one.
pub trait PrismModify<S, A>: PrismPreview<S, A> + PrismReview<S, A> {
    /// Whether `modify` may be called on `source`.
    spec fn modify_requires(&self, source: &S) -> bool;

    /// `source` with its focus changed by `f`, or `source` itself if it
    /// holds no focus: what `preview` gives, then `f` of the focus, then
    /// `review` of that.
    fn modify<M: Fn(A) -> A>(&self, source: Arc<S>, f: M) -> (res: Arc<S>)
        requires
            self.modify_requires(&*source),
            forall|a: A| #[trigger] f.requires((a,)),
        ensures
            exists|p: Option<A>| {
                &&& #[trigger] self.preview_ensures(&*source, p)
                &&& match p {
                    None => res == source,
                    Some(a) => exists|b: A| #[trigger] f.ensures((a,), b) && self.review_ensures(&b, res),
                }
            },
    ;
}

/// Replaces the focus of a source that holds one.
pub trait PrismSet<S, A>: PrismPreview<S, A> + PrismReview<S, A> {
    /// Whether `set` may be called on `source`.
    spec fn set_requires(&self, source: &S) -> bool;

    /// `source` with its focus replaced by `a`, or `source` itself if it
    /// holds no focus.
    fn set(&self, source: Arc<S>, a: A) -> (res: Arc<S>)
        requires
            self.set_requires(&*source),
        ensures
            exists|p: Option<A>| {
                &&& #[trigger] self.preview_ensures(&*source, p)
                &&& match p {
                    None => res == source,
                    Some(_) => self.review_ensures(&a, res),
                }
            },
    ;
}

/// Changes the focus of a source, telling whether it held one.
pub trait PrismTryModify<S, A>: PrismPreview<S, A> + PrismReview<S, A> {
    /// Whether `try_modify` may be called on `source`.
    spec fn try_modify_requires(&self, source: &S) -> bool;

    /// `Ok` of `source` with its focus changed by `f`, or `Err` of `source`
    /// itself if it holds no focus.
    fn try_modify<M: Fn(A) -> A>(&self, source: Arc<S>, f: M) -> (res: Result<Arc<S>, Arc<S>>)
        requires
            self.try_modify_requires(&*source),
            forall|a: A| #[trigger] f.requires((a,)),
        ensures
            exists|p: Option<A>| {
                &&& #[trigger] self.preview_ensures(&*source, p)
                &&& match p {
                    None => res == Err::<Arc<S>, Arc<S>>(source),
                    Some(a) => exists|b: A| #[trigger] f.ensures((a,), b)
                        && (res matches Ok(r) && self.review_ensures(&b, r)),
                }
            },
    ;
}

/// All the operations of a prism.
pub trait Prism<S, A>: PrismPreview<S, A> + PrismReview<S, A> + PrismModify<S, A> + PrismSet<S, A> + PrismTryModify<S, A> {
}

/// A prism made of a function that reads the focus and one that makes a
/// source from a focus.
pub struct PrismImpl<P, R> {
    pub(crate) preview: P,
    pub(crate) review: R,
}

impl<P, R> PrismImpl<P, R> {
    /// The function that reads the focus.
    pub closed spec fn preview_fn(&self) -> P {
        self.preview
    }

    /// The function that makes a source from a focus.
    pub closed spec fn review_fn(&self) -> R {
        self.review
    }

    /// The prism made of `preview` and `review`.
    pub fn new(preview: P, review: R) -> (res: Self)
        ensures
            res.preview_fn() == preview,
            res.review_fn() == review,
    {
        PrismImpl { preview, review }
    }
}

/// Whether the functions of a prism may be called on anything.
pub open spec fn prism_total<S, A, P: Fn(&S) -> Option<A>, R: Fn(A) -> Arc<S>>(p: &PrismImpl<P, R>) -> bool {
    &&& forall|s: &S| #[trigger] call_requires(p.preview_fn(), (s,))
    &&& forall|a: A| #[trigger] call_requires(p.review_fn(), (a,))
}

impl<S, A, P: Fn(&S) -> Option<A>, R: Fn(A) -> Arc<S>> PrismPreview<S, A> for PrismImpl<P, R> {
    open spec fn preview_requires(&self, source: &S) -> bool {
        call_requires(self.preview_fn(), (source,))
    }

    open spec fn preview_ensures(&self, source: &S, res: Option<A>) -> bool {
        call_ensures(self.preview_fn(), (source,), res)
    }

    fn preview(&self, source: &S) -> (res: Option<A>) {
        (self.preview)(source)
    }
}

impl<S, A, P: Fn(&S) -> Option<A>, R: Fn(A) -> Arc<S>> PrismReview<S, A> for PrismImpl<P, R> {
    open spec fn review_requires(&self, a: &A) -> bool {
        call_requires(self.review_fn(), (*a,))
    }

    open spec fn review_ensures(&self, a: &A, res: Arc<S>) -> bool {
        call_ensures(self.review_fn(), (*a,), res)
    }

    fn review(&self, a: A) -> (res: Arc<S>) {
        (self.review)(a)
    }
}

impl<S, A, P: Fn(&S) -> Option<A>, R: Fn(A) -> Arc<S>> PrismModify<S, A> for PrismImpl<P, R> {
    open spec fn modify_requires(&self, source: &S) -> bool {
        prism_total(self)
    }

    fn modify<M: Fn(A) -> A>(&self, source: Arc<S>, f: M) -> (res: Arc<S>) {
        let s: &S = &*source;
        assert(call_requires(self.preview_fn(), (s,)));
        let p = (self.preview)(s);
        let ghost gp = p;
        match p {
            Some(a) => {
                let ghost ga = a;
                let b = f(a);
                let ghost gb = b;
                assert(call_requires(self.review_fn(), (b,)));
                let r = (self.review)(b);
                assert(f.ensures((ga,), gb) && self.review_ensures(&gb, r));
                assert(self.preview_ensures(&*source, gp));
                r
            },
            None => {
                assert(self.preview_ensures(&*source, gp));
                source
            },
        }
    }
}

impl<S, A, P: Fn(&S) -> Option<A>, R: Fn(A) -> Arc<S>> PrismSet<S, A> for PrismImpl<P, R> {
    open spec fn set_requires(&self, source: &S) -> bool {
        prism_total(self)
    }

    fn set(&self, source: Arc<S>, a: A) -> (res: Arc<S>) {
        let s: &S = &*source;
        assert(call_requires(self.preview_fn(), (s,)));
        let p = (self.preview)(s);
        let ghost gp = p;
        assert(self.preview_ensures(&*source, gp));
        match p {
            Some(_) => {
                assert(call_requires(self.review_fn(), (a,)));
                (self.review)(a)
            },
            None => source,
        }
    }
}

impl<S, A, P: Fn(&S) -> Option<A>, R: Fn(A) -> Arc<S>> PrismTryModify<S, A> for PrismImpl<P, R> {
    open spec fn try_modify_requires(&self, source: &S) -> bool {
        prism_total(self)
    }

    fn try_modify<M: Fn(A) -> A>(&self, source: Arc<S>, f: M) -> (res: Result<Arc<S>, Arc<S>>) {
        let s: &S = &*source;
        assert(call_requires(self.preview_fn(), (s,)));
        let p = (self.preview)(s);
        let ghost gp = p;
        assert(self.preview_ensures(&*source, gp));
        match p {
            Some(a) => {
                let ghost ga = a;
                let b = f(a);
                let ghost gb = b;
                assert(call_requires(self.review_fn(), (b,)));
                let r = (self.review)(b);
                assert(f.ensures((ga,), gb) && self.review_ensures(&gb, r));
                Ok(r)
            },
            None => Err(source),
        }
    }
}

impl<S, A, P: Fn(&S) -> Option<A>, R: Fn(A) -> Arc<S>> Prism<S, A> for PrismImpl<P, R> {
}

} // verus!
