//! Lenses: a way to read a part of a whole, and to make a whole with that
//! part replaced.
use vstd::prelude::*;

verus! {

/// Gets focus `F` from source `S`, by copying.
pub trait LensGet<S, F> {
    /// Whether `get` may be called on `s`.
    spec fn get_requires(&self, s: &S) -> bool;

    /// What `get` gives on `s`, where it may be called.
    spec fn get_ensures(&self, s: &S, f: F) -> bool;

    /// Gets the focus of `s`, by copying.
    fn get(&self, s: &S) -> (res: F)
        requires
            self.get_requires(s),
        ensures
            self.get_ensures(s, res),
    ;
}

/// Makes a copy of source `S` with focus `F` replaced.
pub trait LensSet<S, F> {
    /// Whether `set` may be called on `s` and `a`.
    spec fn set_requires(&self, s: &S, a: &F) -> bool;

    /// What `set` gives on `s` and `a`, where it may be called.
    spec fn set_ensures(&self, s: &S, a: &F, res: S) -> bool;

    /// A copy of `s` with its focus replaced by `a`.
    fn set(&self, s: &S, a: F) -> (res: S)
        requires
            self.set_requires(s, &a),
        ensures
            self.set_ensures(s, &a, res),
    ;
}

/// Replaces focus `F` in source `S` in place.
pub trait LensSetMut<S, F> {
    /// Whether `set_mut` may be called on `s` and `a`.
    spec fn set_mut_requires(&self, s: &S, a: &F) -> bool;

    /// What `set_mut` leaves in `s`, where it may be called.
    spec fn set_mut_ensures(&self, old_s: &S, a: &F, new_s: &S) -> bool;

    /// Replaces the focus of `s` by `a`, in place.
    fn set_mut(&self, s: &mut S, a: F)
        requires
            self.set_mut_requires(&*old(s), &a),
        ensures
            self.set_mut_ensures(&*old(s), &a, &*final(s)),
    ;
}

/// A lens that gets by copying and sets by making a new whole.
pub trait Lens<S, F>: LensGet<S, F> + LensSet<S, F> {
}

/// A lens that gets by copying and sets in place.
pub trait LensMut<S, F>: LensGet<S, F> + LensSetMut<S, F> {
}

/// A lens made of a getter and a setter that makes a new whole.
pub struct LensImpl<G, T> {
    pub(crate) get: G,
    pub(crate) set: T,
}

impl<G, T> LensImpl<G, T> {
    /// The getter of the lens.
    pub closed spec fn getter(&self) -> G {
        self.get
    }

    /// The setter of the lens.
    pub closed spec fn setter(&self) -> T {
        self.set
    }

    /// The lens made of `get` and `set`.
    pub fn new(get: G, set: T) -> (res: Self)
        ensures
            res.getter() == get,
            res.setter() == set,
    {
        LensImpl { get, set }
    }
}

impl<S, F, G: Fn(&S) -> F, T> LensGet<S, F> for LensImpl<G, T> {
    open spec fn get_requires(&self, s: &S) -> bool {
        call_requires(self.getter(), (s,))
    }

    open spec fn get_ensures(&self, s: &S, f: F) -> bool {
        call_ensures(self.getter(), (s,), f)
    }

    fn get(&self, s: &S) -> (res: F) {
        (self.get)(s)
    }
}

impl<S, F, G, T: Fn(&S, F) -> S> LensSet<S, F> for LensImpl<G, T> {
    open spec fn set_requires(&self, s: &S, a: &F) -> bool {
        call_requires(self.setter(), (s, *a))
    }

    open spec fn set_ensures(&self, s: &S, a: &F, res: S) -> bool {
        call_ensures(self.setter(), (s, *a), res)
    }

    fn set(&self, s: &S, a: F) -> (res: S) {
        (self.set)(s, a)
    }
}

impl<S, F, G: Fn(&S) -> F, T: Fn(&S, F) -> S> Lens<S, F> for LensImpl<G, T> {
}

/// A lens made of a getter and a setter that replaces in place.
pub struct LensMutImpl<G, T> {
    pub(crate) get: G,
    pub(crate) set: T,
}

impl<G, T> LensMutImpl<G, T> {
    /// The getter of the lens.
    pub closed spec fn getter(&self) -> G {
        self.get
    }

    /// The setter of the lens.
    pub closed spec fn setter(&self) -> T {
        self.set
    }

    /// The lens made of `get` and `set`.
    pub fn new(get: G, set: T) -> (res: Self)
        ensures
            res.getter() == get,
            res.setter() == set,
    {
        LensMutImpl { get, set }
    }
}

impl<S, F, G: Fn(&S) -> F, T> LensGet<S, F> for LensMutImpl<G, T> {
    open spec fn get_requires(&self, s: &S) -> bool {
        call_requires(self.getter(), (s,))
    }

    open spec fn get_ensures(&self, s: &S, f: F) -> bool {
        call_ensures(self.getter(), (s,), f)
    }

    fn get(&self, s: &S) -> (res: F) {
        (self.get)(s)
    }
}

impl<S, F, G, T: Fn(&mut S, F)> LensSetMut<S, F> for LensMutImpl<G, T> {
    open spec fn set_mut_requires(&self, s: &S, a: &F) -> bool {
        forall|m: &mut S| *m == *s ==> call_requires(self.setter(), (m, *a))
    }

    open spec fn set_mut_ensures(&self, old_s: &S, a: &F, new_s: &S) -> bool {
        true
    }

    fn set_mut(&self, s: &mut S, a: F) {
        (self.set)(s, a)
    }
}

impl<S, F, G: Fn(&S) -> F, T: Fn(&mut S, F)> LensMut<S, F> for LensMutImpl<G, T> {
}

} // verus!
