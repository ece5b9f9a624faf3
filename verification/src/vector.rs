//! Vectors: indexed sequences of values, written `[a b c]`.
use vstd::prelude::*;
use std::sync::Arc;
use crate::value::{PtrValue, Value, elem_at, elem_or, seq_pairwise_eq, values_equal_seq};

pub mod optics;
pub mod partials;

verus! {

/// An indexed sequence of values.
#[derive(Debug)]
pub struct Vector(pub(crate) Vec<PtrValue>);

impl View for Vector {
    type V = Seq<PtrValue>;

    closed spec fn view(&self) -> Seq<PtrValue> {
        self.0@
    }
}

/// The view is the sequence the value holds.
pub(crate) proof fn lemma_vector_view(x: Vector)
    ensures
        x@ == x.0@,
{
}

impl Vector {
    /// Adds `value` after the other elements.
    pub fn push_back(&mut self, value: PtrValue)
        ensures
            final(self)@ == old(self)@.push(value),
    {
        self.0.push(value);
    }

    /// Replaces the element at index `n`, which must exist, by `value`.
    pub fn set_nth(&mut self, n: usize, value: PtrValue)
        requires
            n < old(self)@.len(),
        ensures
            final(self)@ == old(self)@.update(n as int, value),
    {
        self.0.set(n, value);
    }
}

impl Vector {
    /// An empty vector.
    pub fn new_empty() -> (res: Self)
        ensures
            res@ == Seq::<PtrValue>::empty(),
    {
        Vector(Vec::new())
    }

    /// A vector of the given elements, in order.
    pub fn from_vec(elements: Vec<PtrValue>) -> (res: Self)
        ensures
            res@ == elements@,
    {
        Vector(elements)
    }

    /// An empty vector, as a value.
    pub fn new_empty_value() -> (res: Value)
        ensures
            res matches Value::Vector(l, None) && l@ == Seq::<PtrValue>::empty(),
    {
        Value::Vector(Vector::new_empty(), None)
    }

    /// An empty vector, as a pointer to a value.
    pub fn new_empty_value_ptr() -> (res: PtrValue)
        ensures
            *res matches Value::Vector(l, None) && l@ == Seq::<PtrValue>::empty(),
    {
        Arc::new(Vector::new_empty_value())
    }

    /// A vector of the given elements, as a value.
    pub fn new_value(elements: Vec<PtrValue>) -> (res: Value)
        ensures
            res matches Value::Vector(l, None) && l@ == elements@,
    {
        Value::Vector(Vector(elements), None)
    }

    /// A vector of the given elements, as a pointer to a value.
    pub fn new_value_ptr(elements: Vec<PtrValue>) -> (res: PtrValue)
        ensures
            *res matches Value::Vector(l, None) && l@ == elements@,
    {
        Arc::new(Vector::new_value(elements))
    }

    /// This vector, as a value without metadata.
    pub fn into_value(self) -> (res: Value)
        ensures
            res == Value::Vector(self, None),
    {
        Value::Vector(self, None)
    }

    /// This vector, as a pointer to a value without metadata.
    pub fn into_value_ptr(self) -> (res: PtrValue)
        ensures
            *res == Value::Vector(self, None),
    {
        Arc::new(Value::Vector(self, None))
    }

    /// The number of elements.
    pub fn len(&self) -> (res: usize)
        ensures
            res == self@.len(),
    {
        self.0.len()
    }

    /// Whether there are no elements.
    pub fn is_empty(&self) -> (res: bool)
        ensures
            res == (self@.len() == 0),
    {
        self.0.len() == 0
    }

    /// A copy of this vector, with the same elements.
    pub fn clone_exact(&self) -> (res: Self)
        ensures
            res@ == self@,
    {
        Vector(self.items())
    }

    /// The elements, in order.
    pub fn items(&self) -> (res: Vec<PtrValue>)
        ensures
            res@ == self@,
    {
        let mut res: Vec<PtrValue> = Vec::new();
        let mut i: usize = 0;
        while i < self.0.len()
            invariant
                0 <= i <= self@.len(),
                res@ == self@.take(i as int),
            decreases self@.len() - i,
        {
            res.push(self.0[i].clone());
            i += 1;
            assert(res@ =~= self@.take(i as int));
        }
        assert(res@ =~= self@);
        res
    }

    /// The vector without its first element; empty if it is empty.
    pub fn rest(&self) -> (res: Self)
        ensures
            self@.len() == 0 ==> res@ == Seq::<PtrValue>::empty(),
            self@.len() > 0 ==> res@ == self@.drop_first(),
    {
        let mut res: Vec<PtrValue> = Vec::new();
        if self.0.len() == 0 {
            return Vector(res);
        }
        let mut i: usize = 1;
        while i < self.0.len()
            invariant
                1 <= i <= self@.len(),
                res@ == self@.subrange(1, i as int),
            decreases self@.len() - i,
        {
            res.push(self.0[i].clone());
            i += 1;
            assert(res@ =~= self@.subrange(1, i as int));
        }
        assert(res@ =~= self@.drop_first());
        Vector(res)
    }

    /// The element at index `n`, if there is one.
    pub fn get_nth(&self, n: usize) -> (res: Option<PtrValue>)
        ensures
            res == elem_at(self@, n as int),
    {
        if n < self.0.len() {
            Some(self.0[n].clone())
        } else {
            None
        }
    }

    /// The element at index `n`, if there is one, by reference.
    pub fn get_nth_ref(&self, n: usize) -> (res: Option<&Value>)
        ensures
            match res {
                Some(v) => n < self@.len() && *v == *self@[n as int],
                None => n >= self@.len(),
            },
    {
        if n < self.0.len() {
            Some(&*self.0[n])
        } else {
            None
        }
    }

    /// The element at index `n`, or `or` if there is none.
    pub fn get_nth_or(&self, n: usize, or: PtrValue) -> (res: PtrValue)
        ensures
            res == elem_or(self@, n as int, or),
    {
        match self.get_nth(n) {
            Some(v) => v,
            None => or,
        }
    }

    /// The element at index `n`, or `nil` if there is none.
    pub fn get_nth_or_nil(&self, n: usize) -> (res: PtrValue)
        ensures
            n < self@.len() ==> res == self@[n as int],
            n >= self@.len() ==> *res == Value::Nil(None),
    {
        match self.get_nth(n) {
            Some(v) => v,
            None => Value::nil_ptr(),
        }
    }

    /// The element at index `n`, which must exist.
    pub fn get_nth_or_panic(&self, n: usize) -> (res: PtrValue)
        requires
            n < self@.len(),
        ensures
            res == self@[n as int],
    {
        self.0[n].clone()
    }

    /// The first element, if there is one.
    pub fn get_first(&self) -> (res: Option<PtrValue>)
        ensures
            res == elem_at(self@, 0),
    {
        self.get_nth(0)
    }

    /// The first element, if there is one, by reference.
    pub fn get_first_ref(&self) -> (res: Option<&Value>)
        ensures
            match res {
                Some(v) => 0 < self@.len() && *v == *self@[0],
                None => self@.len() == 0,
            },
    {
        self.get_nth_ref(0)
    }

    /// The first element, or `default` if there is none.
    pub fn get_first_or(&self, default: PtrValue) -> (res: PtrValue)
        ensures
            res == elem_or(self@, 0, default),
    {
        self.get_nth_or(0, default)
    }

    /// The first element, or `nil` if there is none.
    pub fn get_first_or_nil(&self) -> (res: PtrValue)
        ensures
            0 < self@.len() ==> res == self@[0],
            self@.len() == 0 ==> *res == Value::Nil(None),
    {
        self.get_nth_or_nil(0)
    }

    /// The first element, which must exist.
    pub fn get_first_or_panic(&self) -> (res: PtrValue)
        requires
            0 < self@.len(),
        ensures
            res == self@[0],
    {
        self.get_nth_or_panic(0)
    }

    /// The second element, if there is one.
    pub fn get_second(&self) -> (res: Option<PtrValue>)
        ensures
            res == elem_at(self@, 1),
    {
        self.get_nth(1)
    }

    /// The second element, if there is one, by reference.
    pub fn get_second_ref(&self) -> (res: Option<&Value>)
        ensures
            match res {
                Some(v) => 1 < self@.len() && *v == *self@[1],
                None => self@.len() <= 1,
            },
    {
        self.get_nth_ref(1)
    }

    /// The second element, or `default` if there is none.
    pub fn get_second_or(&self, default: PtrValue) -> (res: PtrValue)
        ensures
            res == elem_or(self@, 1, default),
    {
        self.get_nth_or(1, default)
    }

    /// The second element, or `nil` if there is none.
    pub fn get_second_or_nil(&self) -> (res: PtrValue)
        ensures
            1 < self@.len() ==> res == self@[1],
            self@.len() <= 1 ==> *res == Value::Nil(None),
    {
        self.get_nth_or_nil(1)
    }

    /// The second element, which must exist.
    pub fn get_second_or_panic(&self) -> (res: PtrValue)
        requires
            1 < self@.len(),
        ensures
            res == self@[1],
    {
        self.get_nth_or_panic(1)
    }

    /// The last element, if there is one.
    pub fn get_last(&self) -> (res: Option<PtrValue>)
        ensures
            res == elem_at(self@, self@.len() - 1),
    {
        let n = self.0.len();
        if n == 0 {
            None
        } else {
            self.get_nth(n - 1)
        }
    }

    /// The last element, if there is one, by reference.
    pub fn get_last_ref(&self) -> (res: Option<&Value>)
        ensures
            match res {
                Some(v) => 0 < self@.len() && *v == *self@.last(),
                None => self@.len() == 0,
            },
    {
        let n = self.0.len();
        if n == 0 {
            None
        } else {
            self.get_nth_ref(n - 1)
        }
    }

    /// The last element, or `default` if there is none.
    pub fn get_last_or(&self, default: PtrValue) -> (res: PtrValue)
        ensures
            res == elem_or(self@, self@.len() - 1, default),
    {
        match self.get_last() {
            Some(v) => v,
            None => default,
        }
    }

    /// The last element, or `nil` if there is none.
    pub fn get_last_or_nil(&self) -> (res: PtrValue)
        ensures
            0 < self@.len() ==> res == self@.last(),
            self@.len() == 0 ==> *res == Value::Nil(None),
    {
        match self.get_last() {
            Some(v) => v,
            None => Value::nil_ptr(),
        }
    }

    /// The last element, which must exist.
    pub fn get_last_or_panic(&self) -> (res: PtrValue)
        requires
            0 < self@.len(),
        ensures
            res == self@.last(),
    {
        self.get_nth_or_panic(self.0.len() - 1)
    }
}

impl Vector {
    /// The element at index `n`, or what `else_fn` gives for the whole
    /// vector where there is none.
    pub fn get_nth_or_else<F: FnOnce(&Self) -> PtrValue>(&self, n: usize, else_fn: F) -> (res: PtrValue)
        requires
            n >= self@.len() ==> else_fn.requires((self,)),
        ensures
            n < self@.len() ==> res == self@[n as int],
            n >= self@.len() ==> else_fn.ensures((self,), res),
    {
        match self.get_nth(n) {
            Some(v) => v,
            None => else_fn(self),
        }
    }

    /// The first element, or what `else_fn` gives for the whole vector where
    /// there is none.
    pub fn get_first_or_else<F: FnOnce(&Self) -> PtrValue>(&self, else_fn: F) -> (res: PtrValue)
        requires
            self@.len() == 0 ==> else_fn.requires((self,)),
        ensures
            0 < self@.len() ==> res == self@[0],
            self@.len() == 0 ==> else_fn.ensures((self,), res),
    {
        self.get_nth_or_else(0, else_fn)
    }

    /// The second element, or what `else_fn` gives for the whole vector where
    /// there is none.
    pub fn get_second_or_else<F: FnOnce(&Self) -> PtrValue>(&self, else_fn: F) -> (res: PtrValue)
        requires
            self@.len() <= 1 ==> else_fn.requires((self,)),
        ensures
            1 < self@.len() ==> res == self@[1],
            self@.len() <= 1 ==> else_fn.ensures((self,), res),
    {
        self.get_nth_or_else(1, else_fn)
    }

    /// The last element, or what `else_fn` gives for the whole vector where
    /// there is none.
    pub fn get_last_or_else<F: FnOnce(&Self) -> PtrValue>(&self, else_fn: F) -> (res: PtrValue)
        requires
            self@.len() == 0 ==> else_fn.requires((self,)),
        ensures
            0 < self@.len() ==> res == self@.last(),
            self@.len() == 0 ==> else_fn.ensures((self,), res),
    {
        match self.get_last() {
            Some(v) => v,
            None => else_fn(self),
        }
    }

    /// The elements after the first, in order.
    pub fn collect_rest(&self) -> (res: Vec<PtrValue>)
        ensures
            self@.len() == 0 ==> res@ == Seq::<PtrValue>::empty(),
            0 < self@.len() ==> res@ == self@.drop_first(),
    {
        self.rest().0
    }
}

impl From<Vec<PtrValue>> for Vector {
    fn from(elements: Vec<PtrValue>) -> (res: Self) {
        Vector(elements)
    }
}

impl vstd::std_specs::convert::FromSpecImpl<Vec<PtrValue>> for Vector {
    open spec fn obeys_from_spec() -> bool {
        true
    }

    closed spec fn from_spec(elements: Vec<PtrValue>) -> Self {
        Vector(elements)
    }
}

impl Clone for Vector {
    fn clone(&self) -> (res: Self)
        ensures
            res@ == self@,
    {
        self.clone_exact()
    }
}

impl PartialEq for Vector {
    fn eq(&self, other: &Self) -> (res: bool) {
        values_equal_seq(&self.0, &other.0)
    }
}

impl vstd::std_specs::cmp::PartialEqSpecImpl for Vector {
    open spec fn obeys_eq_spec() -> bool {
        true
    }

    open spec fn eq_spec(&self, other: &Self) -> bool {
        self@.len() == other@.len() && seq_pairwise_eq(self@, other@, self@.len() as int)
    }
}

} // verus!
