//! Sets: collections of distinct values, written `#{a b c}`.
use vstd::prelude::*;
use std::sync::Arc;
use crate::value::{PtrValue, Value, deref_value, value_eq, values_equal};

verus! {

/// A collection of values in which an element equal to one already held
/// replaces it rather than being added.
#[derive(Debug)]
pub struct ValueSet(pub(crate) Vec<PtrValue>);

impl View for ValueSet {
    type V = Seq<PtrValue>;

    closed spec fn view(&self) -> Seq<PtrValue> {
        self.0@
    }
}

/// The view is the sequence the value holds.
pub(crate) proof fn lemma_set_view(x: ValueSet)
    ensures
        x@ == x.0@,
{
}

/// The first index at or after `i` at which `s` holds a value equal to `x`,
/// or -1 if there is none.
pub open spec fn first_eq_from(s: Seq<PtrValue>, x: Value, i: int) -> int
    decreases s.len() - i,
{
    if i < 0 || i >= s.len() {
        -1
    } else if value_eq(*s[i], x) {
        i
    } else {
        first_eq_from(s, x, i + 1)
    }
}

/// `s` with `x` added: an equal element is replaced in place, otherwise `x`
/// goes at the end.
pub open spec fn set_insert(s: Seq<PtrValue>, x: PtrValue) -> Seq<PtrValue> {
    let i = first_eq_from(s, *x, 0);
    if i >= 0 {
        s.update(i, x)
    } else {
        s.push(x)
    }
}

/// `s` with the elements of `items` added in order.
pub open spec fn set_insert_all(s: Seq<PtrValue>, items: Seq<PtrValue>) -> Seq<PtrValue>
    decreases items.len(),
{
    if items.len() == 0 {
        s
    } else {
        set_insert(set_insert_all(s, items.drop_last()), items.last())
    }
}

/// The elements of `items`, each kept once.
pub open spec fn dedup_values(items: Seq<PtrValue>) -> Seq<PtrValue> {
    set_insert_all(Seq::empty(), items)
}

/// `s` without the element equal to `x`, if there is one.
pub open spec fn set_remove(s: Seq<PtrValue>, x: Value) -> Seq<PtrValue> {
    let i = first_eq_from(s, x, 0);
    if i >= 0 {
        s.remove(i)
    } else {
        s
    }
}

/// What `first_eq_from` gives, index by index.
pub proof fn lemma_first_eq_from(s: Seq<PtrValue>, x: Value, i: int)
    requires
        0 <= i <= s.len(),
    ensures
        first_eq_from(s, x, i) == -1 ==> forall|j: int| i <= j < s.len() ==> !value_eq(#[trigger] *s[j], x),
        first_eq_from(s, x, i) != -1 ==> i <= first_eq_from(s, x, i) < s.len()
            && value_eq(*s[first_eq_from(s, x, i)], x)
            && forall|j: int| i <= j < first_eq_from(s, x, i) ==> !value_eq(#[trigger] *s[j], x),
    decreases s.len() - i,
{
    if i < s.len() {
        lemma_first_eq_from(s, x, i + 1);
    }
}

/// Finds the first position of an element equal to `x`.
pub(crate) fn find_eq(s: &Vec<PtrValue>, x: &Value) -> (res: Option<usize>)
    ensures
        match res {
            Some(i) => i < s@.len() && first_eq_from(s@, *x, 0) == i,
            None => first_eq_from(s@, *x, 0) == -1,
        },
{
    let mut i: usize = 0;
    while i < s.len()
        invariant
            0 <= i <= s@.len(),
            first_eq_from(s@, *x, 0) == first_eq_from(s@, *x, i as int),
        decreases s@.len() - i,
    {
        if values_equal(&*s[i], x) {
            return Some(i);
        }
        i += 1;
    }
    None
}

impl ValueSet {
    /// An empty set.
    pub fn new_empty() -> (res: Self)
        ensures
            res@ == Seq::<PtrValue>::empty(),
    {
        ValueSet(Vec::new())
    }

    /// A set of the given elements, each kept once.
    pub fn new(items: Vec<PtrValue>) -> (res: Self)
        ensures
            res@ == dedup_values(items@),
    {
        let mut res = ValueSet::new_empty();
        let mut i: usize = 0;
        while i < items.len()
            invariant
                0 <= i <= items@.len(),
                res@ == set_insert_all(Seq::empty(), items@.take(i as int)),
            decreases items@.len() - i,
        {
            res.insert(items[i].clone());
            proof {
                assert(items@.take(i as int + 1).drop_last() =~= items@.take(i as int));
            }
            i += 1;
        }
        assert(items@.take(items@.len() as int) =~= items@);
        res
    }

    /// Adds `value`, replacing an equal element if there is one.
    pub fn insert(&mut self, value: PtrValue)
        ensures
            final(self)@ == set_insert(old(self)@, value),
    {
        match find_eq(&self.0, &*value) {
            Some(i) => {
                self.0.set(i, value);
            },
            None => {
                self.0.push(value);
            },
        }
    }

    /// Removes the element equal to `value`, if there is one, giving it
    /// back.
    pub fn remove(&mut self, value: &Value) -> (res: Option<PtrValue>)
        ensures
            final(self)@ == set_remove(old(self)@, *value),
            match res {
                Some(v) => first_eq_from(old(self)@, *value, 0) >= 0
                    && v == old(self)@[first_eq_from(old(self)@, *value, 0)],
                None => first_eq_from(old(self)@, *value, 0) == -1,
            },
    {
        match find_eq(&self.0, value) {
            Some(i) => Some(self.0.remove(i)),
            None => None,
        }
    }

    /// A set of the given elements, each kept once, as a value.
    pub fn new_value(items: Vec<PtrValue>) -> (res: Value)
        ensures
            res matches Value::ValueSet(s, None) && s@ == dedup_values(items@),
    {
        Value::ValueSet(ValueSet::new(items), None)
    }

    /// A set of the given elements, each kept once, as a pointer to a value.
    pub fn new_value_ptr(items: Vec<PtrValue>) -> (res: PtrValue)
        ensures
            *res matches Value::ValueSet(s, None) && s@ == dedup_values(items@),
    {
        Arc::new(ValueSet::new_value(items))
    }

    /// Whether the set holds an element equal to `value`.
    pub fn contains(&self, value: &Value) -> (res: bool)
        ensures
            res == (first_eq_from(self@, *value, 0) != -1),
    {
        find_eq(&self.0, value).is_some()
    }

    /// The element equal to `value`, if there is one.
    pub fn get(&self, value: &Value) -> (res: Option<PtrValue>)
        ensures
            match res {
                Some(v) => first_eq_from(self@, *value, 0) >= 0 && v == self@[first_eq_from(self@, *value, 0)],
                None => first_eq_from(self@, *value, 0) == -1,
            },
    {
        proof {
            lemma_first_eq_from(self@, *value, 0);
        }
        match find_eq(&self.0, value) {
            Some(i) => Some(self.0[i].clone()),
            None => None,
        }
    }

    /// The element equal to `value`, or `default` if there is none.
    pub fn get_or(&self, value: &Value, default: PtrValue) -> (res: PtrValue)
        ensures
            first_eq_from(self@, *value, 0) >= 0 ==> res == self@[first_eq_from(self@, *value, 0)],
            first_eq_from(self@, *value, 0) == -1 ==> res == default,
    {
        match self.get(value) {
            Some(v) => v,
            None => default,
        }
    }

    /// The element equal to `value`, or `nil` if there is none.
    pub fn get_or_nil(&self, value: &Value) -> (res: PtrValue)
        ensures
            first_eq_from(self@, *value, 0) >= 0 ==> res == self@[first_eq_from(self@, *value, 0)],
            first_eq_from(self@, *value, 0) == -1 ==> *res == Value::Nil(None),
    {
        match self.get(value) {
            Some(v) => v,
            None => Value::nil_ptr(),
        }
    }

    /// The element equal to `value`, which must be held.
    pub fn get_or_panic(&self, value: &Value) -> (res: PtrValue)
        requires
            first_eq_from(self@, *value, 0) != -1,
        ensures
            res == self@[first_eq_from(self@, *value, 0)],
    {
        proof {
            lemma_first_eq_from(self@, *value, 0);
        }
        match self.get(value) {
            Some(v) => v,
            None => vstd::pervasive::unreached(),
        }
    }

    /// The number of elements.
    pub fn len(&self) -> (res: usize)
        ensures
            res == self@.len(),
    {
        self.0.len()
    }

    /// Whether the set is empty.
    pub fn is_empty(&self) -> (res: bool)
        ensures
            res == (self@.len() == 0),
    {
        self.0.len() == 0
    }

    /// The elements, in the order they were first added.
    pub fn items(&self) -> (res: Vec<PtrValue>)
        ensures
            res@ == self@,
    {
        let mut res: Vec<PtrValue> = Vec::new();
        let mut i: usize = 0;
        while i < self.0.len()
            invariant
                0 <= i <= self@.len(),
                res@ == self@.take(i as int),
            decreases self@.len() - i,
        {
            res.push(self.0[i].clone());
            i += 1;
            assert(res@ =~= self@.take(i as int));
        }
        assert(res@ =~= self@);
        res
    }

    /// A copy of this set, with the same elements.
    pub fn clone_exact(&self) -> (res: Self)
        ensures
            res@ == self@,
    {
        ValueSet(self.items())
    }
}

/// Inserting an element equal to one already held keeps the number of
/// elements.
pub proof fn lemma_insert_present_keeps_len(s: Seq<PtrValue>, x: PtrValue)
    requires
        first_eq_from(s, *x, 0) != -1,
    ensures
        set_insert(s, x).len() == s.len(),
{
    lemma_first_eq_from(s, deref_value(x), 0);
}

/// After an insertion, the inserted element is found in the set.
pub proof fn lemma_insert_then_found(s: Seq<PtrValue>, x: PtrValue)
    requires
        value_eq(*x, *x),
    ensures
        first_eq_from(set_insert(s, x), *x, 0) != -1,
        set_insert(s, x)[first_eq_from(set_insert(s, x), *x, 0)] == x,
{
    lemma_first_eq_from(s, deref_value(x), 0);
    let t = set_insert(s, x);
    lemma_first_eq_from(t, deref_value(x), 0);
    let i = first_eq_from(s, deref_value(x), 0);
    let k = first_eq_from(t, deref_value(x), 0);
    if i >= 0 {
        assert(t[i] == x);
        assert(value_eq(*t[i], deref_value(x)));
        if k != i {
            assert(k < i);
            assert(t[k] == s[k]);
        }
    } else {
        assert(t[s.len() as int] == x);
        assert(value_eq(*t[s.len() as int], deref_value(x)));
        if k != s.len() {
            assert(t[k] == s[k]);
        }
    }
}

impl PartialEq for ValueSet {
    fn eq(&self, other: &Self) -> (res: bool) {
        crate::value::sets_equal(&self.0, &other.0)
    }
}

impl vstd::std_specs::cmp::PartialEqSpecImpl for ValueSet {
    open spec fn obeys_eq_spec() -> bool {
        true
    }

    open spec fn eq_spec(&self, other: &Self) -> bool {
        self@.len() == other@.len() && crate::value::seq_all_contained(self@, other@, self@.len() as int)
            && crate::value::seq_all_covered(self@, other@, other@.len() as int)
    }
}

impl Clone for ValueSet {
    fn clone(&self) -> (res: Self)
        ensures
            res@ == self@,
    {
        self.clone_exact()
    }
}


/// After an element is removed, no element equals it, provided no two
/// elements equalled it.
pub proof fn lemma_remove_then_absent(s: Seq<PtrValue>, x: Value)
    requires
        forall|a: int, b: int| 0 <= a < b < s.len()
            ==> !(value_eq(#[trigger] *s[a], x) && value_eq(#[trigger] *s[b], x)),
    ensures
        first_eq_from(set_remove(s, x), x, 0) == -1,
{
    lemma_first_eq_from(s, x, 0);
    let i = first_eq_from(s, x, 0);
    if i >= 0 {
        let u = s.remove(i);
        lemma_first_eq_from(u, x, 0);
        let j = first_eq_from(u, x, 0);
        if j >= 0 {
            if j < i {
                assert(u[j] == s[j]);
            } else {
                assert(u[j] == s[j + 1]);
                assert(value_eq(deref_value(s[i]), x));
            }
        }
    }
}

} // verus!
