//! Maps: associations from keys to values, written `{k v}`.
use vstd::prelude::*;
use crate::value::{PtrValue, Value, deref_value, entry_matched_in, entry_matches_in, value_eq, values_equal};

verus! {

/// An association of values to keys, in which a key equal to one already
/// held replaces its entry rather than being added.
#[derive(Debug)]
pub struct ValueMap(pub(crate) Vec<(PtrValue, PtrValue)>);

impl View for ValueMap {
    type V = Seq<(PtrValue, PtrValue)>;

    closed spec fn view(&self) -> Seq<(PtrValue, PtrValue)> {
        self.0@
    }
}

/// The view is the sequence the value holds.
pub(crate) proof fn lemma_map_view(x: ValueMap)
    ensures
        x@ == x.0@,
{
}

/// The first index at or after `i` of an entry of `s` whose key equals `k`,
/// or -1 if there is none.
pub open spec fn first_key_from(s: Seq<(PtrValue, PtrValue)>, k: Value, i: int) -> int
    decreases s.len() - i,
{
    if i < 0 || i >= s.len() {
        -1
    } else if value_eq(*s[i].0, k) {
        i
    } else {
        first_key_from(s, k, i + 1)
    }
}

/// `s` with `k` associated to `v`: the entry of an equal key is replaced in
/// place, otherwise the entry goes at the end.
pub open spec fn map_assoc(s: Seq<(PtrValue, PtrValue)>, k: PtrValue, v: PtrValue) -> Seq<(PtrValue, PtrValue)> {
    let i = first_key_from(s, *k, 0);
    if i >= 0 {
        s.update(i, (k, v))
    } else {
        s.push((k, v))
    }
}

/// `s` with the entries of `pairs` associated in order.
pub open spec fn assoc_all(s: Seq<(PtrValue, PtrValue)>, pairs: Seq<(PtrValue, PtrValue)>) -> Seq<(PtrValue, PtrValue)>
    decreases pairs.len(),
{
    if pairs.len() == 0 {
        s
    } else {
        map_assoc(assoc_all(s, pairs.drop_last()), pairs.last().0, pairs.last().1)
    }
}

/// `s` without the entry whose key equals `k`, if there is one.
pub open spec fn map_dissoc(s: Seq<(PtrValue, PtrValue)>, k: Value) -> Seq<(PtrValue, PtrValue)> {
    let i = first_key_from(s, k, 0);
    if i >= 0 {
        s.remove(i)
    } else {
        s
    }
}

/// What the entry of a key equal to `k` associates it to, if there is one.
pub open spec fn map_lookup(s: Seq<(PtrValue, PtrValue)>, k: Value) -> Option<PtrValue> {
    let i = first_key_from(s, k, 0);
    if i >= 0 {
        Some(s[i].1)
    } else {
        None
    }
}

/// What `first_key_from` gives, index by index.
pub proof fn lemma_first_key_from(s: Seq<(PtrValue, PtrValue)>, k: Value, i: int)
    requires
        0 <= i <= s.len(),
    ensures
        first_key_from(s, k, i) == -1 ==> forall|j: int| i <= j < s.len() ==> !value_eq(#[trigger] *s[j].0, k),
        first_key_from(s, k, i) != -1 ==> i <= first_key_from(s, k, i) < s.len()
            && value_eq(*s[first_key_from(s, k, i)].0, k)
            && forall|j: int| i <= j < first_key_from(s, k, i) ==> !value_eq(#[trigger] *s[j].0, k),
    decreases s.len() - i,
{
    if i < s.len() {
        lemma_first_key_from(s, k, i + 1);
    }
}

/// Finds the first entry whose key equals `k`.
pub(crate) fn find_key(s: &Vec<(PtrValue, PtrValue)>, k: &Value) -> (res: Option<usize>)
    ensures
        match res {
            Some(i) => i < s@.len() && first_key_from(s@, *k, 0) == i,
            None => first_key_from(s@, *k, 0) == -1,
        },
{
    let mut i: usize = 0;
    while i < s.len()
        invariant
            0 <= i <= s@.len(),
            first_key_from(s@, *k, 0) == first_key_from(s@, *k, i as int),
        decreases s@.len() - i,
    {
        if values_equal(&*s[i].0, k) {
            return Some(i);
        }
        i += 1;
    }
    None
}

impl ValueMap {
    /// An empty map.
    pub fn new_empty() -> (res: Self)
        ensures
            res@ == Seq::<(PtrValue, PtrValue)>::empty(),
    {
        ValueMap(Vec::new())
    }

    /// A map of the given entries; for equal keys the later entry wins.
    pub fn new(pairs: Vec<(PtrValue, PtrValue)>) -> (res: Self)
        ensures
            res@ == assoc_all(Seq::empty(), pairs@),
    {
        let mut res = ValueMap::new_empty();
        let mut i: usize = 0;
        while i < pairs.len()
            invariant
                0 <= i <= pairs@.len(),
                res@ == assoc_all(Seq::empty(), pairs@.take(i as int)),
            decreases pairs@.len() - i,
        {
            let (k, v) = (pairs[i].0.clone(), pairs[i].1.clone());
            res.insert(k, v);
            proof {
                assert(pairs@.take(i as int + 1).drop_last() =~= pairs@.take(i as int));
            }
            i += 1;
        }
        assert(pairs@.take(pairs@.len() as int) =~= pairs@);
        res
    }

    /// Associates `key` to `value`, replacing the entry of an equal key if
    /// there is one.
    pub fn insert(&mut self, key: PtrValue, value: PtrValue)
        ensures
            final(self)@ == map_assoc(old(self)@, key, value),
    {
        match find_key(&self.0, &*key) {
            Some(i) => {
                self.0.set(i, (key, value));
            },
            None => {
                self.0.push((key, value));
            },
        }
    }

    /// Removes the entry whose key equals `key`, giving back its value.
    pub fn remove(&mut self, key: &Value) -> (res: Option<PtrValue>)
        ensures
            final(self)@ == map_dissoc(old(self)@, *key),
            res == map_lookup(old(self)@, *key),
    {
        match find_key(&self.0, key) {
            Some(i) => {
                let (_, v) = self.0.remove(i);
                Some(v)
            },
            None => None,
        }
    }

    /// What `key` is associated to, if it is held.
    pub fn get(&self, key: &Value) -> (res: Option<PtrValue>)
        ensures
            res == map_lookup(self@, *key),
    {
        match find_key(&self.0, key) {
            Some(i) => Some(self.0[i].1.clone()),
            None => None,
        }
    }

    /// What `key` is associated to, or `default` if it is not held.
    pub fn get_or(&self, key: &Value, default: PtrValue) -> (res: PtrValue)
        ensures
            res == match map_lookup(self@, *key) {
                Some(v) => v,
                None => default,
            },
    {
        match self.get(key) {
            Some(v) => v,
            None => default,
        }
    }

    /// What `key` is associated to, or `nil` if it is not held.
    pub fn get_or_nil(&self, key: &Value) -> (res: PtrValue)
        ensures
            map_lookup(self@, *key) matches Some(v) ==> res == v,
            map_lookup(self@, *key) is None ==> *res == Value::Nil(None),
    {
        match self.get(key) {
            Some(v) => v,
            None => Value::nil_ptr(),
        }
    }

    /// Whether an entry's key equals `key`.
    pub fn contains_key(&self, key: &Value) -> (res: bool)
        ensures
            res == (first_key_from(self@, *key, 0) != -1),
    {
        find_key(&self.0, key).is_some()
    }

    /// The number of entries.
    pub fn len(&self) -> (res: usize)
        ensures
            res == self@.len(),
    {
        self.0.len()
    }

    /// Whether the map is empty.
    pub fn is_empty(&self) -> (res: bool)
        ensures
            res == (self@.len() == 0),
    {
        self.0.len() == 0
    }

    /// The entries, in the order their keys were first associated.
    pub fn entries(&self) -> (res: Vec<(PtrValue, PtrValue)>)
        ensures
            res@ == self@,
    {
        let mut res: Vec<(PtrValue, PtrValue)> = Vec::new();
        let mut i: usize = 0;
        while i < self.0.len()
            invariant
                0 <= i <= self@.len(),
                res@ == self@.take(i as int),
            decreases self@.len() - i,
        {
            res.push((self.0[i].0.clone(), self.0[i].1.clone()));
            i += 1;
            assert(res@ =~= self@.take(i as int));
        }
        assert(res@ =~= self@);
        res
    }

    /// The keys, in entry order.
    pub fn keys(&self) -> (res: Vec<PtrValue>)
        ensures
            res@.len() == self@.len(),
            forall|i: int| 0 <= i < res@.len() ==> #[trigger] res@[i] == self@[i].0,
    {
        let mut res: Vec<PtrValue> = Vec::new();
        let mut i: usize = 0;
        while i < self.0.len()
            invariant
                0 <= i <= self@.len(),
                res@.len() == i,
                forall|j: int| 0 <= j < i ==> #[trigger] res@[j] == self@[j].0,
            decreases self@.len() - i,
        {
            res.push(self.0[i].0.clone());
            i += 1;
        }
        res
    }

    /// The values, in entry order.
    pub fn values(&self) -> (res: Vec<PtrValue>)
        ensures
            res@.len() == self@.len(),
            forall|i: int| 0 <= i < res@.len() ==> #[trigger] res@[i] == self@[i].1,
    {
        let mut res: Vec<PtrValue> = Vec::new();
        let mut i: usize = 0;
        while i < self.0.len()
            invariant
                0 <= i <= self@.len(),
                res@.len() == i,
                forall|j: int| 0 <= j < i ==> #[trigger] res@[j] == self@[j].1,
            decreases self@.len() - i,
        {
            res.push(self.0[i].1.clone());
            i += 1;
        }
        res
    }

    /// A copy of this map, with the same entries.
    pub fn clone_exact(&self) -> (res: Self)
        ensures
            res@ == self@,
    {
        ValueMap(self.entries())
    }
}

/// A lookup after an association of a key gives the associated value.
pub proof fn lemma_assoc_then_lookup(s: Seq<(PtrValue, PtrValue)>, k: PtrValue, v: PtrValue)
    requires
        value_eq(*k, *k),
    ensures
        map_lookup(map_assoc(s, k, v), *k) == Some(v),
{
    lemma_first_key_from(s, deref_value(k), 0);
    let t = map_assoc(s, k, v);
    lemma_first_key_from(t, deref_value(k), 0);
    let i = first_key_from(s, deref_value(k), 0);
    let j = first_key_from(t, deref_value(k), 0);
    if i >= 0 {
        assert(t[i] == (k, v));
        assert(value_eq(*t[i].0, deref_value(k)));
        if j != i {
            assert(j < i);
            assert(t[j] == s[j]);
        }
    } else {
        assert(t[s.len() as int] == (k, v));
        assert(value_eq(*t[s.len() as int].0, deref_value(k)));
        if j != s.len() {
            assert(t[j] == s[j]);
        }
    }
}

/// After a key is removed, no entry's key equals it, provided no two
/// entries had keys equal to it.
pub proof fn lemma_dissoc_then_absent(s: Seq<(PtrValue, PtrValue)>, k: Value)
    requires
        forall|a: int, b: int| 0 <= a < s.len() && 0 <= b < s.len() && a != b
            && value_eq(#[trigger] *s[a].0, k) ==> !value_eq(#[trigger] *s[b].0, k),
    ensures
        map_lookup(map_dissoc(s, k), k) is None,
{
    lemma_first_key_from(s, k, 0);
    let t = map_dissoc(s, k);
    lemma_first_key_from(t, k, 0);
    let i = first_key_from(s, k, 0);
    let j = first_key_from(t, k, 0);
    if j >= 0 {
        if i >= 0 {
            let jj = if j < i { j } else { j + 1 };
            assert(t[j] == s[jj]);
        } else {
            assert(t[j] == s[j]);
        }
    }
}

impl PartialEq for ValueMap {
    fn eq(&self, other: &Self) -> (res: bool) {
        crate::value::maps_equal(&self.0, &other.0)
    }
}

impl vstd::std_specs::cmp::PartialEqSpecImpl for ValueMap {
    open spec fn obeys_eq_spec() -> bool {
        true
    }

    open spec fn eq_spec(&self, other: &Self) -> bool {
        self@.len() == other@.len() && crate::value::entries_all_contained(self@, other@, self@.len() as int)
            && crate::value::entries_all_covered(self@, other@, other@.len() as int)
    }
}

impl Clone for ValueMap {
    fn clone(&self) -> (res: Self)
        ensures
            res@ == self@,
    {
        self.clone_exact()
    }
}

/// The pairs that a sequence of keys and values makes, two by two.
pub open spec fn value_pairs_of(vals: Seq<PtrValue>) -> Seq<(PtrValue, PtrValue)> {
    Seq::new(vals.len() / 2, |k: int| (vals[2 * k], vals[2 * k + 1]))
}

/// The entries that a sequence of keys and values makes, two by two.
pub(crate) fn pair_up(vals: &Vec<PtrValue>) -> (res: Vec<(PtrValue, PtrValue)>)
    ensures
        res@ == value_pairs_of(vals@),
{
    let mut out: Vec<(PtrValue, PtrValue)> = Vec::new();
    let mut k: usize = 0;
    while k < vals.len() / 2
        invariant
            0 <= k <= vals@.len() / 2,
            out@ =~= value_pairs_of(vals@).take(k as int),
        decreases vals@.len() / 2 - k,
    {
        out.push((vals[2 * k].clone(), vals[2 * k + 1].clone()));
        k += 1;
        assert(out@ =~= value_pairs_of(vals@).take(k as int));
    }
    assert(out@ =~= value_pairs_of(vals@));
    out
}


/// What the last entry of `p` whose key equals `k` associates it to, if
/// there is one.
pub open spec fn last_value(p: Seq<(PtrValue, PtrValue)>, k: Value) -> Option<PtrValue>
    decreases p.len(),
{
    if p.len() == 0 {
        None
    } else if value_eq(*p.last().0, k) {
        Some(p.last().1)
    } else {
        last_value(p.drop_last(), k)
    }
}

/// A lookup after an association gives the associated value for a key
/// equal to the one associated, and what it gave before for any other key.
pub proof fn lemma_lookup_after_assoc(t: Seq<(PtrValue, PtrValue)>, k2: PtrValue, v2: PtrValue, k: Value)
    ensures
        map_lookup(map_assoc(t, k2, v2), k) == if value_eq(*k2, k) { Some(v2) } else { map_lookup(t, k) },
{
    let key2 = deref_value(k2);
    lemma_first_key_from(t, key2, 0);
    lemma_first_key_from(t, k, 0);
    let u = map_assoc(t, k2, v2);
    lemma_first_key_from(u, k, 0);
    let i2 = first_key_from(t, key2, 0);
    let i = first_key_from(t, k, 0);
    let j = first_key_from(u, k, 0);
    let n = t.len() as int;
    let at = if i2 >= 0 { i2 } else { n };
    assert(u[at] == (k2, v2));
    if value_eq(key2, k) {
        crate::value::law_value_eq_symmetric(key2, k);
        assert(value_eq(deref_value(u[at].0), k));
        assert(j != -1 && j <= at);
        if j < at {
            assert(u[j] == t[j]);
            crate::value::law_value_eq_transitive(deref_value(u[j].0), k, key2);
        }
    } else {
        if i2 >= 0 && value_eq(deref_value(t[i2].0), k) {
            crate::value::law_value_eq_symmetric(deref_value(t[i2].0), key2);
            crate::value::law_value_eq_transitive(key2, deref_value(t[i2].0), k);
        }
        if i >= 0 {
            assert(u[i] == t[i]);
            assert(value_eq(deref_value(u[i].0), k));
            if j < i {
                assert(j != at);
                assert(u[j] == t[j]);
            }
        } else if j >= 0 {
            assert(j != at);
            assert(u[j] == t[j]);
        }
    }
}

/// A map made by associating the entries of `p` in order gives, for a key,
/// what the last entry of `p` with an equal key associates.
pub proof fn lemma_lookup_assoc_all(p: Seq<(PtrValue, PtrValue)>, k: Value)
    ensures
        map_lookup(assoc_all(Seq::empty(), p), k) == last_value(p, k),
    decreases p.len(),
{
    if p.len() > 0 {
        lemma_lookup_assoc_all(p.drop_last(), k);
        lemma_lookup_after_assoc(assoc_all(Seq::empty(), p.drop_last()), p.last().0, p.last().1, k);
    }
}

/// The last entry with a key equal to `k` is the one at `i`, where no entry
/// after it has such a key.
pub proof fn lemma_last_value_at(p: Seq<(PtrValue, PtrValue)>, k: Value, i: int)
    requires
        0 <= i < p.len(),
        value_eq(*p[i].0, k),
        forall|j: int| i < j < p.len() ==> !value_eq(#[trigger] *p[j].0, k),
    ensures
        last_value(p, k) == Some(p[i].1),
    decreases p.len(),
{
    if i < p.len() - 1 {
        assert(!value_eq(deref_value(p[p.len() - 1].0), k));
        lemma_last_value_at(p.drop_last(), k, i);
    }
}


/// Removing a key leaves what the map gives for any key not equal to it.
pub proof fn lemma_lookup_after_dissoc(s: Seq<(PtrValue, PtrValue)>, k: Value, k2: Value)
    requires
        !value_eq(k2, k),
    ensures
        map_lookup(map_dissoc(s, k), k2) == map_lookup(s, k2),
{
    lemma_first_key_from(s, k, 0);
    lemma_first_key_from(s, k2, 0);
    let i = first_key_from(s, k, 0);
    if i >= 0 {
        let u = s.remove(i);
        lemma_first_key_from(u, k2, 0);
        let i2 = first_key_from(s, k2, 0);
        let j = first_key_from(u, k2, 0);
        if value_eq(deref_value(s[i].0), k2) {
            crate::value::law_value_eq_symmetric(deref_value(s[i].0), k2);
            crate::value::law_value_eq_transitive(k2, deref_value(s[i].0), k);
        }
        if i2 >= 0 {
            assert(i2 != i);
            let pos = if i2 < i { i2 } else { i2 - 1 };
            assert(u[pos] == s[i2]);
            assert(value_eq(deref_value(u[pos].0), k2));
            if j < pos {
                let orig = if j < i { j } else { j + 1 };
                assert(u[j] == s[orig]);
            }
        } else if j >= 0 {
            let orig = if j < i { j } else { j + 1 };
            assert(u[j] == s[orig]);
        }
    }
}

/// Maps are equal without regard to order: two maps are equal exactly when
/// they have as many entries, each entry of the first has an entry in the
/// second with an equal key and an equal value, and each entry of the second
/// one in the first, whatever their metadata.
pub proof fn law_value_eq_maps(x: ValueMap, mx: Option<std::sync::Arc<ValueMap>>, y: ValueMap, my: Option<std::sync::Arc<ValueMap>>)
    ensures
        value_eq(Value::ValueMap(x, mx), Value::ValueMap(y, my)) <==> {
            &&& x@.len() == y@.len()
            &&& forall|i: int| 0 <= i < x@.len() ==> #[trigger] entry_matched_in(x@[i], y@)
            &&& forall|j: int| 0 <= j < y@.len() ==> #[trigger] entry_matches_in(x@, y@[j])
        },
{
    crate::value::lemma_map_eq_unfold(x, mx, y, my);
    crate::value::lemma_entries_all_contained_forall(x@, y@, x@.len() as int);
    crate::value::lemma_entries_all_covered_forall(x@, y@, y@.len() as int);
}

} // verus!
