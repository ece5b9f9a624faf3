//! Tables from names to values, in which no name occurs twice.
use vstd::prelude::*;
use crate::symbol::SymbolUnqualified;

verus! {

/// Something that can be used as the name of a binding.
pub trait BindingName: Sized {
    /// The characters of the name.
    spec fn name_view(&self) -> Seq<char>;

    /// The name as a string.
    fn name_string(&self) -> (res: &String)
        ensures
            res@ == self.name_view(),
    ;

    /// A copy of the name.
    fn copy_name(&self) -> (res: Self)
        ensures
            res == *self,
    ;
}

/// Something whose copies are equal to it.
pub trait ExactClone: Sized {
    fn exact_clone(&self) -> (res: Self)
        ensures
            res == *self,
    ;
}

impl BindingName for SymbolUnqualified {
    open spec fn name_view(&self) -> Seq<char> {
        self@
    }

    fn name_string(&self) -> (res: &String) {
        self.name_as_string()
    }

    fn copy_name(&self) -> (res: Self) {
        SymbolUnqualified(self.0.clone())
    }
}

impl BindingName for String {
    open spec fn name_view(&self) -> Seq<char> {
        self@
    }

    fn name_string(&self) -> (res: &String) {
        self
    }

    fn copy_name(&self) -> (res: Self) {
        self.clone()
    }
}

impl ExactClone for usize {
    fn exact_clone(&self) -> (res: Self) {
        *self
    }
}

impl ExactClone for String {
    fn exact_clone(&self) -> (res: Self) {
        self.clone()
    }
}

impl ExactClone for SymbolUnqualified {
    fn exact_clone(&self) -> (res: Self) {
        SymbolUnqualified(self.0.clone())
    }
}

impl<T> ExactClone for std::sync::Arc<T> {
    fn exact_clone(&self) -> (res: Self) {
        self.clone()
    }
}

/// The map that a list of bindings describes; a later binding of a name
/// replaces an earlier one.
pub open spec fn bindings_map<K: BindingName, V>(entries: Seq<(K, V)>) -> Map<Seq<char>, V>
    decreases entries.len(),
{
    if entries.len() == 0 {
        Map::empty()
    } else {
        bindings_map(entries.drop_last()).insert(entries.last().0.name_view(), entries.last().1)
    }
}

/// No name is bound twice.
pub open spec fn names_unique<K: BindingName, V>(entries: Seq<(K, V)>) -> bool {
    forall|i: int, j: int|
        0 <= i < entries.len() && 0 <= j < entries.len() && i != j
            ==> #[trigger] entries[i].0.name_view() != #[trigger] entries[j].0.name_view()
}

/// What the bindings of a list look up, entry by entry.
pub proof fn lemma_bindings_map<K: BindingName, V>(entries: Seq<(K, V)>)
    requires
        names_unique(entries),
    ensures
        forall|k: Seq<char>| #[trigger] bindings_map(entries).contains_key(k)
            <==> exists|i: int| 0 <= i < entries.len() && entries[i].0.name_view() == k,
        forall|i: int| 0 <= i < entries.len() ==>
            #[trigger] bindings_map(entries)[entries[i].0.name_view()] == entries[i].1,
        bindings_map(entries).dom().finite(),
        bindings_map(entries).dom().len() == entries.len(),
    decreases entries.len(),
{
    if entries.len() > 0 {
        let rest = entries.drop_last();
        assert(names_unique(rest)) by {
            assert forall|i: int, j: int|
                0 <= i < rest.len() && 0 <= j < rest.len() && i != j
                    implies #[trigger] rest[i].0.name_view() != #[trigger] rest[j].0.name_view() by {
                assert(rest[i] == entries[i] && rest[j] == entries[j]);
            }
        }
        lemma_bindings_map(rest);
        let last = entries.last();
        let n = entries.len() - 1;
        assert forall|k: Seq<char>| #[trigger] bindings_map(entries).contains_key(k)
            <==> exists|i: int| 0 <= i < entries.len() && entries[i].0.name_view() == k by {
            if bindings_map(entries).contains_key(k) {
                if k == last.0.name_view() {
                    assert(entries[n].0.name_view() == k);
                } else {
                    assert(bindings_map(rest).contains_key(k));
                    let i = choose|i: int| 0 <= i < rest.len() && rest[i].0.name_view() == k;
                    assert(entries[i] == rest[i]);
                }
            }
            if exists|i: int| 0 <= i < entries.len() && entries[i].0.name_view() == k {
                let i = choose|i: int| 0 <= i < entries.len() && entries[i].0.name_view() == k;
                if i < n {
                    assert(rest[i] == entries[i]);
                }
            }
        }
        assert forall|i: int| 0 <= i < entries.len() implies
            #[trigger] bindings_map(entries)[entries[i].0.name_view()] == entries[i].1 by {
            if i < n {
                assert(rest[i] == entries[i]);
                assert(entries[i].0.name_view() != entries[n].0.name_view());
            }
        }
        assert(!bindings_map(rest).contains_key(last.0.name_view())) by {
            if bindings_map(rest).contains_key(last.0.name_view()) {
                let i = choose|i: int| 0 <= i < rest.len() && rest[i].0.name_view() == last.0.name_view();
                assert(rest[i] == entries[i]);
                assert(entries[i].0.name_view() != entries[n].0.name_view());
            }
        }
    }
}

/// A table from names to values, in which no name occurs twice.
pub struct Bindings<K: BindingName, V> {
    pub(crate) entries: Vec<(K, V)>,
}

impl<K: BindingName, V> View for Bindings<K, V> {
    type V = Map<Seq<char>, V>;

    closed spec fn view(&self) -> Map<Seq<char>, V> {
        bindings_map(self.entries@)
    }
}

impl<K: BindingName, V> Bindings<K, V> {
    #[verifier::type_invariant]
    closed spec fn well_formed(self) -> bool {
        names_unique(self.entries@)
    }

    /// An empty table.
    pub fn new_empty() -> (res: Self)
        ensures
            res@ == Map::<Seq<char>, V>::empty(),
    {
        Bindings { entries: Vec::new() }
    }

    /// The position of the binding of `name`, if it is bound.
    fn find(&self, name: &String) -> (res: Option<usize>)
        ensures
            match res {
                Some(i) => i < self.entries@.len() && self.entries@[i as int].0.name_view() == name@,
                None => forall|i: int| 0 <= i < self.entries@.len() ==> #[trigger] self.entries@[i].0.name_view() != name@,
            },
    {
        let mut i: usize = 0;
        while i < self.entries.len()
            invariant
                0 <= i <= self.entries@.len(),
                forall|k: int| 0 <= k < i ==> #[trigger] self.entries@[k].0.name_view() != name@,
            decreases self.entries@.len() - i,
        {
            if *self.entries[i].0.name_string() == *name {
                return Some(i);
            }
            i += 1;
        }
        None
    }

    /// The number of names bound.
    pub fn len(&self) -> (res: usize)
        ensures
            res == self@.dom().len(),
    {
        proof {
            use_type_invariant(self);
            lemma_bindings_map(self.entries@);
        }
        self.entries.len()
    }

    pub fn is_empty(&self) -> (res: bool)
        ensures
            res == (self@.dom().len() == 0),
    {
        self.len() == 0
    }

    /// Whether `name` is bound.
    pub fn contains(&self, name: &str) -> (res: bool)
        ensures
            res == self@.contains_key(name@),
    {
        proof {
            use_type_invariant(self);
            lemma_bindings_map(self.entries@);
        }
        let name = name.to_owned();
        let found = self.find(&name);
        proof {
            if let Some(i) = found {
                assert(self.entries@[i as int].0.name_view() == name@);
            }
        }
        found.is_some()
    }

    /// What `name` is bound to, if it is bound.
    pub fn get(&self, name: &str) -> (res: Option<&V>)
        ensures
            match res {
                Some(v) => self@.contains_key(name@) && *v == self@[name@],
                None => !self@.contains_key(name@),
            },
    {
        proof {
            use_type_invariant(self);
            lemma_bindings_map(self.entries@);
        }
        let name = name.to_owned();
        match self.find(&name) {
            Some(i) => Some(&self.entries[i].1),
            None => None,
        }
    }

    /// Binds `name` to `value`, replacing what it was bound to.
    pub fn insert(&mut self, name: K, value: V)
        ensures
            final(self)@ == old(self)@.insert(name.name_view(), value),
            old(self)@.dom().finite(),
            final(self)@.dom().len() == old(self)@.dom().len()
                + (if old(self)@.contains_key(name.name_view()) { 0int } else { 1int }),
    {
        proof {
            use_type_invariant(&*self);
            lemma_bindings_map(self.entries@);
        }
        let ghost before = self@;
        let ghost key = name.name_view();
        self.insert_entry(name, value);
        proof {
            assert(self@.dom() =~= before.dom().insert(key));
        }
    }

    /// Binds `name` to `value` in the list of entries.
    fn insert_entry(&mut self, name: K, value: V)
        ensures
            final(self)@ == old(self)@.insert(name.name_view(), value),
    {
        proof {
            use_type_invariant(&*self);
            lemma_bindings_map(self.entries@);
        }
        let found = self.find(name.name_string());
        match found {
            Some(i) => {
                let ghost old_entries = self.entries@;
                let ghost key = name.name_view();
                let mut entries: Vec<(K, V)> = Vec::new();
                std::mem::swap(&mut entries, &mut self.entries);
                entries.set(i, (name, value));
                proof {
                    let s = entries@;
                    assert(names_unique(s)) by {
                        assert forall|p: int, q: int|
                            0 <= p < s.len() && 0 <= q < s.len() && p != q
                                implies #[trigger] s[p].0.name_view() != #[trigger] s[q].0.name_view() by {
                            assert(s[p].0.name_view() == old_entries[p].0.name_view());
                            assert(s[q].0.name_view() == old_entries[q].0.name_view());
                        }
                    }
                    lemma_bindings_map(s);
                    assert(bindings_map(s) =~= bindings_map(old_entries).insert(key, value)) by {
                        assert forall|k: Seq<char>| #[trigger] bindings_map(s).contains_key(k)
                            == bindings_map(old_entries).insert(key, value).contains_key(k) by {
                            if bindings_map(old_entries).contains_key(k) {
                                let j = choose|j: int| 0 <= j < old_entries.len() && old_entries[j].0.name_view() == k;
                                assert(s[j].0.name_view() == k);
                            }
                        }
                        assert forall|k: Seq<char>| #[trigger] bindings_map(s).contains_key(k)
                            implies bindings_map(s)[k] == bindings_map(old_entries).insert(key, value)[k] by {
                            let j = choose|j: int| 0 <= j < s.len() && s[j].0.name_view() == k;
                            if j != i {
                                assert(s[j] == old_entries[j]);
                            }
                        }
                    }
                }
                self.entries = entries;
            },
            None => {
                let ghost old_entries = self.entries@;
                let ghost key = name.name_view();
                let mut entries: Vec<(K, V)> = Vec::new();
                std::mem::swap(&mut entries, &mut self.entries);
                entries.push((name, value));
                proof {
                    let s = entries@;
                    assert(s.drop_last() =~= old_entries);
                    assert(names_unique(s)) by {
                        assert forall|p: int, q: int|
                            0 <= p < s.len() && 0 <= q < s.len() && p != q
                                implies #[trigger] s[p].0.name_view() != #[trigger] s[q].0.name_view() by {
                            if p < old_entries.len() && q < old_entries.len() {
                                assert(s[p] == old_entries[p] && s[q] == old_entries[q]);
                            } else if p < old_entries.len() {
                                assert(s[p] == old_entries[p]);
                            } else {
                                assert(s[q] == old_entries[q]);
                            }
                        }
                    }
                }
                self.entries = entries;
            },
        }
    }

    /// Unbinds `name`, giving back what it was bound to.
    pub fn remove(&mut self, name: &str) -> (res: Option<V>)
        ensures
            final(self)@ == old(self)@.remove(name@),
            match res {
                Some(v) => old(self)@.contains_key(name@) && v == old(self)@[name@],
                None => !old(self)@.contains_key(name@),
            },
    {
        proof {
            use_type_invariant(&*self);
            lemma_bindings_map(self.entries@);
        }
        let name = name.to_owned();
        match self.find(&name) {
            Some(i) => {
                let ghost old_entries = self.entries@;
                let mut entries: Vec<(K, V)> = Vec::new();
                std::mem::swap(&mut entries, &mut self.entries);
                let (_, v) = entries.remove(i);
                proof {
                    let s = entries@;
                    assert(s =~= old_entries.remove(i as int));
                    assert(names_unique(s)) by {
                        assert forall|p: int, q: int|
                            0 <= p < s.len() && 0 <= q < s.len() && p != q
                                implies #[trigger] s[p].0.name_view() != #[trigger] s[q].0.name_view() by {
                            let pp = if p < i { p } else { p + 1 };
                            let qq = if q < i { q } else { q + 1 };
                            assert(s[p] == old_entries[pp] && s[q] == old_entries[qq]);
                        }
                    }
                    lemma_bindings_map(s);
                    assert(bindings_map(s) =~= bindings_map(old_entries).remove(name@)) by {
                        assert forall|k: Seq<char>| #[trigger] bindings_map(s).contains_key(k)
                            == bindings_map(old_entries).remove(name@).contains_key(k) by {
                            if bindings_map(old_entries).remove(name@).contains_key(k) {
                                let j = choose|j: int| 0 <= j < old_entries.len() && old_entries[j].0.name_view() == k;
                                assert(j != i);
                                let jj = if j < i { j } else { j - 1 };
                                assert(s[jj] == old_entries[j]);
                            }
                            if bindings_map(s).contains_key(k) {
                                let j = choose|j: int| 0 <= j < s.len() && s[j].0.name_view() == k;
                                let jj = if j < i { j } else { j + 1 };
                                assert(s[j] == old_entries[jj]);
                            }
                        }
                        assert forall|k: Seq<char>| #[trigger] bindings_map(s).contains_key(k)
                            implies bindings_map(s)[k] == bindings_map(old_entries).remove(name@)[k] by {
                            let j = choose|j: int| 0 <= j < s.len() && s[j].0.name_view() == k;
                            let jj = if j < i { j } else { j + 1 };
                            assert(s[j] == old_entries[jj]);
                        }
                    }
                }
                self.entries = entries;
                Some(v)
            },
            None => {
                proof {
                    assert(old(self)@.remove(name@) =~= old(self)@);
                }
                None
            },
        }
    }

    /// The bindings as pairs of name and value, in the order their names
    /// were first bound.
    pub fn entries_list(&self) -> (res: Vec<(String, V)>)
        where V: ExactClone
        ensures
            res@.len() == self@.dom().len(),
            forall|i: int| 0 <= i < res@.len() ==> #[trigger] self@.contains_key(res@[i].0@)
                && self@[res@[i].0@] == res@[i].1,
            forall|k: Seq<char>| #[trigger] self@.contains_key(k)
                ==> exists|i: int| 0 <= i < res@.len() && res@[i].0@ == k,
            forall|i: int, j: int| 0 <= i < res@.len() && 0 <= j < res@.len() && i != j
                ==> #[trigger] res@[i].0@ != #[trigger] res@[j].0@,
    {
        proof {
            use_type_invariant(self);
            lemma_bindings_map(self.entries@);
        }
        let mut res: Vec<(String, V)> = Vec::new();
        let mut i: usize = 0;
        while i < self.entries.len()
            invariant
                0 <= i <= self.entries@.len(),
                res@.len() == i,
                names_unique(self.entries@),
                forall|k: int| 0 <= k < i ==> #[trigger] res@[k].0@ == self.entries@[k].0.name_view()
                    && res@[k].1 == self.entries@[k].1,
            decreases self.entries@.len() - i,
        {
            let name = self.entries[i].0.name_string().clone();
            res.push((name, self.entries[i].1.exact_clone()));
            i += 1;
        }
        proof {
            assert forall|k: Seq<char>| #[trigger] self@.contains_key(k)
                implies exists|i: int| 0 <= i < res@.len() && res@[i].0@ == k by {
                let j = choose|j: int| 0 <= j < self.entries@.len() && self.entries@[j].0.name_view() == k;
                assert(res@[j].0@ == k);
            }
            assert forall|p: int, q: int| 0 <= p < res@.len() && 0 <= q < res@.len() && p != q
                implies #[trigger] res@[p].0@ != #[trigger] res@[q].0@ by {
                assert(self.entries@[p].0.name_view() != self.entries@[q].0.name_view());
            }
        }
        res
    }

    /// The bound values, in the order their names were first bound.
    pub fn values(&self) -> (res: Vec<V>)
        where V: ExactClone
        ensures
            res@.len() == self@.dom().len(),
            forall|v: V| #[trigger] res@.contains(v) <==> exists|k: Seq<char>| self@.contains_key(k) && self@[k] == v,
    {
        proof {
            use_type_invariant(self);
            lemma_bindings_map(self.entries@);
        }
        let mut res: Vec<V> = Vec::new();
        let mut i: usize = 0;
        while i < self.entries.len()
            invariant
                0 <= i <= self.entries@.len(),
                res@.len() == i,
                forall|k: int| 0 <= k < i ==> #[trigger] res@[k] == self.entries@[k].1,
            decreases self.entries@.len() - i,
        {
            res.push(self.entries[i].1.exact_clone());
            i += 1;
        }
        proof {
            assert forall|v: V| #[trigger] res@.contains(v) implies exists|k: Seq<char>| self@.contains_key(k) && self@[k] == v by {
                let j = choose|j: int| 0 <= j < res@.len() && res@[j] == v;
                let k = self.entries@[j].0.name_view();
                assert(self@.contains_key(k) && self@[k] == self.entries@[j].1);
            }
            assert forall|v: V| (exists|k: Seq<char>| self@.contains_key(k) && self@[k] == v) implies #[trigger] res@.contains(v) by {
                let k = choose|k: Seq<char>| self@.contains_key(k) && self@[k] == v;
                let j = choose|j: int| 0 <= j < self.entries@.len() && self.entries@[j].0.name_view() == k;
                assert(res@[j] == v);
            }
        }
        res
    }
}

impl<K: BindingName, V: ExactClone> Clone for Bindings<K, V> {
    fn clone(&self) -> (res: Self)
        ensures
            res@ == self@,
    {
        proof {
            use_type_invariant(self);
        }
        let mut entries: Vec<(K, V)> = Vec::new();
        let mut i: usize = 0;
        while i < self.entries.len()
            invariant
                0 <= i <= self.entries@.len(),
                entries@ == self.entries@.take(i as int),
            decreases self.entries@.len() - i,
        {
            entries.push((self.entries[i].0.copy_name(), self.entries[i].1.exact_clone()));
            i += 1;
            assert(entries@ =~= self.entries@.take(i as int));
        }
        assert(entries@ =~= self.entries@);
        Bindings { entries }
    }
}

} // verus!
