//! Metadata: the optional map that every value carries.
use vstd::prelude::*;
use std::sync::Arc;
use crate::map::{ValueMap, assoc_all, find_key, first_key_from, lemma_first_key_from, lemma_last_value_at, lemma_lookup_assoc_all, map_lookup};
use crate::printer::{Piece, map_pieces, meta_pieces, pieces_view, text};
use crate::value::{PtrValue, Value, deref_value};

verus! {

/// No metadata.
pub fn new_unset() -> (res: Option<ValueMap>)
    ensures
        res is None,
{
    None
}

/// Metadata made of `map`.
pub fn new(map: ValueMap) -> (res: Option<ValueMap>)
    ensures
        res == Some(map),
{
    Some(map)
}

/// The entries of metadata `s` with `key` associated to `value`: the entry
/// of an equal key keeps its key and takes the value, otherwise the entry
/// goes at the end.
pub open spec fn meta_assoc_entries(s: Seq<(PtrValue, PtrValue)>, key: PtrValue, value: PtrValue) -> Seq<(PtrValue, PtrValue)> {
    let i = first_key_from(s, *key, 0);
    if i >= 0 {
        s.update(i, (s[i].0, value))
    } else {
        s.push((key, value))
    }
}

/// The entries of the metadata that `assoc` makes.
pub open spec fn spec_meta_assoc(meta: Option<Arc<ValueMap>>, key: PtrValue, value: PtrValue) -> Seq<(PtrValue, PtrValue)> {
    match meta {
        None => seq![(key, value)],
        Some(m) => assoc_all(Seq::empty(), meta_assoc_entries(m@, key, value)),
    }
}

/// What metadata associates to `key`, if anything.
pub open spec fn spec_meta_get(meta: Option<Arc<ValueMap>>, key: Value) -> Option<PtrValue> {
    match meta {
        None => None,
        Some(m) => map_lookup(m@, key),
    }
}

/// Operations on metadata.
pub trait MetaOps {
    /// The entries of the metadata `assoc` makes of this metadata.
    spec fn assoc_entries(&self, key: PtrValue, value: PtrValue) -> Seq<(PtrValue, PtrValue)>;

    /// What this metadata associates to `key`, if anything.
    spec fn get_spec(&self, key: Value) -> Option<PtrValue>;

    /// New metadata with `key` associated to `value`; this metadata is left
    /// as it is.
    fn assoc(&self, key: PtrValue, value: PtrValue) -> (res: Option<Arc<ValueMap>>)
        ensures
            res matches Some(m) && m@ == self.assoc_entries(key, value),
    ;

    /// What this metadata associates to `key`, if anything.
    fn get(&self, key: &PtrValue) -> (res: Option<PtrValue>)
        ensures
            res == self.get_spec(deref_value(*key)),
    ;
}

impl MetaOps for Option<Arc<ValueMap>> {
    open spec fn assoc_entries(&self, key: PtrValue, value: PtrValue) -> Seq<(PtrValue, PtrValue)> {
        spec_meta_assoc(*self, key, value)
    }

    open spec fn get_spec(&self, key: Value) -> Option<PtrValue> {
        spec_meta_get(*self, key)
    }

    fn assoc(&self, key: PtrValue, value: PtrValue) -> (res: Option<Arc<ValueMap>>) {
        match self {
            None => {
                let mut map = ValueMap::new_empty();
                map.insert(key, value);
                assert(map@ =~= seq![(key, value)]);
                Some(Arc::new(map))
            },
            Some(existing) => {
                let mut entries = existing.entries();
                match find_key(&entries, &*key) {
                    Some(i) => {
                        let k = entries[i].0.clone();
                        entries.set(i, (k, value));
                    },
                    None => {
                        entries.push((key, value));
                    },
                }
                Some(Arc::new(ValueMap::new(entries)))
            },
        }
    }

    fn get(&self, key: &PtrValue) -> (res: Option<PtrValue>) {
        match self {
            None => None,
            Some(map) => map.get(&**key),
        }
    }
}

/// After `key` is associated to `value`, the metadata gives `value` for a
/// key equal to `key`: where `key` equals itself, and the metadata before
/// had no two entries whose keys equal it.
pub proof fn law_assoc_then_get(meta: Option<Arc<ValueMap>>, key: PtrValue, value: PtrValue)
    requires
        crate::value::value_eq(*key, *key),
        meta matches Some(m) ==> forall|a: int, b: int| 0 <= a < b < m@.len()
            ==> !(crate::value::value_eq(#[trigger] *m@[a].0, *key) && crate::value::value_eq(#[trigger] *m@[b].0, *key)),
    ensures
        map_lookup(spec_meta_assoc(meta, key, value), *key) == Some(value),
{
    let k = deref_value(key);
    match meta {
        None => {
            let s = spec_meta_assoc(meta, key, value);
            assert(s[0] == (key, value));
            assert(first_key_from(s, k, 0) == 0);
        },
        Some(m) => {
            let s = m@;
            let s2 = meta_assoc_entries(s, key, value);
            lemma_lookup_assoc_all(s2, k);
            lemma_first_key_from(s, k, 0);
            let i = first_key_from(s, k, 0);
            if i >= 0 {
                assert forall|j: int| i < j < s2.len() implies !crate::value::value_eq(#[trigger] deref_value(s2[j].0), k) by {
                    assert(s2[j] == s[j]);
                    assert(crate::value::value_eq(deref_value(s[i].0), k));
                }
                lemma_last_value_at(s2, k, i);
            } else {
                assert(s2[s.len() as int] == (key, value));
                lemma_last_value_at(s2, k, s.len() as int);
            }
        },
    }
}

/// The printed form of metadata: `{}` where there is none, the map as
/// printed otherwise.
pub fn display_meta(meta: &Option<Arc<ValueMap>>) -> (res: Vec<Piece>)
    ensures
        meta is None ==> pieces_view(res@) == text(seq!['{', '}']),
        meta matches Some(m) ==> pieces_view(res@) == map_pieces(**m),
{
    meta_pieces(meta)
}

} // verus!
