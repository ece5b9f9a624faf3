//! What the core functions of the interpreter do with their arguments:
//! reading and updating collections, and the namespace functions.  Each
//! takes the arguments of a call and gives its result, or the error that
//! the call fails with.
use vstd::prelude::*;
use std::sync::Arc;
use crate::float::{Float, ieee_difference, ieee_from_int, ieee_sum};
use crate::environment::{same_namespaces, Environment};
use crate::handle::Handle;
use crate::list::List;
use crate::namespace::{Namespace, PtrNamespace};
use crate::var::{PtrVar, Var};
use crate::symbol::{Symbol, SymbolUnqualified};
use crate::map::{ValueMap, first_key_from, map_assoc, map_dissoc, map_lookup};
use crate::value::{PtrValue, Value, clone_meta, deref_value};
use crate::vector::Vector;

verus! {

/// Why a call of a core function fails.
#[derive(Debug)]
pub enum BuiltinError {
    /// `assoc` was given an odd number of key and value arguments.
    OddKeyValueArguments,
    /// `assoc` was given something other than `nil`, a map or a vector.
    NotAssociative,
    /// A key into a vector is not an integer.
    KeyNotInteger,
    /// An index into a vector is past its end.
    IndexOutOfBounds(i64),
    /// A path of keys is not a vector.
    NotAVector,
    /// An argument that must be a symbol is not.
    NotASymbol,
    /// An argument that must be a string is not.
    NotAString,
    /// An argument that must be a map is not.
    NotAMap,
    /// An argument that must be a number is not.
    NotANumber,
    /// An argument that must be a namespace handle is not.
    NotANamespaceHandle,
    /// No namespace of this name exists.
    NoSuchNamespace(SymbolUnqualified),
    /// Integer arithmetic went out of the range of 64-bit integers.
    IntegerOverflow,
    /// `clojure.core/*ns*` does not hold a namespace handle.
    NoCurrentNamespace,
    /// An argument that must be a list, vector, set or map is not.
    NotACollection,
}

/// The key and value pairs of the arguments of `assoc`, after the first.
pub open spec fn assoc_pairs(args: Seq<PtrValue>) -> Seq<(PtrValue, PtrValue)> {
    Seq::new(((args.len() - 1) / 2) as nat, |k: int| (args[1 + 2 * k], args[2 + 2 * k]))
}

/// The entries of `s` with each pair of `pairs` associated in order.
pub open spec fn assoc_pairs_into(s: Seq<(PtrValue, PtrValue)>, pairs: Seq<(PtrValue, PtrValue)>) -> Seq<(PtrValue, PtrValue)>
    decreases pairs.len(),
{
    if pairs.len() == 0 {
        s
    } else {
        map_assoc(assoc_pairs_into(s, pairs.drop_last()), pairs.last().0, pairs.last().1)
    }
}

/// `(assoc m k v ...)`: associates each key to the value after it, in a
/// map, or in a new map for `nil`; a vector is given back as it is.
pub fn assoc(args: &Vec<PtrValue>) -> (res: Result<PtrValue, BuiltinError>)
    requires
        args@.len() >= 3,
    ensures
        (args@.len() - 1) % 2 != 0 ==> res is Err && res->Err_0 is OddKeyValueArguments,
        (args@.len() - 1) % 2 == 0 ==> match *args@[0] {
            Value::Nil(meta) => res matches Ok(r) && (*r matches Value::ValueMap(m, meta2)
                && meta2 == meta && m@ == assoc_pairs_into(Seq::empty(), assoc_pairs(args@))),
            Value::ValueMap(map, meta) => res matches Ok(r) && (*r matches Value::ValueMap(m, meta2)
                && meta2 == meta && m@ == assoc_pairs_into(map@, assoc_pairs(args@))),
            Value::Vector(_, _) => res == Ok::<PtrValue, BuiltinError>(args@[0]),
            _ => res is Err && res->Err_0 is NotAssociative,
        },
{
    if (args.len() - 1) % 2 != 0 {
        return Err(BuiltinError::OddKeyValueArguments);
    }
    let (mut map, meta) = match &*args[0] {
        Value::Nil(meta) => (ValueMap::new_empty(), clone_meta(meta)),
        Value::ValueMap(map, meta) => (map.clone_exact(), clone_meta(meta)),
        Value::Vector(_, _) => {
            return Ok(args[0].clone());
        },
        _ => {
            return Err(BuiltinError::NotAssociative);
        },
    };
    let ghost start = map@;
    let ghost pairs = assoc_pairs(args@);
    let mut i: usize = 1;
    while i < args.len()
        invariant
            1 <= i <= args@.len(),
            (i - 1) % 2 == 0,
            (args@.len() - 1) % 2 == 0,
            pairs == assoc_pairs(args@),
            map@ == assoc_pairs_into(start, pairs.take(((i - 1) / 2) as int)),
        decreases args@.len() - i,
    {
        let k = args[i].clone();
        let v = args[i + 1].clone();
        map.insert(k, v);
        proof {
            let n = ((i - 1) / 2) as int;
            assert(pairs.take(n + 1).drop_last() =~= pairs.take(n));
            assert(pairs[n] == (args@[i as int], args@[i as int + 1]));
        }
        i += 2;
    }
    proof {
        assert(pairs.take(pairs.len() as int) =~= pairs);
    }
    Ok(Arc::new(Value::ValueMap(map, meta)))
}

/// The entries of `s` with each key of `keys` removed in order.
pub open spec fn dissoc_keys(s: Seq<(PtrValue, PtrValue)>, keys: Seq<PtrValue>) -> Seq<(PtrValue, PtrValue)>
    decreases keys.len(),
{
    if keys.len() == 0 {
        s
    } else {
        map_dissoc(dissoc_keys(s, keys.drop_last()), *keys.last())
    }
}

/// `(dissoc m k ...)`: removes each key from a map; anything else is given
/// back as it is.
pub fn dissoc(args: &Vec<PtrValue>) -> (res: PtrValue)
    requires
        args@.len() >= 2,
    ensures
        match *args@[0] {
            Value::ValueMap(map, meta) => *res matches Value::ValueMap(m, meta2) && meta2 == meta
                && m@ == dissoc_keys(map@, args@.drop_first()),
            _ => res == args@[0],
        },
{
    match &*args[0] {
        Value::ValueMap(map, meta) => {
            let mut m = map.clone_exact();
            let ghost keys = args@.drop_first();
            let mut i: usize = 1;
            while i < args.len()
                invariant
                    1 <= i <= args@.len(),
                    keys == args@.drop_first(),
                    m@ == dissoc_keys(map@, keys.take(i - 1)),
                decreases args@.len() - i,
            {
                let _ = m.remove(&*args[i]);
                proof {
                    assert(keys.take(i as int).drop_last() =~= keys.take(i - 1));
                }
                i += 1;
            }
            assert(keys.take(args@.len() - 1) =~= keys);
            Arc::new(Value::ValueMap(m, clone_meta(meta)))
        },
        _ => args[0].clone(),
    }
}

/// What `(get m k d)` gives, or the error it fails with.
pub open spec fn spec_get(m: Value, k: Value, d: Value) -> Result<Value, BuiltinError> {
    match m {
        Value::Nil(_) => Ok(m),
        Value::Vector(v, _) => match k {
            Value::Integer(i, _) => Ok(if 0 <= i < v@.len() {
                *v@[i as int]
            } else {
                d
            }),
            _ => Err(BuiltinError::KeyNotInteger),
        },
        Value::ValueMap(map, _) => Ok(match map_lookup(map@, k) {
            Some(x) => *x,
            None => d,
        }),
        _ => Ok(Value::Nil(None)),
    }
}

/// `(get m k d)`: the element of a vector at an integer index, or what a
/// map associates to a key, or `d` where there is none; `nil` for `nil`
/// and for anything else.
pub fn get(m: PtrValue, k: PtrValue, d: PtrValue) -> (res: Result<PtrValue, BuiltinError>)
    ensures
        match (res, spec_get(*m, *k, *d)) {
            (Ok(r), Ok(s)) => *r == s,
            (Err(e), Err(f)) => e == f,
            _ => false,
        },
{
    match &*m {
        Value::Nil(_) => Ok(m),
        Value::Vector(v, _) => match &*k {
            Value::Integer(i, _) => {
                let len = v.len();
                if *i < 0 {
                    Ok(d)
                } else if (*i as u64) >= (len as u64) {
                    Ok(d)
                } else {
                    Ok(v.get_nth_or_panic(*i as usize))
                }
            },
            _ => Err(BuiltinError::KeyNotInteger),
        },
        Value::ValueMap(map, _) => Ok(map.get_or(&*k, d)),
        _ => Ok(Value::nil_ptr()),
    }
}

/// `(get m k)`: as `(get m k nil)`.
pub fn get_or_nil(m: PtrValue, k: PtrValue) -> (res: Result<PtrValue, BuiltinError>)
    ensures
        match (res, spec_get(*m, *k, Value::Nil(None))) {
            (Ok(r), Ok(s)) => *r == s,
            (Err(e), Err(f)) => e == f,
            _ => false,
        },
{
    get(m, k, Value::nil_ptr())
}

/// What `(get-in m ks)` gives for the path `ks`: each key read in turn,
/// stopping at the first `nil`.
pub open spec fn spec_get_in(m: Value, ks: Seq<PtrValue>) -> Result<Value, BuiltinError>
    decreases ks.len(),
{
    if ks.len() == 0 || m is Nil {
        Ok(m)
    } else {
        match spec_get(m, *ks[0], Value::Nil(None)) {
            Ok(next) => spec_get_in(next, ks.drop_first()),
            Err(e) => Err(e),
        }
    }
}

/// `(get-in m ks)`: reads the keys of the vector `ks` in turn, stopping at
/// the first `nil`.
pub fn get_in(m: PtrValue, ks: PtrValue) -> (res: Result<PtrValue, BuiltinError>)
    ensures
        !(*m is Nil) && !(*ks is Vector) ==> res is Err && res->Err_0 is NotAVector,
        *m is Nil ==> res == Ok::<PtrValue, BuiltinError>(m),
        !(*m is Nil) && *ks is Vector ==> match (res, spec_get_in(*m, ks->Vector_0@)) {
            (Ok(r), Ok(s)) => *r == s,
            (Err(e), Err(f)) => e == f,
            _ => false,
        },
{
    if m.is_nil() {
        return Ok(m);
    }
    let path = match &*ks {
        Value::Vector(path, _) => path.items(),
        _ => {
            return Err(BuiltinError::NotAVector);
        },
    };
    let ghost full = path@;
    let ghost m0 = deref_value(m);
    assert(full.subrange(0, full.len() as int) =~= full);
    let mut v = m.clone();
    let mut i: usize = 0;
    while i < path.len()
        invariant
            0 <= i <= path@.len(),
            path@ == full,
            m0 == *m,
            !(m0 is Nil),
            *ks is Vector,
            full == ks->Vector_0@,
            spec_get_in(*v, full.subrange(i as int, full.len() as int)) == spec_get_in(m0, full),
        decreases path@.len() - i,
    {
        if v.is_nil() {
            proof {
                assert(spec_get_in(*v, full.subrange(i as int, full.len() as int)) == Ok::<Value, BuiltinError>(*v));
            }
            return Ok(v);
        }
        proof {
            assert(full.subrange(i as int, full.len() as int)[0] == path@[i as int]);
        }
        let next = match get_or_nil(v, path[i].clone()) {
            Ok(n) => n,
            Err(e) => {
                return Err(e);
            },
        };
        proof {
            assert(full.subrange(i as int, full.len() as int).drop_first() =~= full.subrange(i + 1, full.len() as int));
        }
        v = next;
        i += 1;
    }
    Ok(v)
}


/// What a map associates to `k`, or `nil` if nothing.
pub open spec fn lookup_or_nil(s: Seq<(PtrValue, PtrValue)>, k: Value) -> Value {
    match map_lookup(s, k) {
        Some(x) => *x,
        None => Value::Nil(None),
    }
}

/// Where the entry of `k` stands after `k` is associated in `s`.
pub open spec fn assoc_index(s: Seq<(PtrValue, PtrValue)>, k: Value) -> int {
    let i = first_key_from(s, k, 0);
    if i >= 0 {
        i
    } else {
        s.len() as int
    }
}

/// The error `assoc-in` fails with along the path `ks` from `m`, if any.
pub open spec fn assoc_in_error(m: Value, ks: Seq<PtrValue>) -> Option<BuiltinError>
    decreases ks.len(),
{
    if ks.len() == 0 {
        None
    } else {
        match m {
            Value::Nil(_) => assoc_in_error(Value::Nil(None), ks.drop_first()),
            Value::ValueMap(map, _) => assoc_in_error(lookup_or_nil(map@, *ks[0]), ks.drop_first()),
            Value::Vector(vec, _) => match *ks[0] {
                Value::Integer(i, _) => if 0 <= i < vec@.len() {
                    assoc_in_error(*vec@[i as int], ks.drop_first())
                } else {
                    Some(BuiltinError::IndexOutOfBounds(i))
                },
                _ => Some(BuiltinError::KeyNotInteger),
            },
            _ => None,
        }
    }
}

/// Whether `res` is what `assoc-in` makes of `m` by putting `v` at the end
/// of the path `ks`: `nil` becomes a map of one entry, a map associates the
/// key to what the rest of the path makes of its value there (or of `nil`),
/// a vector replaces the element at an index within it, and anything else
/// is kept.
pub open spec fn assoc_in_rel(m: Value, ks: Seq<PtrValue>, v: Value, res: Value) -> bool
    decreases ks.len(),
{
    if ks.len() == 0 {
        res == v
    } else {
        match m {
            Value::Nil(_) => match res {
                Value::ValueMap(mm, None) => {
                    &&& mm@.len() == 1
                    &&& mm@[0].0 == ks[0]
                    &&& assoc_in_rel(Value::Nil(None), ks.drop_first(), v, *mm@[0].1)
                },
                _ => false,
            },
            Value::ValueMap(map, meta) => match res {
                Value::ValueMap(mm, meta2) => {
                    let j = assoc_index(map@, *ks[0]);
                    &&& meta2 == meta
                    &&& 0 <= j < mm@.len()
                    &&& mm@ == map_assoc(map@, ks[0], mm@[j].1)
                    &&& assoc_in_rel(lookup_or_nil(map@, *ks[0]), ks.drop_first(), v, *mm@[j].1)
                },
                _ => false,
            },
            Value::Vector(vec, meta) => match (*ks[0], res) {
                (Value::Integer(i, _), Value::Vector(nv, meta2)) => {
                    &&& meta2 == meta
                    &&& 0 <= i < vec@.len()
                    &&& nv@ == vec@.update(i as int, nv@[i as int])
                    &&& assoc_in_rel(*vec@[i as int], ks.drop_first(), v, *nv@[i as int])
                },
                _ => false,
            },
            _ => res == m,
        }
    }
}

/// `assoc-in` along the part of the path from index `from` on.
fn assoc_in_path(m: PtrValue, ks: &Vec<PtrValue>, from: usize, v: PtrValue) -> (res: Result<PtrValue, BuiltinError>)
    requires
        from <= ks@.len(),
    ensures
        match res {
            Ok(r) => assoc_in_error(*m, ks@.subrange(from as int, ks@.len() as int)) is None
                && assoc_in_rel(*m, ks@.subrange(from as int, ks@.len() as int), *v, *r),
            Err(e) => assoc_in_error(*m, ks@.subrange(from as int, ks@.len() as int)) == Some(e),
        },
    decreases ks@.len() - from,
{
    let ghost path = ks@.subrange(from as int, ks@.len() as int);
    if from == ks.len() {
        return Ok(v);
    }
    let ghost rest = ks@.subrange(from + 1, ks@.len() as int);
    assert(path.drop_first() =~= rest);
    assert(path[0] == ks@[from as int]);
    let key = ks[from].clone();
    match &*m {
        Value::Nil(_) => {
            let nested = assoc_in_path(Value::nil_ptr(), ks, from + 1, v)?;
            let mut map = ValueMap::new_empty();
            map.insert(key, nested);
            Ok(Arc::new(Value::ValueMap(map, None)))
        },
        Value::ValueMap(map, meta) => {
            let current = map.get_or_nil(&*key);
            let nested = assoc_in_path(current, ks, from + 1, v)?;
            let mut new_map = map.clone_exact();
            proof {
                crate::map::lemma_first_key_from(map@, deref_value(key), 0);
            }
            let ghost nested_g = nested;
            new_map.insert(key, nested);
            proof {
                let j = assoc_index(map@, deref_value(ks@[from as int]));
                assert(new_map@[j].1 == nested_g);
            }
            Ok(Arc::new(Value::ValueMap(new_map, clone_meta(meta))))
        },
        Value::Vector(vec, meta) => {
            let idx = match &*key {
                Value::Integer(i, _) => *i,
                _ => {
                    return Err(BuiltinError::KeyNotInteger);
                },
            };
            if idx < 0 || (idx as u64) >= (vec.len() as u64) {
                return Err(BuiltinError::IndexOutOfBounds(idx));
            }
            let n = idx as usize;
            let current = vec.get_nth_or_panic(n);
            let nested = assoc_in_path(current, ks, from + 1, v)?;
            let mut new_vec = vec.clone_exact();
            new_vec.set_nth(n, nested);
            Ok(Arc::new(Value::Vector(new_vec, clone_meta(meta))))
        },
        _ => Ok(m.clone()),
    }
}

/// `(assoc-in m ks v)`: puts `v` at the end of the path of keys `ks`, a
/// vector; for an empty path, associates `nil` to `v` in a map or in a new
/// map for `nil`.
pub fn assoc_in(m: PtrValue, ks: PtrValue, v: PtrValue) -> (res: Result<PtrValue, BuiltinError>)
    ensures
        !(*ks is Vector) ==> res is Err && res->Err_0 is NotAVector,
        *ks is Vector && ks->Vector_0@.len() > 0 ==> match res {
            Ok(r) => assoc_in_error(*m, ks->Vector_0@) is None && assoc_in_rel(*m, ks->Vector_0@, *v, *r),
            Err(e) => assoc_in_error(*m, ks->Vector_0@) == Some(e),
        },
        *ks is Vector && ks->Vector_0@.len() == 0 ==> match *m {
            Value::Nil(meta) => res matches Ok(r) && (*r matches Value::ValueMap(mm, meta2) && meta2 == meta
                && mm@.len() == 1 && *mm@[0].0 == Value::Nil(None) && mm@[0].1 == v),
            Value::ValueMap(map, meta) => res matches Ok(r) && (*r matches Value::ValueMap(mm, meta2)
                && meta2 == meta && *mm@[assoc_index(map@, Value::Nil(None))].0 == Value::Nil(None)
                && mm@ == map_assoc(map@, mm@[assoc_index(map@, Value::Nil(None))].0, v)),
            Value::Vector(_, _) => res is Err && res->Err_0 is KeyNotInteger,
            _ => res == Ok::<PtrValue, BuiltinError>(m),
        },
{
    let path = match &*ks {
        Value::Vector(path, _) => path.items(),
        _ => {
            return Err(BuiltinError::NotAVector);
        },
    };
    if path.len() == 0 {
        let nil_key = Value::nil_ptr();
        match &*m {
            Value::Nil(meta) => {
                let mut map = ValueMap::new_empty();
                map.insert(nil_key, v);
                Ok(Arc::new(Value::ValueMap(map, clone_meta(meta))))
            },
            Value::ValueMap(map, meta) => {
                let mut new_map = map.clone_exact();
                proof {
                    crate::map::lemma_first_key_from(map@, Value::Nil(None), 0);
                }
                new_map.insert(nil_key, v);
                Ok(Arc::new(Value::ValueMap(new_map, clone_meta(meta))))
            },
            Value::Vector(_, _) => Err(BuiltinError::KeyNotInteger),
            _ => Ok(m),
        }
    } else {
        assert(path@.subrange(0, path@.len() as int) =~= path@);
        assoc_in_path(m, &path, 0, v)
    }
}


/// `(keys m)`: the keys of a map, as a list, in entry order.
pub fn keys(m: &Value) -> (res: Result<PtrValue, BuiltinError>)
    ensures
        match *m {
            Value::ValueMap(map, _) => res matches Ok(r) && (*r matches Value::List(l, None)
                && l@.len() == map@.len() && forall|i: int| 0 <= i < l@.len() ==> #[trigger] l@[i] == map@[i].0),
            _ => res is Err && res->Err_0 is NotAMap,
        },
{
    match m {
        Value::ValueMap(map, _) => Ok(List::new_value_ptr(map.keys())),
        _ => Err(BuiltinError::NotAMap),
    }
}

/// `(vals m)`: the values of a map, as a list, in entry order.
pub fn vals(m: &Value) -> (res: Result<PtrValue, BuiltinError>)
    ensures
        match *m {
            Value::ValueMap(map, _) => res matches Ok(r) && (*r matches Value::List(l, None)
                && l@.len() == map@.len() && forall|i: int| 0 <= i < l@.len() ==> #[trigger] l@[i] == map@[i].1),
            _ => res is Err && res->Err_0 is NotAMap,
        },
{
    match m {
        Value::ValueMap(map, _) => Ok(List::new_value_ptr(map.values())),
        _ => Err(BuiltinError::NotAMap),
    }
}

/// The element at index `n` of a list or a vector, or `nil`.
pub open spec fn spec_nth_of(coll: Value, n: int) -> Value {
    match coll {
        Value::List(l, _) => if 0 <= n < l@.len() { *l@[n] } else { Value::Nil(None) },
        Value::Vector(l, _) => if 0 <= n < l@.len() { *l@[n] } else { Value::Nil(None) },
        _ => Value::Nil(None),
    }
}

/// The number of elements of a list or a vector, or 0.
pub open spec fn spec_count_of(coll: Value) -> int {
    match coll {
        Value::List(l, _) => l@.len() as int,
        Value::Vector(l, _) => l@.len() as int,
        _ => 0,
    }
}

/// Lists and vectors are read from their front: the element at index `n`
/// is the `n`-th element of the sequence the list or vector holds, counting
/// from 0, so the first is at 0 and the last at the length less one; past
/// either end there is `nil`.
pub proof fn law_nth_counts_from_the_front(coll: Value, n: int)
    ensures
        match coll {
            Value::List(l, _) => spec_nth_of(coll, n) == if 0 <= n < l@.len() { *l@[n] } else { Value::Nil(None) },
            Value::Vector(v, _) => spec_nth_of(coll, n) == if 0 <= n < v@.len() { *v@[n] } else { Value::Nil(None) },
            _ => spec_nth_of(coll, n) == Value::Nil(None),
        },
        (coll is List || coll is Vector) ==> spec_count_of(coll) >= 0,
{
}

/// `(first coll)`: the first element of a list or a vector, or `nil`.
pub fn first(coll: &Value) -> (res: PtrValue)
    ensures
        *res == spec_nth_of(*coll, 0),
        match *coll {
            Value::List(l, _) => if l@.len() > 0 { *res == *l@[0] } else { *res == Value::Nil(None) },
            Value::Vector(v, _) => if v@.len() > 0 { *res == *v@[0] } else { *res == Value::Nil(None) },
            _ => *res == Value::Nil(None),
        },
{
    match coll {
        Value::List(l, _) => l.get_first_or_nil(),
        Value::Vector(v, _) => v.get_first_or_nil(),
        _ => Value::nil_ptr(),
    }
}

/// `(second coll)`: the second element of a list or a vector, or `nil`.
pub fn second(coll: &Value) -> (res: PtrValue)
    ensures
        *res == spec_nth_of(*coll, 1),
        match *coll {
            Value::List(l, _) => if l@.len() > 1 { *res == *l@[1] } else { *res == Value::Nil(None) },
            Value::Vector(v, _) => if v@.len() > 1 { *res == *v@[1] } else { *res == Value::Nil(None) },
            _ => *res == Value::Nil(None),
        },
{
    match coll {
        Value::List(l, _) => l.get_second_or_nil(),
        Value::Vector(v, _) => v.get_second_or_nil(),
        _ => Value::nil_ptr(),
    }
}

/// `(last coll)`: the last element of a list or a vector, or `nil`.
pub fn last(coll: &Value) -> (res: PtrValue)
    ensures
        *res == spec_nth_of(*coll, spec_count_of(*coll) - 1),
        match *coll {
            Value::List(l, _) => if l@.len() > 0 { *res == *l@[l@.len() - 1] } else { *res == Value::Nil(None) },
            Value::Vector(v, _) => if v@.len() > 0 { *res == *v@[v@.len() - 1] } else { *res == Value::Nil(None) },
            _ => *res == Value::Nil(None),
        },
{
    match coll {
        Value::List(l, _) => l.get_last_or_nil(),
        Value::Vector(v, _) => v.get_last_or_nil(),
        _ => Value::nil_ptr(),
    }
}

/// `(list x ...)`: a list of the arguments.
pub fn list(args: Vec<PtrValue>) -> (res: PtrValue)
    ensures
        *res matches Value::List(l, None) && l@ == args@,
{
    List::new_value_ptr(args)
}

/// A list whose head is the bare symbol `head` and whose other elements
/// are `args`.
pub fn list_with_head(head: &str, args: Vec<PtrValue>) -> (res: PtrValue)
    ensures
        *res matches Value::List(l, None) && l@.len() == args@.len() + 1
            && (*l@[0] matches Value::Symbol(s, None) && s@ == (None::<Seq<char>>, head@))
            && l@.drop_first() == args@,
{
    let mut items: Vec<PtrValue> = Vec::new();
    items.push(Value::symbol_ptr(Symbol::new_unqualified(head)));
    let mut i: usize = 0;
    while i < args.len()
        invariant
            0 <= i <= args@.len(),
            items@.len() == i + 1,
            *items@[0] matches Value::Symbol(s, None) && s@ == (None::<Seq<char>>, head@),
            items@.drop_first() == args@.take(i as int),
        decreases args@.len() - i,
    {
        items.push(args[i].clone());
        i += 1;
        assert(items@.drop_first() =~= args@.take(i as int));
    }
    assert(args@.take(args@.len() as int) =~= args@);
    List::new_value_ptr(items)
}

/// `(let bindings body ...)`: the form `(let* bindings body ...)`.
pub fn let_macro(args: Vec<PtrValue>) -> (res: PtrValue)
    ensures
        *res matches Value::List(l, None) && l@.len() == args@.len() + 1
            && (*l@[0] matches Value::Symbol(s, None) && s@ == (None::<Seq<char>>, "let*"@))
            && l@.drop_first() == args@,
{
    list_with_head("let*", args)
}

/// `(fn params body ...)`: the form `(fn* params body ...)`.
pub fn fn_macro(args: Vec<PtrValue>) -> (res: PtrValue)
    ensures
        *res matches Value::List(l, None) && l@.len() == args@.len() + 1
            && (*l@[0] matches Value::Symbol(s, None) && s@ == (None::<Seq<char>>, "fn*"@))
            && l@.drop_first() == args@,
{
    list_with_head("fn*", args)
}

/// `(symbol name)`: the bare symbol of the given name.
pub fn symbol1(name: &Value) -> (res: Result<PtrValue, BuiltinError>)
    ensures
        match *name {
            Value::String(n, _) => res matches Ok(r) && (*r matches Value::Symbol(s, None)
                && s@ == (None::<Seq<char>>, n@)),
            _ => res is Err && res->Err_0 is NotAString,
        },
{
    match name {
        Value::String(n, _) => Ok(Value::symbol_unqualified_ptr(n.as_str())),
        _ => Err(BuiltinError::NotAString),
    }
}

/// `(symbol ns name)`: the symbol of the given namespace and name.
pub fn symbol2(ns: &Value, name: &Value) -> (res: Result<PtrValue, BuiltinError>)
    ensures
        match (*ns, *name) {
            (Value::String(a, _), Value::String(b, _)) => res matches Ok(r) && (*r matches Value::Symbol(s, None)
                && s@ == (Some(a@), b@)),
            _ => res is Err && res->Err_0 is NotAString,
        },
{
    match (ns, name) {
        (Value::String(a, _), Value::String(b, _)) => Ok(Value::symbol_qualified_ptr(a.as_str(), b.as_str())),
        _ => Err(BuiltinError::NotAString),
    }
}

/// `(deref x)`: what a var is bound to; an unbound var and anything else
/// are given back as they are.
pub fn deref(x: PtrValue) -> (res: PtrValue)
    ensures
        match *x {
            Value::Var(var, _) => match var.spec_value() {
                Some(v) => res == v,
                None => res == x,
            },
            _ => res == x,
        },
{
    match &*x {
        Value::Var(var, _) => match var.deref() {
            Some(v) => v,
            None => x,
        },
        _ => x,
    }
}

/// `(meta x)`: the metadata of a value, as a map, or `nil`.
pub fn meta(x: &Value) -> (res: PtrValue)
    ensures
        match crate::value::spec_meta(*x) {
            Some(m) => *res matches Value::ValueMap(mm, None) && mm@ == m@,
            None => *res == Value::Nil(None),
        },
{
    match x.meta() {
        Some(m) => Arc::new(Value::ValueMap(m.clone_exact(), None)),
        None => Value::nil_ptr(),
    }
}

/// `(with-meta x m)`: `x` with the map `m` as its metadata.
pub fn with_meta(x: &Value, m: &Value) -> (res: Result<PtrValue, BuiltinError>)
    ensures
        match *m {
            Value::ValueMap(mm, _) => res matches Ok(r) && crate::value::same_contents(*r, *x)
                && (crate::value::spec_meta(*r) matches Some(rm) && rm@ == mm@),
            _ => res is Err && res->Err_0 is NotAMap,
        },
{
    match m {
        Value::ValueMap(mm, _) => Ok(x.with_meta_ptr(Some(Arc::new(mm.clone_exact())))),
        _ => Err(BuiltinError::NotAMap),
    }
}


/// Whether some argument is a float.
pub open spec fn any_float(args: Seq<PtrValue>) -> bool {
    exists|i: int| 0 <= i < args.len() && (#[trigger] *args[i]) is Float
}

/// The bits of a number argument as a binary64 number, if it is a number.
pub open spec fn number_bits(v: Value) -> Option<u64> {
    match v {
        Value::Integer(i, _) => Some(ieee_from_int(i)),
        Value::Float(f, _) => Some(f.bits()),
        _ => None,
    }
}

/// Binary64 arithmetic over the arguments from `start` below `n`, starting
/// from `acc`: each argument is added (`add`) or subtracted (`!add`) in
/// turn.
pub open spec fn float_fold(acc: u64, args: Seq<PtrValue>, start: int, n: int, add: bool) -> Option<u64>
    decreases n - start,
{
    if n <= start {
        Some(acc)
    } else {
        match float_fold(acc, args, start, n - 1, add) {
            Some(a) => match number_bits(*args[n - 1]) {
                Some(b) => Some(if add { ieee_sum(a, b) } else { ieee_difference(a, b) }),
                None => None,
            },
            None => None,
        }
    }
}

/// Integer arithmetic over the arguments from `start` below `n`, starting
/// from `acc`: each argument is added (`add`) or subtracted (`!add`) in
/// turn; an argument that is not an integer, or a partial result out of the
/// range of 64-bit integers, is an error.
pub open spec fn int_fold(acc: int, args: Seq<PtrValue>, start: int, n: int, add: bool) -> Result<int, BuiltinError>
    decreases n - start,
{
    if n <= start {
        Ok(acc)
    } else {
        match int_fold(acc, args, start, n - 1, add) {
            Ok(a) => match *args[n - 1] {
                Value::Integer(i, _) => {
                    let r = if add { a + i } else { a - i };
                    if i64::MIN <= r <= i64::MAX {
                        Ok(r)
                    } else {
                        Err(BuiltinError::IntegerOverflow)
                    }
                },
                _ => Err(BuiltinError::NotANumber),
            },
            Err(e) => Err(e),
        }
    }
}

/// Whether some argument is a float, found by a scan.
fn has_float(args: &Vec<PtrValue>) -> (res: bool)
    ensures
        res == any_float(args@),
{
    let mut i: usize = 0;
    while i < args.len()
        invariant
            0 <= i <= args@.len(),
            forall|j: int| 0 <= j < i ==> !((#[trigger] *args@[j]) is Float),
        decreases args@.len() - i,
    {
        if args[i].is_float() {
            return true;
        }
        i += 1;
    }
    false
}

/// Binary64 arithmetic over all arguments from zero.
fn float_arith(init: Float, args: &Vec<PtrValue>, start: usize, add: bool) -> (res: Result<PtrValue, BuiltinError>)
    requires
        start <= args@.len(),
    ensures
        match float_fold(init.bits(), args@, start as int, args@.len() as int, add) {
            Some(bits) => res matches Ok(r) && (*r matches Value::Float(f, None) && f.bits() == bits),
            None => res is Err && res->Err_0 is NotANumber,
        },
{
    let mut x = init;
    let mut i: usize = start;
    while i < args.len()
        invariant
            start <= i <= args@.len(),
            float_fold(init.bits(), args@, start as int, i as int, add) == Some(x.bits()),
        decreases args@.len() - i,
    {
        let term = match &*args[i] {
            Value::Integer(n, _) => Float::from_integer(*n),
            Value::Float(f, _) => *f,
            _ => {
                proof {
                    lemma_float_fold_none_sticks(init.bits(), args@, start as int, i as int + 1, args@.len() as int, add);
                }
                return Err(BuiltinError::NotANumber);
            },
        };
        let ghost before = x.bits();
        x = if add { x + term } else { x - term };
        proof {
            Float::lemma_spec_from_bits(if add { ieee_sum(before, term.bits()) } else { ieee_difference(before, term.bits()) });
        }
        i += 1;
    }
    Ok(Arc::new(Value::Float(x, None)))
}

proof fn lemma_float_fold_none_sticks(acc: u64, args: Seq<PtrValue>, start: int, m: int, n: int, add: bool)
    requires
        start < m <= n,
        float_fold(acc, args, start, m, add) is None,
    ensures
        float_fold(acc, args, start, n, add) is None,
    decreases n - m,
{
    if m < n {
        lemma_float_fold_none_sticks(acc, args, start, m, n - 1, add);
    }
}

proof fn lemma_int_fold_err_sticks(acc: int, args: Seq<PtrValue>, start: int, m: int, n: int, add: bool)
    requires
        start < m <= n,
        int_fold(acc, args, start, m, add) is Err,
    ensures
        int_fold(acc, args, start, n, add) == int_fold(acc, args, start, m, add),
    decreases n - m,
{
    if m < n {
        lemma_int_fold_err_sticks(acc, args, start, m, n - 1, add);
    }
}

/// Integer arithmetic over the arguments from `start` on, from `acc`.
fn int_arith(acc: i64, args: &Vec<PtrValue>, start: usize, add: bool) -> (res: Result<PtrValue, BuiltinError>)
    requires
        start <= args@.len(),
    ensures
        match int_fold(acc as int, args@, start as int, args@.len() as int, add) {
            Ok(n) => res matches Ok(r) && (*r matches Value::Integer(k, None) && k == n),
            Err(e) => res == Err::<PtrValue, BuiltinError>(e),
        },
{
    let mut x: i64 = acc;
    let mut i: usize = start;
    while i < args.len()
        invariant
            start <= i <= args@.len(),
            int_fold(acc as int, args@, start as int, i as int, add) == Ok::<int, BuiltinError>(x as int),
        decreases args@.len() - i,
    {
        let n = match &*args[i] {
            Value::Integer(n, _) => *n,
            _ => {
                proof {
                    lemma_int_fold_err_sticks(acc as int, args@, start as int, i as int + 1, args@.len() as int, add);
                }
                return Err(BuiltinError::NotANumber);
            },
        };
        let next = if add { x.checked_add(n) } else { x.checked_sub(n) };
        x = match next {
            Some(r) => r,
            None => {
                proof {
                    lemma_int_fold_err_sticks(acc as int, args@, start as int, i as int + 1, args@.len() as int, add);
                }
                return Err(BuiltinError::IntegerOverflow);
            },
        };
        i += 1;
    }
    Ok(Arc::new(Value::Integer(x, None)))
}

/// `(+ x ...)`: the sum of the arguments; as binary64 numbers if some
/// argument is a float, as 64-bit integers otherwise.
pub fn plus(args: &Vec<PtrValue>) -> (res: Result<PtrValue, BuiltinError>)
    ensures
        any_float(args@) ==> match float_fold(0, args@, 0, args@.len() as int, true) {
            Some(bits) => res matches Ok(r) && (*r matches Value::Float(f, None) && f.bits() == bits),
            None => res is Err && res->Err_0 is NotANumber,
        },
        !any_float(args@) ==> match int_fold(0, args@, 0, args@.len() as int, true) {
            Ok(n) => res matches Ok(r) && (*r matches Value::Integer(k, None) && k == n),
            Err(e) => res == Err::<PtrValue, BuiltinError>(e),
        },
{
    if has_float(args) {
        float_arith(Float::from_bits(0), args, 0, true)
    } else {
        int_arith(0, args, 0, true)
    }
}

/// `(- x y ...)`: the first argument minus the others; as binary64 numbers
/// if some argument is a float, as 64-bit integers otherwise.
pub fn minus(args: &Vec<PtrValue>) -> (res: Result<PtrValue, BuiltinError>)
    requires
        args@.len() >= 2,
    ensures
        any_float(args@) ==> match number_bits(*args@[0]) {
            Some(first) => match float_fold(first, args@, 1, args@.len() as int, false) {
                Some(bits) => res matches Ok(r) && (*r matches Value::Float(f, None) && f.bits() == bits),
                None => res is Err && res->Err_0 is NotANumber,
            },
            None => res is Err && res->Err_0 is NotANumber,
        },
        !any_float(args@) ==> match *args@[0] {
            Value::Integer(first, _) => match int_fold(first as int, args@, 1, args@.len() as int, false) {
                Ok(n) => res matches Ok(r) && (*r matches Value::Integer(k, None) && k == n),
                Err(e) => res == Err::<PtrValue, BuiltinError>(e),
            },
            _ => res is Err && res->Err_0 is NotANumber,
        },
{
    if has_float(args) {
        let first = match &*args[0] {
            Value::Integer(n, _) => Float::from_integer(*n),
            Value::Float(f, _) => *f,
            _ => {
                return Err(BuiltinError::NotANumber);
            },
        };
        float_arith(first, args, 1, false)
    } else {
        match &*args[0] {
            Value::Integer(first, _) => int_arith(*first, args, 1, false),
            _ => Err(BuiltinError::NotANumber),
        }
    }
}


/// The name of the namespace that holds the current-namespace var.
pub open spec fn core_ns_name() -> Seq<char> {
    "clojure.core"@
}

/// The name of a symbol argument, namespace part aside.
pub open spec fn symbol_arg_name(v: Value) -> Seq<char> {
    match v {
        Value::Symbol(s, _) => s@.1,
        _ => Seq::empty(),
    }
}

/// The name of a symbol argument.
fn symbol_name_of(v: &Value) -> (res: Result<String, BuiltinError>)
    ensures
        match *v {
            Value::Symbol(s, _) => res matches Ok(n) && n@ == s@.1,
            _ => res is Err && res->Err_0 is NotASymbol,
        },
{
    match v {
        Value::Symbol(s, _) => Ok(s.name().to_owned()),
        _ => Err(BuiltinError::NotASymbol),
    }
}

/// `(create-ns sym)`: a new handle to the namespace named by the symbol,
/// created empty if it does not exist.
pub fn create_ns(env: &mut Environment, sym: &Value) -> (res: Result<PtrValue, BuiltinError>)
    ensures
        !(*sym is Symbol) ==> res is Err && res->Err_0 is NotASymbol && *final(env) == *old(env),
        *sym is Symbol ==> {
            let name = symbol_arg_name(*sym);
            &&& res matches Ok(r) && (*r matches Value::Handle(Handle::Namespace(n), None) && n.name@ == name
                && final(env).spec_resolve(n) == Some(final(env).spec_namespaces()[name]))
            &&& final(env).spec_namespaces().contains_key(name)
            &&& old(env).spec_namespaces().contains_key(name) ==> final(env).spec_namespaces() == old(env).spec_namespaces()
            &&& !old(env).spec_namespaces().contains_key(name) ==> final(env).spec_namespaces()
                == old(env).spec_namespaces().insert(name, final(env).spec_namespaces()[name])
            &&& final(env).spec_current_namespace_var() == old(env).spec_current_namespace_var()
        },
{
    let name = symbol_name_of(sym)?;
    let _ = env.create_namespace(name.as_str());
    match env.try_get_namespace_handle_value(name.as_str()) {
        Some(v) => Ok(v),
        None => vstd::pervasive::unreached(),
    }
}

/// `(find-ns sym)`: a new handle to the namespace named by the symbol, or
/// `nil`.
pub fn find_ns(env: &mut Environment, sym: &Value) -> (res: Result<PtrValue, BuiltinError>)
    ensures
        same_namespaces(*final(env), *old(env)),
        !(*sym is Symbol) ==> res is Err && res->Err_0 is NotASymbol,
        *sym is Symbol ==> {
            let name = symbol_arg_name(*sym);
            &&& old(env).spec_namespaces().contains_key(name) ==> (res matches Ok(r)
                && (*r matches Value::Handle(Handle::Namespace(n), None) && n.name@ == name
                    && final(env).spec_resolve(n) == Some(old(env).spec_namespaces()[name])))
            &&& !old(env).spec_namespaces().contains_key(name) ==> (res matches Ok(r) && *r == Value::Nil(None))
        },
{
    let name = symbol_name_of(sym)?;
    match env.try_get_namespace_handle_value(name.as_str()) {
        Some(v) => Ok(v),
        None => Ok(Value::nil_ptr()),
    }
}

/// `(in-ns sym)`: makes the namespace named by the symbol (created empty
/// if it does not exist) the current one, by binding `clojure.core/*ns*`
/// to a new handle to it, and gives that handle.
pub fn in_ns(env: &mut Environment, sym: &Value) -> (res: Result<PtrValue, BuiltinError>)
    ensures
        !(*sym is Symbol) ==> res is Err && res->Err_0 is NotASymbol && *final(env) == *old(env),
        *sym is Symbol ==> {
            let name = symbol_arg_name(*sym);
            &&& final(env).spec_namespaces().contains_key(name)
            &&& final(env).spec_current_namespace_var() == old(env).spec_current_namespace_var()
            &&& forall|k: Seq<char>| k != name && k != core_ns_name() ==>
                (#[trigger] final(env).spec_namespaces().contains_key(k) == old(env).spec_namespaces().contains_key(k))
            &&& forall|k: Seq<char>| k != name && k != core_ns_name() && #[trigger] old(env).spec_namespaces().contains_key(k)
                ==> final(env).spec_namespaces()[k] == old(env).spec_namespaces()[k]
            &&& (name != core_ns_name() && old(env).spec_namespaces().contains_key(name))
                ==> final(env).spec_namespaces()[name] == old(env).spec_namespaces()[name]
            &&& match res {
                Ok(r) => {
                    &&& (*r matches Value::Handle(Handle::Namespace(n), None) && n.name@ == name
                        && final(env).spec_resolve(n) == Some(final(env).spec_namespaces()[name])
                        && final(env).spec_namespaces().contains_key(core_ns_name())
                        && (final(env).spec_namespaces()[core_ns_name()].bound_value("*ns*"@) matches Some(b)
                            && *b == Value::Handle(Handle::Namespace(n), None)))
                },
                Err(e) => e matches BuiltinError::NoSuchNamespace(c) && c@ == core_ns_name()
                    && !final(env).spec_namespaces().contains_key(core_ns_name()),
            }
        },
{
    let name = symbol_name_of(sym)?;
    let _ = env.create_namespace(name.as_str());
    let h = match env.try_get_namespace_handle(name.as_str()) {
        Some(Handle::Namespace(h)) => h,
        _ => vstd::pervasive::unreached(),
    };
    let core = match env.try_get_namespace("clojure.core") {
        Some(core) => core,
        None => {
            return Err(BuiltinError::NoSuchNamespace(SymbolUnqualified::new("clojure.core")));
        },
    };
    let ghost mid = *env;
    let mut updated: Namespace = (*core).clone();
    updated.bind_handle("*ns*", Handle::Namespace(h.clone_exact()));
    let updated = Arc::new(updated);
    assert(updated.spec_name() == core_ns_name());
    env.insert_namespace(updated);
    proof {
        assert(mid.spec_ids().contains_key(core_ns_name()));
        assert(env.spec_ids() == mid.spec_ids());
        assert(h.id == mid.spec_ids()[name@]);
        assert(h.id < mid.spec_table().len());
        assert(env.spec_table().len() == mid.spec_table().len());
        assert(env.spec_namespaces()[name@] == env.spec_table()[h.id as int]);
        assert(env.spec_resolve(h) == Some(env.spec_namespaces()[name@]));
    }
    Ok(Arc::new(Value::Handle(Handle::Namespace(h), None)))
}

/// The namespace a namespace-handle argument reaches.
pub fn namespace_of(env: &Environment, x: &Value) -> (res: Result<PtrNamespace, BuiltinError>)
    ensures
        match *x {
            Value::Handle(Handle::Namespace(n), _) => match env.spec_resolve(n) {
                Some(ns) => res == Ok::<PtrNamespace, BuiltinError>(ns),
                None => res matches Err(BuiltinError::NoSuchNamespace(m)) && m@ == n.name@,
            },
            _ => res is Err && res->Err_0 is NotANamespaceHandle,
        },
{
    match x {
        Value::Handle(Handle::Namespace(n), _) => match env.resolve_namespace_handle(n) {
            Some(ns) => Ok(ns),
            None => Err(BuiltinError::NoSuchNamespace(n.name.clone())),
        },
        _ => Err(BuiltinError::NotANamespaceHandle),
    }
}

/// `(ns-name ns)`: the name of the namespace a handle stands for, as a
/// bare symbol.
pub fn ns_name(x: &Value) -> (res: Result<PtrValue, BuiltinError>)
    ensures
        match *x {
            Value::Handle(Handle::Namespace(n), _) => res matches Ok(r)
                && (*r matches Value::Symbol(s, None) && s@ == (None::<Seq<char>>, n.name@)),
            _ => res is Err && res->Err_0 is NotANamespaceHandle,
        },
{
    match x {
        Value::Handle(Handle::Namespace(n), _) => Ok(Value::symbol_unqualified_ptr(n.name.name())),
        _ => Err(BuiltinError::NotANamespaceHandle),
    }
}

/// `(remove-ns sym)`: removes the namespace named by the symbol; gives
/// `nil`. Handles to it still reach it.
pub fn remove_ns(env: &mut Environment, sym: &Value) -> (res: Result<PtrValue, BuiltinError>)
    ensures
        !(*sym is Symbol) ==> res is Err && res->Err_0 is NotASymbol && *final(env) == *old(env),
        *sym is Symbol ==> (res matches Ok(r) && *r == Value::Nil(None))
            && final(env).spec_namespaces() == old(env).spec_namespaces().remove(symbol_arg_name(*sym))
            && final(env).spec_table() == old(env).spec_table()
            && final(env).spec_current_namespace_var() == old(env).spec_current_namespace_var(),
{
    let name = symbol_name_of(sym)?;
    env.remove_namespace(name.as_str());
    Ok(Value::nil_ptr())
}

/// Whether `after` differs from `before` only in the namespace numbered
/// `id`, which is now `ns`: under its name too, where the name still
/// stands for that number.
pub open spec fn only_namespace_changed(before: Environment, after: Environment, id: usize, ns: PtrNamespace) -> bool {
    &&& id < before.spec_table().len()
    &&& after.spec_table() == before.spec_table().update(id as int, ns)
    &&& after.spec_ids() == before.spec_ids()
    &&& after.spec_current_namespace_var() == before.spec_current_namespace_var()
}

/// Whether `after` is `before` with the vars table alone replaced by `vars`.
pub open spec fn vars_replaced(before: PtrNamespace, after: PtrNamespace, vars: Map<Seq<char>, PtrVar>) -> bool {
    &&& after.spec_name() == before.spec_name()
    &&& after.spec_vars() == vars
    &&& after.spec_aliases() == before.spec_aliases()
    &&& after.spec_imports() == before.spec_imports()
    &&& after.spec_refers() == before.spec_refers()
}

/// `(ns-unmap ns sym)`: removes the var named by the symbol from the
/// namespace a handle reaches; gives `nil`.
pub fn ns_unmap(env: &mut Environment, ns: &Value, sym: &Value) -> (res: Result<PtrValue, BuiltinError>)
    ensures
        match *ns {
            Value::Handle(Handle::Namespace(n), _) => match old(env).spec_resolve(n) {
                None => (res matches Err(BuiltinError::NoSuchNamespace(m)) && m@ == n.name@) && *final(env) == *old(env),
                Some(before) => if !(*sym is Symbol) {
                    (res matches Err(BuiltinError::NotASymbol)) && *final(env) == *old(env)
                } else {
                    let after = final(env).spec_table()[n.id as int];
                    &&& res matches Ok(r) && *r == Value::Nil(None)
                    &&& only_namespace_changed(*old(env), *final(env), n.id, after)
                    &&& vars_replaced(before, after, before.spec_vars().remove(symbol_arg_name(*sym)))
                },
            },
            _ => (res matches Err(BuiltinError::NotANamespaceHandle)) && *final(env) == *old(env),
        },
{
    let (id, target) = match ns {
        Value::Handle(Handle::Namespace(n), _) => match env.resolve_namespace_handle(n) {
            Some(t) => (n.id, t),
            None => {
                return Err(BuiltinError::NoSuchNamespace(n.name.clone()));
            },
        },
        _ => {
            return Err(BuiltinError::NotANamespaceHandle);
        },
    };
    let name = match symbol_name_of(sym) {
        Ok(n) => n,
        Err(e) => {
            return Err(e);
        },
    };
    let mut updated: Namespace = (*target).clone();
    updated.remove_var(name.as_str());
    env.replace_namespace_at(id, Arc::new(updated));
    Ok(Value::nil_ptr())
}

/// Whether `after` is `before` with the aliases table alone replaced by
/// `aliases`.
pub open spec fn aliases_replaced(before: PtrNamespace, after: PtrNamespace, aliases: Map<Seq<char>, SymbolUnqualified>) -> bool {
    &&& after.spec_name() == before.spec_name()
    &&& after.spec_vars() == before.spec_vars()
    &&& after.spec_aliases() == aliases
    &&& after.spec_imports() == before.spec_imports()
    &&& after.spec_refers() == before.spec_refers()
}

/// `(ns-unalias ns sym)`: removes the alias named by the symbol from the
/// namespace a handle reaches; gives `nil`.
pub fn ns_unalias(env: &mut Environment, ns: &Value, sym: &Value) -> (res: Result<PtrValue, BuiltinError>)
    ensures
        match *ns {
            Value::Handle(Handle::Namespace(n), _) => match old(env).spec_resolve(n) {
                None => (res matches Err(BuiltinError::NoSuchNamespace(m)) && m@ == n.name@) && *final(env) == *old(env),
                Some(before) => if !(*sym is Symbol) {
                    (res matches Err(BuiltinError::NotASymbol)) && *final(env) == *old(env)
                } else {
                    let after = final(env).spec_table()[n.id as int];
                    &&& res matches Ok(r) && *r == Value::Nil(None)
                    &&& only_namespace_changed(*old(env), *final(env), n.id, after)
                    &&& aliases_replaced(before, after, before.spec_aliases().remove(symbol_arg_name(*sym)))
                },
            },
            _ => (res matches Err(BuiltinError::NotANamespaceHandle)) && *final(env) == *old(env),
        },
{
    let (id, target) = match ns {
        Value::Handle(Handle::Namespace(n), _) => match env.resolve_namespace_handle(n) {
            Some(t) => (n.id, t),
            None => {
                return Err(BuiltinError::NoSuchNamespace(n.name.clone()));
            },
        },
        _ => {
            return Err(BuiltinError::NotANamespaceHandle);
        },
    };
    let name = match symbol_name_of(sym) {
        Ok(n) => n,
        Err(e) => {
            return Err(e);
        },
    };
    let mut updated: Namespace = (*target).clone();
    updated.remove_alias(name.as_str());
    env.replace_namespace_at(id, Arc::new(updated));
    Ok(Value::nil_ptr())
}

/// The number of the namespace an `intern` call names, where there is one:
/// the one a namespace handle reaches, or the one a symbol's name names.
pub open spec fn intern_target_id(env: Environment, ns: Value) -> Option<usize> {
    match ns {
        Value::Handle(Handle::Namespace(n), _) => if env.spec_resolve(n) is Some {
            Some(n.id)
        } else {
            None
        },
        Value::Symbol(s, _) => if env.spec_ids().contains_key(s@.1) {
            Some(env.spec_ids()[s@.1])
        } else {
            None
        },
        _ => None,
    }
}

/// Whether `e` is the error an `intern` call whose first argument names no
/// namespace fails with.
pub open spec fn intern_target_error(ns: Value, e: BuiltinError) -> bool {
    match ns {
        Value::Handle(Handle::Namespace(n), _) => e matches BuiltinError::NoSuchNamespace(m) && m@ == n.name@,
        Value::Symbol(s, _) => e matches BuiltinError::NoSuchNamespace(m) && m@ == s@.1,
        _ => e is NotANamespaceHandle,
    }
}

/// The number of the namespace an `intern` call names, and that namespace.
fn intern_target(env: &Environment, ns: &Value) -> (res: Result<(usize, PtrNamespace), BuiltinError>)
    ensures
        match intern_target_id(*env, *ns) {
            Some(id) => res matches Ok((i, t)) && i == id && id < env.spec_table().len()
                && t == env.spec_table()[id as int],
            None => res matches Err(e) && intern_target_error(*ns, e),
        },
{
    match ns {
        Value::Handle(Handle::Namespace(n), _) => match env.resolve_namespace_handle(n) {
            Some(t) => Ok((n.id, t)),
            None => Err(BuiltinError::NoSuchNamespace(n.name.clone())),
        },
        Value::Symbol(s, _) => match env.namespace_id(s.name()) {
            Some(id) => Ok((id, env.namespace_at(id))),
            None => Err(BuiltinError::NoSuchNamespace(SymbolUnqualified::new(s.name()))),
        },
        _ => Err(BuiltinError::NotANamespaceHandle),
    }
}

/// `(intern ns sym)` and `(intern ns sym val)`: the var named by the
/// symbol in the namespace, created unbound if it does not exist, and bound
/// to `val` if one is given.
pub fn intern(env: &mut Environment, ns: &Value, sym: &Value, val: Option<PtrValue>) -> (res: Result<PtrValue, BuiltinError>)
    ensures
        match intern_target_id(*old(env), *ns) {
            None => (res matches Err(e) && intern_target_error(*ns, e)) && *final(env) == *old(env),
            Some(id) => if !(*sym is Symbol) {
                (res matches Err(BuiltinError::NotASymbol)) && *final(env) == *old(env)
            } else {
                let name = symbol_arg_name(*sym);
                let before = old(env).spec_table()[id as int];
                let after = final(env).spec_table()[id as int];
                &&& res matches Ok(r) && (*r matches Value::Var(v, _) && v == after.spec_vars()[name])
                &&& only_namespace_changed(*old(env), *final(env), id, after)
                &&& after.spec_name() == before.spec_name()
                &&& after.spec_vars().dom() == before.spec_vars().dom().insert(name)
                &&& forall|x: Seq<char>| x != name && #[trigger] before.spec_vars().contains_key(x)
                    ==> after.spec_vars()[x] == before.spec_vars()[x]
                &&& after.spec_aliases() == before.spec_aliases()
                &&& after.spec_imports() == before.spec_imports()
                &&& after.spec_refers() == before.spec_refers()
                &&& match val {
                    Some(x) => after.spec_vars()[name].spec_value() == Some(x),
                    None => if before.spec_vars().contains_key(name) {
                        after == before
                    } else {
                        after.spec_vars()[name].spec_value() is None
                    },
                }
            },
        },
{
    let (id, target) = match intern_target(env, ns) {
        Ok(t) => t,
        Err(e) => {
            return Err(e);
        },
    };
    let name = match symbol_name_of(sym) {
        Ok(n) => n,
        Err(e) => {
            return Err(e);
        },
    };
    match (target.try_get_var(name.as_str()), val) {
        (Ok(existing), None) => {
            proof {
                assert(env.spec_table().update(id as int, target) =~= env.spec_table());
            }
            Ok(Value::var_ptr(existing))
        },
        (Ok(_), Some(x)) => {
            let mut updated: Namespace = (*target).clone();
            updated.bind_value_ptr(name.as_str(), x);
            let var = match updated.try_get_var(name.as_str()) {
                Ok(v) => v,
                Err(_) => vstd::pervasive::unreached(),
            };
            env.replace_namespace_at(id, Arc::new(updated));
            Ok(Value::var_ptr(var))
        },
        (Err(_), None) => {
            let var: PtrVar = Arc::new(Var::new_unbound());
            let mut updated: Namespace = (*target).clone();
            updated.insert_var(name.as_str(), var.clone());
            env.replace_namespace_at(id, Arc::new(updated));
            Ok(Value::var_ptr(var))
        },
        (Err(_), Some(x)) => {
            let mut updated: Namespace = (*target).clone();
            updated.bind_value_ptr(name.as_str(), x);
            let var = match updated.try_get_var(name.as_str()) {
                Ok(v) => v,
                Err(_) => vstd::pervasive::unreached(),
            };
            env.replace_namespace_at(id, Arc::new(updated));
            Ok(Value::var_ptr(var))
        },
    }
}

/// `(all-ns)`: new handles to all namespaces, as a list.
pub fn all_ns(env: &mut Environment) -> (res: PtrValue)
    ensures
        same_namespaces(*final(env), *old(env)),
        *res matches Value::List(l, None) && l@.len() == old(env).spec_namespaces().dom().len()
            && (forall|i: int| 0 <= i < l@.len() ==> (#[trigger] *l@[i] matches Value::Handle(Handle::Namespace(n), None)
                && old(env).spec_namespaces().contains_key(n.name@)
                && final(env).spec_resolve(n) == Some(old(env).spec_namespaces()[n.name@])))
            && (forall|k: Seq<char>| #[trigger] old(env).spec_namespaces().contains_key(k)
                ==> exists|i: int| 0 <= i < l@.len() && (*#[trigger] l@[i] matches Value::Handle(Handle::Namespace(n), None)
                    && n.name@ == k)),
{
    let ghost pre = *env;
    let all = env.all_namespaces();
    let mut items: Vec<PtrValue> = Vec::new();
    let mut i: usize = 0;
    while i < all.len()
        invariant
            0 <= i <= all@.len(),
            items@.len() == i,
            all@.len() == pre.spec_namespaces().dom().len(),
            same_namespaces(*env, pre),
            forall|j: int| 0 <= j < all@.len() ==> pre.spec_namespaces().contains_key((#[trigger] all@[j]).spec_name()),
            forall|j: int| 0 <= j < i ==> (#[trigger] *items@[j] matches Value::Handle(Handle::Namespace(n), None)
                && pre.spec_namespaces().contains_key(n.name@)
                && env.spec_resolve(n) == Some(pre.spec_namespaces()[n.name@])
                && n.name@ == all@[j].spec_name()),
            forall|k: Seq<char>| #[trigger] pre.spec_namespaces().contains_key(k)
                ==> exists|j: int| 0 <= j < all@.len() && all@[j].spec_name() == k,
        decreases all@.len() - i,
    {
        let name = all[i].name_symbol();
        assert(pre.spec_namespaces().contains_key(all@[i as int].spec_name()));
        assert(env.spec_namespaces() == pre.spec_namespaces());
        let v = match env.try_get_namespace_handle_value(name.name()) {
            Some(v) => v,
            None => vstd::pervasive::unreached(),
        };
        items.push(v);
        i += 1;
    }
    proof {
        assert forall|k: Seq<char>| #[trigger] pre.spec_namespaces().contains_key(k)
            implies exists|j: int| 0 <= j < items@.len() && (*#[trigger] items@[j] matches Value::Handle(Handle::Namespace(n), None)
                && n.name@ == k) by {
            let j = choose|j: int| 0 <= j < all@.len() && all@[j].spec_name() == k;
            assert(*items@[j] matches Value::Handle(Handle::Namespace(n), None) && n.name@ == all@[j].spec_name());
        }
    }
    List::new_value_ptr(items)
}


/// A value for the var of the given name in `ns`, or `nil` if there is none.
pub open spec fn var_value_or_nil(ns: Namespace, name: Seq<char>, res: Value) -> bool {
    if ns.spec_vars().contains_key(name) {
        res == Value::Var(ns.spec_vars()[name], ns.spec_vars()[name].spec_meta())
    } else {
        res == Value::Nil(None)
    }
}

/// A value for the var a symbol names, looked up in `current` for a bare
/// symbol and in the namespace it names for a qualified one, or `nil`.
pub open spec fn symbol_var_or_nil(env: &Environment, current: Namespace, sym: Symbol, res: Value) -> bool {
    match sym {
        Symbol::Unqualified(s) => var_value_or_nil(current, s@, res),
        Symbol::Qualified(q) => if env.spec_namespaces().contains_key(q@.0) {
            var_value_or_nil(*env.spec_namespaces()[q@.0], q@.1, res)
        } else {
            res == Value::Nil(None)
        },
    }
}

/// A value for the var of the given name in `ns`, or `nil`.
fn var_or_nil(ns: &Namespace, name: &str) -> (res: PtrValue)
    ensures
        var_value_or_nil(*ns, name@, *res),
{
    match ns.try_get_var(name) {
        Ok(var) => Value::var_ptr(var),
        Err(_) => Value::nil_ptr(),
    }
}

/// A value for the var a symbol names, looked up in `current` for a bare
/// symbol and in the namespace it names for a qualified one, or `nil`.
fn resolve_in(env: &Environment, current: &Namespace, sym: &Symbol) -> (res: PtrValue)
    ensures
        symbol_var_or_nil(env, *current, *sym, *res),
{
    match sym {
        Symbol::Unqualified(s) => var_or_nil(current, s.name()),
        Symbol::Qualified(q) => match env.try_get_namespace(q.namespace()) {
            Some(ns) => var_or_nil(&ns, q.name()),
            None => Value::nil_ptr(),
        },
    }
}

/// The namespace `clojure.core/*ns*` holds a handle to, if it holds one
/// and the namespace exists.
pub open spec fn spec_star_ns(env: &Environment) -> Option<PtrNamespace> {
    if env.spec_namespaces().contains_key(core_ns_name()) {
        match crate::namespace::value_handle(env.spec_namespaces()[core_ns_name()].bound_value("*ns*"@)) {
            Some(Handle::Namespace(n)) => env.spec_resolve(n),
            _ => None,
        }
    } else {
        None
    }
}

/// The namespace the handle `clojure.core/*ns*` holds reaches.
fn star_ns(env: &Environment) -> (res: Result<PtrNamespace, BuiltinError>)
    ensures
        match res {
            Ok(ns) => spec_star_ns(env) == Some(ns),
            Err(e) => spec_star_ns(env) is None && !(e is NotASymbol),
        },
{
    let core = match env.try_get_namespace("clojure.core") {
        Some(core) => core,
        None => {
            return Err(BuiltinError::NoSuchNamespace(SymbolUnqualified::new("clojure.core")));
        },
    };
    match core.try_get_namespace_handle("*ns*") {
        Ok(n) => match env.resolve_namespace_handle(&n) {
            Some(ns) => Ok(ns),
            None => Err(BuiltinError::NoSuchNamespace(n.name.clone())),
        },
        Err(_) => Err(BuiltinError::NoCurrentNamespace),
    }
}

/// `(resolve sym)`: the var the symbol names, looked up in the namespace
/// `clojure.core/*ns*` holds for a bare symbol, or `nil`.
pub fn resolve(env: &Environment, sym: &Value) -> (res: Result<PtrValue, BuiltinError>)
    ensures
        match res {
            Ok(r) => spec_star_ns(env) matches Some(current) && (*sym matches Value::Symbol(s, _)
                && symbol_var_or_nil(env, *current, s, *r)),
            Err(BuiltinError::NotASymbol) => spec_star_ns(env) is Some && !(*sym is Symbol),
            Err(_) => spec_star_ns(env) is None,
        },
{
    let current = star_ns(env)?;
    match sym {
        Value::Symbol(s, _) => Ok(resolve_in(env, &current, s)),
        _ => Err(BuiltinError::NotASymbol),
    }
}

/// `(ns-resolve ns sym)`: the var the symbol names, looked up in the
/// namespace a handle stands for for a bare symbol, or `nil`.
pub fn ns_resolve(env: &Environment, ns: &Value, sym: &Value) -> (res: Result<PtrValue, BuiltinError>)
    ensures
        match res {
            Ok(r) => *ns matches Value::Handle(Handle::Namespace(n), _) && env.spec_resolve(n) is Some
                && (*sym matches Value::Symbol(s, _) && symbol_var_or_nil(env, *env.spec_resolve(n).unwrap(), s, *r)),
            Err(BuiltinError::NotASymbol) => !(*sym is Symbol),
            Err(BuiltinError::NotANamespaceHandle) => !(*ns matches Value::Handle(Handle::Namespace(_), _)),
            Err(BuiltinError::NoSuchNamespace(m)) => *ns matches Value::Handle(Handle::Namespace(n), _)
                && n.name@ == m@ && env.spec_resolve(n) is None,
            Err(_) => false,
        },
{
    let target = namespace_of(env, ns)?;
    match sym {
        Value::Symbol(s, _) => Ok(resolve_in(env, &target, s)),
        _ => Err(BuiltinError::NotASymbol),
    }
}

/// Whether `p` pairs bare symbols with vars: each pair names a var of
/// `vars` whose name is not in `excluded`, with a value for that var, and
/// each such var is named by some pair.
pub open spec fn var_pairs(p: Seq<(PtrValue, PtrValue)>, vars: Map<Seq<char>, PtrVar>, excluded: Set<Seq<char>>) -> bool {
    &&& forall|i: int| 0 <= i < p.len() ==> {
        let k = bare_symbol_name_of(*(#[trigger] p[i]).0);
        &&& *p[i].0 is Symbol
        &&& vars.contains_key(k)
        &&& !excluded.contains(k)
        &&& *p[i].1 == Value::Var(vars[k], vars[k].spec_meta())
    }
    &&& forall|k: Seq<char>| #[trigger] vars.contains_key(k) && !excluded.contains(k)
        ==> exists|i: int| 0 <= i < p.len() && bare_symbol_name_of(*p[i].0) == k
}

/// The name of a bare symbol value.
pub open spec fn bare_symbol_name_of(v: Value) -> Seq<char> {
    match v {
        Value::Symbol(Symbol::Unqualified(s), _) => s@,
        _ => Seq::empty(),
    }
}

/// The pairs of bare symbol and var value for the vars of `ns`, leaving
/// out the names that `ns` refers to if `skip_refers`.
#[verifier::loop_isolation(false)]
fn var_pairs_of(ns: &Namespace, skip_refers: bool) -> (res: Vec<(PtrValue, PtrValue)>)
    ensures
        var_pairs(res@, ns.spec_vars(), if skip_refers { ns.spec_refers().dom() } else { Set::empty() }),
{
    let entries = ns.entries();
    let refers = ns.refers();
    let ghost excluded = if skip_refers { ns.spec_refers().dom() } else { Set::<Seq<char>>::empty() };
    let mut res: Vec<(PtrValue, PtrValue)> = Vec::new();
    let ghost mut which: Seq<int> = Seq::empty();
    let mut i: usize = 0;
    while i < entries.len()
        invariant
            0 <= i <= entries@.len(),
            forall|j: int| 0 <= j < res@.len() ==> {
                let k = bare_symbol_name_of(*(#[trigger] res@[j]).0);
                &&& *res@[j].0 is Symbol
                &&& ns.spec_vars().contains_key(k)
                &&& !excluded.contains(k)
                &&& *res@[j].1 == Value::Var(ns.spec_vars()[k], ns.spec_vars()[k].spec_meta())
            },
            forall|j: int| 0 <= j < i && !excluded.contains(#[trigger] entries@[j].0@)
                ==> exists|t: int| 0 <= t < res@.len() && bare_symbol_name_of(*res@[t].0) == entries@[j].0@,
        decreases entries@.len() - i,
    {
        let name = entries[i].0.as_str();
        let keep = if skip_refers { !refers.contains(name) } else { true };
        let ghost before = res@;
        if keep {
            let key = Value::symbol_unqualified_ptr(name);
            let val = Value::var_ptr(entries[i].1.clone());
            res.push((key, val));
            proof {
                let t = res@.len() - 1;
                assert(res@[t] == (key, val));
                assert(bare_symbol_name_of(*res@[t].0) == entries@[i as int].0@);
                assert(ns.spec_vars().contains_key(entries@[i as int].0@));
                assert forall|j: int| 0 <= j < res@.len() implies {
                    let k = bare_symbol_name_of(*(#[trigger] res@[j]).0);
                    &&& *res@[j].0 is Symbol
                    &&& ns.spec_vars().contains_key(k)
                    &&& !excluded.contains(k)
                    &&& *res@[j].1 == Value::Var(ns.spec_vars()[k], ns.spec_vars()[k].spec_meta())
                } by {
                    if j < t {
                        assert(res@[j] == before[j]);
                    }
                }
                assert forall|j: int| 0 <= j < i + 1 && !excluded.contains(#[trigger] entries@[j].0@)
                    implies exists|u: int| 0 <= u < res@.len() && bare_symbol_name_of(*res@[u].0) == entries@[j].0@ by {
                    if j < i {
                        let u = choose|u: int| 0 <= u < before.len() && bare_symbol_name_of(*before[u].0) == entries@[j].0@;
                        assert(res@[u] == before[u]);
                    } else {
                        assert(bare_symbol_name_of(*res@[t].0) == entries@[j].0@);
                    }
                }
            }
        }
        i += 1;
    }
    proof {
        assert forall|k: Seq<char>| #[trigger] ns.spec_vars().contains_key(k) && !excluded.contains(k)
            implies exists|t: int| 0 <= t < res@.len() && bare_symbol_name_of(*res@[t].0) == k by {
            let j = choose|j: int| 0 <= j < entries@.len() && entries@[j].0@ == k;
            assert(!excluded.contains(entries@[j].0@));
        }
    }
    res
}

/// `(ns-publics ns)`: a map from bare symbols to the vars of the namespace
/// a handle stands for, leaving out the vars it refers to.
pub fn ns_publics(env: &Environment, ns: &Value) -> (res: Result<PtrValue, BuiltinError>)
    ensures
        match res {
            Ok(r) => *ns matches Value::Handle(Handle::Namespace(n), _) && env.spec_resolve(n) is Some
                && (*r matches Value::ValueMap(m, None) && exists|p: Seq<(PtrValue, PtrValue)>|
                    m@ == crate::map::assoc_all(Seq::empty(), p) && #[trigger] var_pairs(p,
                    env.spec_resolve(n).unwrap().spec_vars(), env.spec_resolve(n).unwrap().spec_refers().dom())),
            Err(_) => !(*ns matches Value::Handle(Handle::Namespace(n), _) && env.spec_resolve(n) is Some),
        },
{
    let target = namespace_of(env, ns)?;
    let pairs = var_pairs_of(&target, true);
    Ok(Value::new_map_ptr(pairs))
}

/// `(ns-map sym)`: a map from bare symbols to all the vars of the namespace
/// the symbol names.
pub fn ns_map(env: &Environment, sym: &Value) -> (res: Result<PtrValue, BuiltinError>)
    ensures
        match res {
            Ok(r) => *sym is Symbol && env.spec_namespaces().contains_key(symbol_arg_name(*sym))
                && (*r matches Value::ValueMap(m, None) && exists|p: Seq<(PtrValue, PtrValue)>|
                    m@ == crate::map::assoc_all(Seq::empty(), p) && #[trigger] var_pairs(p,
                    env.spec_namespaces()[symbol_arg_name(*sym)].spec_vars(), Set::empty())),
            Err(_) => !(*sym is Symbol && env.spec_namespaces().contains_key(symbol_arg_name(*sym))),
        },
{
    let name = symbol_name_of(sym)?;
    let target = match env.try_get_namespace(name.as_str()) {
        Some(t) => t,
        None => {
            return Err(BuiltinError::NoSuchNamespace(SymbolUnqualified::new(name.as_str())));
        },
    };
    let pairs = var_pairs_of(&target, false);
    let ghost p = pairs@;
    let r = Value::new_map_ptr(pairs);
    proof {
        assert(var_pairs(p, env.spec_namespaces()[symbol_arg_name(*sym)].spec_vars(), Set::empty()));
    }
    Ok(r)
}


/// The namespace part and the name of a symbol value.
pub open spec fn symbol_view_of(v: Value) -> (Option<Seq<char>>, Seq<char>) {
    match v {
        Value::Symbol(s, _) => s@,
        _ => (None, Seq::empty()),
    }
}

/// Whether `p` pairs the vars of the namespace `ns_name` with what they
/// hold: each pair's key is a var's name qualified by `ns_name`, its value
/// the var's value, or the var itself where it is unbound; and each var is
/// named by some pair.
pub open spec fn value_pairs(p: Seq<(PtrValue, PtrValue)>, ns_name: Seq<char>, vars: Map<Seq<char>, PtrVar>) -> bool {
    &&& forall|i: int| 0 <= i < p.len() ==> {
        let k = symbol_view_of(*(#[trigger] p[i]).0).1;
        &&& *p[i].0 is Symbol
        &&& symbol_view_of(*p[i].0).0 == Some(ns_name)
        &&& vars.contains_key(k)
        &&& match vars[k].spec_value() {
            Some(x) => p[i].1 == x,
            None => *p[i].1 == Value::Var(vars[k], vars[k].spec_meta()),
        }
    }
    &&& forall|k: Seq<char>| #[trigger] vars.contains_key(k)
        ==> exists|i: int| 0 <= i < p.len() && symbol_view_of(*p[i].0).1 == k
}

/// `(ns-map-2 sym)`: a map from the qualified names of the vars of the
/// namespace the symbol names to what the vars hold (the var itself where it
/// is unbound).
#[verifier::loop_isolation(false)]
pub fn ns_map_2(env: &Environment, sym: &Value) -> (res: Result<PtrValue, BuiltinError>)
    ensures
        match res {
            Ok(r) => *sym is Symbol && env.spec_namespaces().contains_key(symbol_arg_name(*sym))
                && (*r matches Value::ValueMap(m, None) && exists|p: Seq<(PtrValue, PtrValue)>|
                    m@ == crate::map::assoc_all(Seq::empty(), p) && #[trigger] value_pairs(p,
                    symbol_arg_name(*sym), env.spec_namespaces()[symbol_arg_name(*sym)].spec_vars())),
            Err(_) => !(*sym is Symbol && env.spec_namespaces().contains_key(symbol_arg_name(*sym))),
        },
{
    let name = symbol_name_of(sym)?;
    let target = match env.try_get_namespace(name.as_str()) {
        Some(t) => t,
        None => {
            return Err(BuiltinError::NoSuchNamespace(SymbolUnqualified::new(name.as_str())));
        },
    };
    let ghost vars = target.spec_vars();
    let entries = target.entries();
    let mut res: Vec<(PtrValue, PtrValue)> = Vec::new();
    let mut i: usize = 0;
    while i < entries.len()
        invariant
            0 <= i <= entries@.len(),
            vars == target.spec_vars(),
            forall|j: int| 0 <= j < res@.len() ==> {
                let k = symbol_view_of(*(#[trigger] res@[j]).0).1;
                &&& *res@[j].0 is Symbol
                &&& symbol_view_of(*res@[j].0).0 == Some(name@)
                &&& vars.contains_key(k)
                &&& match vars[k].spec_value() {
                    Some(x) => res@[j].1 == x,
                    None => *res@[j].1 == Value::Var(vars[k], vars[k].spec_meta()),
                }
            },
            forall|j: int| 0 <= j < i ==> exists|t: int| 0 <= t < res@.len()
                && symbol_view_of(*res@[t].0).1 == (#[trigger] entries@[j]).0@,
        decreases entries@.len() - i,
    {
        let var = entries[i].1.clone();
        let key = Value::symbol_qualified_ptr(name.as_str(), entries[i].0.as_str());
        let val = match var.deref() {
            Some(x) => x,
            None => Value::var_ptr(var),
        };
        let ghost before = res@;
        res.push((key, val));
        proof {
            let t = res@.len() - 1;
            assert(res@[t] == (key, val));
            assert(vars.contains_key(entries@[i as int].0@));
            assert(vars[entries@[i as int].0@] == entries@[i as int].1);
            assert forall|j: int| 0 <= j < res@.len() implies {
                let k = symbol_view_of(*(#[trigger] res@[j]).0).1;
                &&& *res@[j].0 is Symbol
                &&& symbol_view_of(*res@[j].0).0 == Some(name@)
                &&& vars.contains_key(k)
                &&& match vars[k].spec_value() {
                    Some(x) => res@[j].1 == x,
                    None => *res@[j].1 == Value::Var(vars[k], vars[k].spec_meta()),
                }
            } by {
                if j < t {
                    assert(res@[j] == before[j]);
                }
            }
            assert forall|j: int| 0 <= j < i + 1 implies exists|u: int| 0 <= u < res@.len()
                && symbol_view_of(*res@[u].0).1 == (#[trigger] entries@[j]).0@ by {
                if j < i {
                    let u = choose|u: int| 0 <= u < before.len() && symbol_view_of(*before[u].0).1 == entries@[j].0@;
                    assert(res@[u] == before[u]);
                } else {
                    assert(symbol_view_of(*res@[t].0).1 == entries@[j].0@);
                }
            }
        }
        i += 1;
    }
    proof {
        assert forall|k: Seq<char>| #[trigger] vars.contains_key(k)
            implies exists|t: int| 0 <= t < res@.len() && symbol_view_of(*res@[t].0).1 == k by {
            let j = choose|j: int| 0 <= j < entries@.len() && entries@[j].0@ == k;
            assert(symbol_view_of(*res@[0].0).1 == symbol_view_of(*res@[0].0).1);
            assert(exists|t: int| 0 <= t < res@.len() && symbol_view_of(*res@[t].0).1 == (#[trigger] entries@[j]).0@);
        }
    }
    let ghost p = res@;
    let r = Value::new_map_ptr(res);
    proof {
        assert(value_pairs(p, symbol_arg_name(*sym), env.spec_namespaces()[symbol_arg_name(*sym)].spec_vars()));
    }
    Ok(r)
}


/// Whether `p` pairs bare symbols with the referred vars of a namespace: each pair
/// names an entry of `table` with a value for that var, and each entry is named by some
/// pair.
pub open spec fn refers_pairs(p: Seq<(PtrValue, PtrValue)>, table: Map<Seq<char>, PtrVar>) -> bool {
    &&& forall|i: int| 0 <= i < p.len() ==> {
        let k = bare_symbol_name_of(*(#[trigger] p[i]).0);
        &&& *p[i].0 is Symbol
        &&& table.contains_key(k)
        &&& *p[i].1 == Value::Var(table[k], table[k].spec_meta())
    }
    &&& forall|k: Seq<char>| #[trigger] table.contains_key(k)
        ==> exists|i: int| 0 <= i < p.len() && bare_symbol_name_of(*p[i].0) == k
}

/// `(ns-refers ns)`: a map from bare symbols to the referred vars of the namespace
/// a handle stands for.
#[verifier::loop_isolation(false)]
pub fn ns_refers(env: &Environment, ns: &Value) -> (res: Result<PtrValue, BuiltinError>)
    ensures
        match res {
            Ok(r) => *ns matches Value::Handle(Handle::Namespace(n), _) && env.spec_resolve(n) is Some
                && (*r matches Value::ValueMap(m, None) && exists|p: Seq<(PtrValue, PtrValue)>|
                    m@ == crate::map::assoc_all(Seq::empty(), p) && #[trigger] refers_pairs(p,
                    env.spec_resolve(n).unwrap().spec_refers())),
            Err(_) => !(*ns matches Value::Handle(Handle::Namespace(n), _) && env.spec_resolve(n) is Some),
        },
{
    let target = namespace_of(env, ns)?;
    let table = target.refers();
    let entries = table.entries_list();
    let ghost tv = target.spec_refers();
    let mut res: Vec<(PtrValue, PtrValue)> = Vec::new();
    let mut i: usize = 0;
    while i < entries.len()
        invariant
            0 <= i <= entries@.len(),
            forall|j: int| 0 <= j < res@.len() ==> {
                let k = bare_symbol_name_of(*(#[trigger] res@[j]).0);
                &&& *res@[j].0 is Symbol
                &&& tv.contains_key(k)
                &&& *res@[j].1 == Value::Var(tv[k], tv[k].spec_meta())
            },
            forall|j: int| 0 <= j < i ==> exists|t: int| 0 <= t < res@.len()
                && bare_symbol_name_of(*res@[t].0) == (#[trigger] entries@[j]).0@,
        decreases entries@.len() - i,
    {
        let key = Value::symbol_unqualified_ptr(entries[i].0.as_str());
        let val = Value::var_ptr(entries[i].1.clone());
        let ghost before = res@;
        res.push((key, val));
        proof {
            let t = res@.len() - 1;
            assert(res@[t] == (key, val));
            assert(tv.contains_key(entries@[i as int].0@));
            assert forall|j: int| 0 <= j < res@.len() implies {
                let k = bare_symbol_name_of(*(#[trigger] res@[j]).0);
                &&& *res@[j].0 is Symbol
                &&& tv.contains_key(k)
                &&& *res@[j].1 == Value::Var(tv[k], tv[k].spec_meta())
            } by {
                if j < t {
                    assert(res@[j] == before[j]);
                }
            }
            assert forall|j: int| 0 <= j < i + 1 implies exists|u: int| 0 <= u < res@.len()
                && bare_symbol_name_of(*res@[u].0) == (#[trigger] entries@[j]).0@ by {
                if j < i {
                    let u = choose|u: int| 0 <= u < before.len() && bare_symbol_name_of(*before[u].0) == entries@[j].0@;
                    assert(res@[u] == before[u]);
                } else {
                    assert(bare_symbol_name_of(*res@[t].0) == entries@[j].0@);
                }
            }
        }
        i += 1;
    }
    proof {
        assert forall|k: Seq<char>| #[trigger] tv.contains_key(k)
            implies exists|t: int| 0 <= t < res@.len() && bare_symbol_name_of(*res@[t].0) == k by {
            let j = choose|j: int| 0 <= j < entries@.len() && entries@[j].0@ == k;
            assert(entries@[j].0@ == k);
        }
    }
    let ghost p = res@;
    let r = Value::new_map_ptr(res);
    proof {
        assert(refers_pairs(p, tv));
    }
    Ok(r)
}

/// Whether `p` pairs bare symbols with the imports of a namespace: each pair
/// names an entry of `table` with the fully qualified name it stands for, and each entry is named by some
/// pair.
pub open spec fn imports_pairs(p: Seq<(PtrValue, PtrValue)>, table: Map<Seq<char>, String>) -> bool {
    &&& forall|i: int| 0 <= i < p.len() ==> {
        let k = bare_symbol_name_of(*(#[trigger] p[i]).0);
        &&& *p[i].0 is Symbol
        &&& table.contains_key(k)
        &&& *p[i].1 == Value::String(table[k], None)
    }
    &&& forall|k: Seq<char>| #[trigger] table.contains_key(k)
        ==> exists|i: int| 0 <= i < p.len() && bare_symbol_name_of(*p[i].0) == k
}

/// `(ns-imports ns)`: a map from bare symbols to the imports of the namespace
/// a handle stands for.
#[verifier::loop_isolation(false)]
pub fn ns_imports(env: &Environment, ns: &Value) -> (res: Result<PtrValue, BuiltinError>)
    ensures
        match res {
            Ok(r) => *ns matches Value::Handle(Handle::Namespace(n), _) && env.spec_resolve(n) is Some
                && (*r matches Value::ValueMap(m, None) && exists|p: Seq<(PtrValue, PtrValue)>|
                    m@ == crate::map::assoc_all(Seq::empty(), p) && #[trigger] imports_pairs(p,
                    env.spec_resolve(n).unwrap().spec_imports())),
            Err(_) => !(*ns matches Value::Handle(Handle::Namespace(n), _) && env.spec_resolve(n) is Some),
        },
{
    let target = namespace_of(env, ns)?;
    let table = target.imports();
    let entries = table.entries_list();
    let ghost tv = target.spec_imports();
    let mut res: Vec<(PtrValue, PtrValue)> = Vec::new();
    let mut i: usize = 0;
    while i < entries.len()
        invariant
            0 <= i <= entries@.len(),
            forall|j: int| 0 <= j < res@.len() ==> {
                let k = bare_symbol_name_of(*(#[trigger] res@[j]).0);
                &&& *res@[j].0 is Symbol
                &&& tv.contains_key(k)
                &&& *res@[j].1 == Value::String(tv[k], None)
            },
            forall|j: int| 0 <= j < i ==> exists|t: int| 0 <= t < res@.len()
                && bare_symbol_name_of(*res@[t].0) == (#[trigger] entries@[j]).0@,
        decreases entries@.len() - i,
    {
        let key = Value::symbol_unqualified_ptr(entries[i].0.as_str());
        let val = Value::string_ptr(entries[i].1.clone());
        let ghost before = res@;
        res.push((key, val));
        proof {
            let t = res@.len() - 1;
            assert(res@[t] == (key, val));
            assert(tv.contains_key(entries@[i as int].0@));
            assert forall|j: int| 0 <= j < res@.len() implies {
                let k = bare_symbol_name_of(*(#[trigger] res@[j]).0);
                &&& *res@[j].0 is Symbol
                &&& tv.contains_key(k)
                &&& *res@[j].1 == Value::String(tv[k], None)
            } by {
                if j < t {
                    assert(res@[j] == before[j]);
                }
            }
            assert forall|j: int| 0 <= j < i + 1 implies exists|u: int| 0 <= u < res@.len()
                && bare_symbol_name_of(*res@[u].0) == (#[trigger] entries@[j]).0@ by {
                if j < i {
                    let u = choose|u: int| 0 <= u < before.len() && bare_symbol_name_of(*before[u].0) == entries@[j].0@;
                    assert(res@[u] == before[u]);
                } else {
                    assert(bare_symbol_name_of(*res@[t].0) == entries@[j].0@);
                }
            }
        }
        i += 1;
    }
    proof {
        assert forall|k: Seq<char>| #[trigger] tv.contains_key(k)
            implies exists|t: int| 0 <= t < res@.len() && bare_symbol_name_of(*res@[t].0) == k by {
            let j = choose|j: int| 0 <= j < entries@.len() && entries@[j].0@ == k;
            assert(entries@[j].0@ == k);
        }
    }
    let ghost p = res@;
    let r = Value::new_map_ptr(res);
    proof {
        assert(imports_pairs(p, tv));
    }
    Ok(r)
}

/// Whether `p` pairs bare symbols with the aliases of a namespace: each pair
/// names an entry of `table`, with a handle that reaches the namespace of
/// `env` the entry names, or `nil` where `env` has no namespace of that
/// name; and each entry is named by some pair.
pub open spec fn aliases_pairs(p: Seq<(PtrValue, PtrValue)>, table: Map<Seq<char>, SymbolUnqualified>, env: Environment) -> bool {
    &&& forall|i: int| 0 <= i < p.len() ==> {
        let k = bare_symbol_name_of(*(#[trigger] p[i]).0);
        &&& *p[i].0 is Symbol
        &&& table.contains_key(k)
        &&& if env.spec_namespaces().contains_key(table[k]@) {
            *p[i].1 matches Value::Handle(Handle::Namespace(t), None) && t.name@ == table[k]@
                && env.spec_resolve(t) == Some(env.spec_namespaces()[table[k]@])
        } else {
            *p[i].1 == Value::Nil(None)
        }
    }
    &&& forall|k: Seq<char>| #[trigger] table.contains_key(k)
        ==> exists|i: int| 0 <= i < p.len() && bare_symbol_name_of(*p[i].0) == k
}

/// `(ns-aliases ns)`: a map from bare symbols to new handles to the
/// namespaces the aliases of the namespace a handle reaches stand for.
#[verifier::loop_isolation(false)]
pub fn ns_aliases(env: &mut Environment, ns: &Value) -> (res: Result<PtrValue, BuiltinError>)
    ensures
        same_namespaces(*final(env), *old(env)),
        match res {
            Ok(r) => *ns matches Value::Handle(Handle::Namespace(n), _) && old(env).spec_resolve(n) is Some
                && (*r matches Value::ValueMap(m, None) && exists|p: Seq<(PtrValue, PtrValue)>|
                    m@ == crate::map::assoc_all(Seq::empty(), p) && #[trigger] aliases_pairs(p,
                    old(env).spec_resolve(n).unwrap().spec_aliases(), *final(env))),
            Err(_) => !(*ns matches Value::Handle(Handle::Namespace(n), _) && old(env).spec_resolve(n) is Some),
        },
{
    let ghost pre = *env;
    let target = namespace_of(env, ns)?;
    let table = target.aliases();
    let entries = table.entries_list();
    let ghost tv = target.spec_aliases();
    let mut res: Vec<(PtrValue, PtrValue)> = Vec::new();
    let mut i: usize = 0;
    while i < entries.len()
        invariant
            0 <= i <= entries@.len(),
            same_namespaces(*env, pre),
            forall|j: int| 0 <= j < res@.len() ==> {
                let k = bare_symbol_name_of(*(#[trigger] res@[j]).0);
                &&& *res@[j].0 is Symbol
                &&& tv.contains_key(k)
                &&& if env.spec_namespaces().contains_key(tv[k]@) {
                    *res@[j].1 matches Value::Handle(Handle::Namespace(t), None) && t.name@ == tv[k]@
                        && env.spec_resolve(t) == Some(env.spec_namespaces()[tv[k]@])
                } else {
                    *res@[j].1 == Value::Nil(None)
                }
            },
            forall|j: int| 0 <= j < i ==> exists|t: int| 0 <= t < res@.len()
                && bare_symbol_name_of(*res@[t].0) == (#[trigger] entries@[j]).0@,
        decreases entries@.len() - i,
    {
        let key = Value::symbol_unqualified_ptr(entries[i].0.as_str());
        let ghost before_env = *env;
        let val = match env.try_get_namespace_handle_value(entries[i].1.name()) {
            Some(v) => v,
            None => Value::nil_ptr(),
        };
        let ghost before = res@;
        res.push((key, val));
        proof {
            let t = res@.len() - 1;
            assert(res@[t] == (key, val));
            assert(tv.contains_key(entries@[i as int].0@));
            assert(env.spec_namespaces() == before_env.spec_namespaces());
            assert forall|j: int| 0 <= j < res@.len() implies {
                let k = bare_symbol_name_of(*(#[trigger] res@[j]).0);
                &&& *res@[j].0 is Symbol
                &&& tv.contains_key(k)
                &&& if env.spec_namespaces().contains_key(tv[k]@) {
                    *res@[j].1 matches Value::Handle(Handle::Namespace(t), None) && t.name@ == tv[k]@
                        && env.spec_resolve(t) == Some(env.spec_namespaces()[tv[k]@])
                } else {
                    *res@[j].1 == Value::Nil(None)
                }
            } by {
                if j < t {
                    assert(res@[j] == before[j]);
                }
            }
            assert forall|j: int| 0 <= j < i + 1 implies exists|u: int| 0 <= u < res@.len()
                && bare_symbol_name_of(*res@[u].0) == (#[trigger] entries@[j]).0@ by {
                if j < i {
                    let u = choose|u: int| 0 <= u < before.len() && bare_symbol_name_of(*before[u].0) == entries@[j].0@;
                    assert(res@[u] == before[u]);
                } else {
                    assert(bare_symbol_name_of(*res@[t].0) == entries@[j].0@);
                }
            }
        }
        i += 1;
    }
    proof {
        assert forall|k: Seq<char>| #[trigger] tv.contains_key(k)
            implies exists|t: int| 0 <= t < res@.len() && bare_symbol_name_of(*res@[t].0) == k by {
            let j = choose|j: int| 0 <= j < entries@.len() && entries@[j].0@ == k;
            assert(entries@[j].0@ == k);
        }
    }
    let ghost p = res@;
    let r = Value::new_map_ptr(res);
    proof {
        assert(aliases_pairs(p, tv, *env));
    }
    Ok(r)
}

} // verus!
