//! The runtime values of the interpreter.
use vstd::prelude::*;
use std::sync::Arc;
use crate::symbol::SymbolUnqualified;
use crate::float::{Float, bits_eq, bits_equal, bits_is_nan};
use crate::function::{Function, PtrFunction};
use crate::handle::{Handle, NamespaceHandle, handle_same};
use crate::keyword::Keyword;
use crate::list::List;
use crate::map::{ValueMap, assoc_all};
use crate::set::{ValueSet, dedup_values};
use crate::symbol::Symbol;
use crate::var::PtrVar;
use crate::vector::Vector;

pub mod optics;
pub mod partials;

verus! {

/// A reference-counted pointer to a [`Value`].
pub type PtrValue = Arc<Value>;

/// The core runtime value type representing all possible values in the interpreter.
///
/// Each variant carries optional metadata in the form of an `Option<Arc<ValueMap>>`;
/// metadata takes no part in equality.
#[derive(Debug)]
pub enum Value {
    /// The empty value (`nil` in Clojure)
    Nil(Option<Arc<ValueMap>>),
    /// Boolean values (`true` or `false`)
    Boolean(bool, Option<Arc<ValueMap>>),
    /// 64-bit signed integers
    Integer(i64, Option<Arc<ValueMap>>),
    /// Floating-point numbers
    Float(Float, Option<Arc<ValueMap>>),
    /// UTF-8 strings
    String(String, Option<Arc<ValueMap>>),
    /// Symbols for namespaced identifiers
    Symbol(Symbol, Option<Arc<ValueMap>>),
    /// Keywords for metadata and attributes
    Keyword(Keyword, Option<Arc<ValueMap>>),
    /// Lists
    List(List, Option<Arc<ValueMap>>),
    /// Vectors
    Vector(Vector, Option<Arc<ValueMap>>),
    /// Sets
    ValueSet(ValueSet, Option<Arc<ValueMap>>),
    /// Maps
    ValueMap(ValueMap, Option<Arc<ValueMap>>),
    /// References to namespace-bound variables
    Var(PtrVar, Option<Arc<ValueMap>>),
    /// Functions
    Function(PtrFunction, Option<Arc<ValueMap>>),
    /// Handles for namespaces, functions and outside resources
    Handle(Handle, Option<Arc<ValueMap>>),
}

/// Whether `x` equals (by [`value_eq`]) some element of `ys` below index `n`.
pub closed spec fn seq_contains_eq(ys: Seq<PtrValue>, x: Value, n: int) -> bool
    decreases x, 1int, n,
{
    if n <= 0 || n > ys.len() {
        false
    } else {
        value_eq(x, *ys[n - 1]) || seq_contains_eq(ys, x, n - 1)
    }
}

/// Whether every element of `xs` below index `n` equals some element of `ys`.
pub closed spec fn seq_all_contained(xs: Seq<PtrValue>, ys: Seq<PtrValue>, n: int) -> bool
    decreases xs, 2int, n,
{
    if n <= 0 || n > xs.len() {
        n <= 0
    } else {
        seq_contains_eq(ys, *xs[n - 1], ys.len() as int) && seq_all_contained(xs, ys, n - 1)
    }
}

/// Whether the first `n` elements of `xs` and `ys` are pairwise equal.
pub closed spec fn seq_pairwise_eq(xs: Seq<PtrValue>, ys: Seq<PtrValue>, n: int) -> bool
    decreases xs, 2int, n,
{
    if n <= 0 || n > xs.len() || n > ys.len() {
        n <= 0
    } else {
        value_eq(*xs[n - 1], *ys[n - 1]) && seq_pairwise_eq(xs, ys, n - 1)
    }
}

/// Whether the key and the value of `entry` equal those of some entry of
/// `ys` below index `n`.
pub closed spec fn entries_contain_eq(ys: Seq<(PtrValue, PtrValue)>, entry: (PtrValue, PtrValue), n: int) -> bool
    decreases entry, 1int, n,
{
    if n <= 0 || n > ys.len() {
        false
    } else {
        (value_eq(*entry.0, *ys[n - 1].0) && value_eq(*entry.1, *ys[n - 1].1))
            || entries_contain_eq(ys, entry, n - 1)
    }
}

/// Whether every entry of `xs` below index `n` has an equal entry in `ys`.
pub closed spec fn entries_all_contained(xs: Seq<(PtrValue, PtrValue)>, ys: Seq<(PtrValue, PtrValue)>, n: int) -> bool
    decreases xs, 2int, n,
{
    if n <= 0 || n > xs.len() {
        n <= 0
    } else {
        entries_contain_eq(ys, xs[n - 1], ys.len() as int) && entries_all_contained(xs, ys, n - 1)
    }
}

/// Whether some element of `xs` below index `n` equals `y`.
pub closed spec fn seq_eq_contains(xs: Seq<PtrValue>, y: Value, n: int) -> bool
    decreases xs, 1int, n,
{
    if n <= 0 || n > xs.len() {
        false
    } else {
        value_eq(*xs[n - 1], y) || seq_eq_contains(xs, y, n - 1)
    }
}

/// Whether every element of `ys` below index `n` is equalled by some element of `xs`.
pub closed spec fn seq_all_covered(xs: Seq<PtrValue>, ys: Seq<PtrValue>, n: int) -> bool
    decreases xs, 2int, n,
{
    if n <= 0 || n > ys.len() {
        n <= 0
    } else {
        seq_eq_contains(xs, *ys[n - 1], xs.len() as int) && seq_all_covered(xs, ys, n - 1)
    }
}

/// Whether some entry of `xs` below index `n` has a key and a value equal to
/// those of `entry`.
pub closed spec fn entries_eq_contain(xs: Seq<(PtrValue, PtrValue)>, entry: (PtrValue, PtrValue), n: int) -> bool
    decreases xs, 1int, n,
{
    if n <= 0 || n > xs.len() {
        false
    } else {
        (value_eq(*xs[n - 1].0, *entry.0) && value_eq(*xs[n - 1].1, *entry.1))
            || entries_eq_contain(xs, entry, n - 1)
    }
}

/// Whether every entry of `ys` below index `n` is equalled by some entry of `xs`.
pub closed spec fn entries_all_covered(xs: Seq<(PtrValue, PtrValue)>, ys: Seq<(PtrValue, PtrValue)>, n: int) -> bool
    decreases xs, 2int, n,
{
    if n <= 0 || n > ys.len() {
        n <= 0
    } else {
        entries_eq_contain(xs, ys[n - 1], xs.len() as int) && entries_all_covered(xs, ys, n - 1)
    }
}

/// Equality of values: metadata is ignored, floats compare as binary64
/// numbers, lists and vectors compare element by element, sets and maps
/// compare without regard to order, vars compare by what they are bound to,
/// and functions and handles compare as the things they hold.
pub closed spec fn value_eq(a: Value, b: Value) -> bool
    decreases a, 0int, 0int,
{
    match (a, b) {
        (Value::Nil(_), Value::Nil(_)) => true,
        (Value::Boolean(x, _), Value::Boolean(y, _)) => x == y,
        (Value::Integer(x, _), Value::Integer(y, _)) => x == y,
        (Value::Float(x, _), Value::Float(y, _)) => bits_equal(x.bits(), y.bits()),
        (Value::String(x, _), Value::String(y, _)) => x@ == y@,
        (Value::Symbol(x, _), Value::Symbol(y, _)) => x@ == y@,
        (Value::Keyword(x, _), Value::Keyword(y, _)) => x@ == y@,
        (Value::List(x, _), Value::List(y, _)) =>
            x.0@.len() == y.0@.len() && seq_pairwise_eq(x.0@, y.0@, x.0@.len() as int),
        (Value::Vector(x, _), Value::Vector(y, _)) =>
            x.0@.len() == y.0@.len() && seq_pairwise_eq(x.0@, y.0@, x.0@.len() as int),
        (Value::ValueSet(x, _), Value::ValueSet(y, _)) =>
            x.0@.len() == y.0@.len() && seq_all_contained(x.0@, y.0@, x.0@.len() as int)
                && seq_all_covered(x.0@, y.0@, y.0@.len() as int),
        (Value::ValueMap(x, _), Value::ValueMap(y, _)) =>
            x.0@.len() == y.0@.len() && entries_all_contained(x.0@, y.0@, x.0@.len() as int)
                && entries_all_covered(x.0@, y.0@, y.0@.len() as int),
        (Value::Var(x, _), Value::Var(y, _)) => match (x.value, y.value) {
            (None, None) => true,
            (Some(xv), Some(yv)) => value_eq(*xv, *yv),
            _ => false,
        },
        (Value::Function(x, _), Value::Function(y, _)) => (*x)@ == (*y)@,
        (Value::Handle(x, _), Value::Handle(y, _)) => handle_same(x, y),
        _ => false,
    }
}


/// Whether two values are equal, as [`value_eq`] says.
pub fn values_equal(a: &Value, b: &Value) -> (res: bool)
    ensures
        res == value_eq(*a, *b),
    decreases *a, 0int, 0int,
{
    match (a, b) {
        (Value::Nil(_), Value::Nil(_)) => true,
        (Value::Boolean(x, _), Value::Boolean(y, _)) => *x == *y,
        (Value::Integer(x, _), Value::Integer(y, _)) => *x == *y,
        (Value::Float(x, _), Value::Float(y, _)) => bits_eq(x.to_bits(), y.to_bits()),
        (Value::String(x, _), Value::String(y, _)) => *x == *y,
        (Value::Symbol(x, _), Value::Symbol(y, _)) => *x == *y,
        (Value::Keyword(x, _), Value::Keyword(y, _)) => *x == *y,
        (Value::List(x, _), Value::List(y, _)) => seqs_pairwise_equal(&x.0, &y.0),
        (Value::Vector(x, _), Value::Vector(y, _)) => seqs_pairwise_equal(&x.0, &y.0),
        (Value::ValueSet(x, _), Value::ValueSet(y, _)) => {
            x.0.len() == y.0.len() && seqs_all_contained(&x.0, &y.0) && seqs_all_covered(&x.0, &y.0)
        },
        (Value::ValueMap(x, _), Value::ValueMap(y, _)) => {
            x.0.len() == y.0.len() && entries_all_contained_exec(&x.0, &y.0)
                && entries_all_covered_exec(&x.0, &y.0)
        },
        (Value::Var(x, _), Value::Var(y, _)) => match (&x.value, &y.value) {
            (None, None) => true,
            (Some(xv), Some(yv)) => values_equal(&**xv, &**yv),
            _ => false,
        },
        (Value::Function(x, _), Value::Function(y, _)) => **x == **y,
        (Value::Handle(x, _), Value::Handle(y, _)) => *x == *y,
        _ => false,
    }
}

pub(crate) fn seqs_pairwise_equal(xs: &Vec<PtrValue>, ys: &Vec<PtrValue>) -> (res: bool)
    ensures
        res == (xs@.len() == ys@.len() && seq_pairwise_eq(xs@, ys@, xs@.len() as int)),
    decreases xs@, 2int, 0int,
{
    if xs.len() != ys.len() {
        return false;
    }
    let mut i: usize = 0;
    while i < xs.len()
        invariant
            0 <= i <= xs@.len(),
            xs@.len() == ys@.len(),
            seq_pairwise_eq(xs@, ys@, i as int),
        decreases xs@.len() - i,
    {
        if !values_equal(&*xs[i], &*ys[i]) {
            proof {
                if seq_pairwise_eq(xs@, ys@, xs@.len() as int) {
                    lemma_pairwise_prefix(xs@, ys@, i as int + 1, xs@.len() as int);
                }
            }
            return false;
        }
        i += 1;
    }
    true
}

proof fn lemma_pairwise_prefix(xs: Seq<PtrValue>, ys: Seq<PtrValue>, m: int, n: int)
    requires
        0 <= m <= n,
        n <= xs.len(),
        n <= ys.len(),
        seq_pairwise_eq(xs, ys, n),
    ensures
        seq_pairwise_eq(xs, ys, m),
    decreases n - m,
{
    if m < n {
        lemma_pairwise_prefix(xs, ys, m, n - 1);
    }
}

fn seq_contains_exec(ys: &Vec<PtrValue>, x: &Value) -> (res: bool)
    ensures
        res == seq_contains_eq(ys@, *x, ys@.len() as int),
    decreases *x, 1int, 0int,
{
    let mut i: usize = 0;
    while i < ys.len()
        invariant
            0 <= i <= ys@.len(),
            !seq_contains_eq(ys@, *x, i as int),
        decreases ys@.len() - i,
    {
        if values_equal(x, &*ys[i]) {
            proof {
                lemma_contains_grows(ys@, *x, i as int + 1, ys@.len() as int);
            }
            return true;
        }
        i += 1;
    }
    false
}

proof fn lemma_contains_grows(ys: Seq<PtrValue>, x: Value, m: int, n: int)
    requires
        0 < m <= n <= ys.len(),
        seq_contains_eq(ys, x, m),
    ensures
        seq_contains_eq(ys, x, n),
    decreases n - m,
{
    if m < n {
        lemma_contains_grows(ys, x, m, n - 1);
    }
}

fn seqs_all_contained(xs: &Vec<PtrValue>, ys: &Vec<PtrValue>) -> (res: bool)
    ensures
        res == seq_all_contained(xs@, ys@, xs@.len() as int),
    decreases xs@, 2int, 0int,
{
    let mut i: usize = 0;
    while i < xs.len()
        invariant
            0 <= i <= xs@.len(),
            seq_all_contained(xs@, ys@, i as int),
        decreases xs@.len() - i,
    {
        if !seq_contains_exec(ys, &*xs[i]) {
            proof {
                if seq_all_contained(xs@, ys@, xs@.len() as int) {
                    lemma_all_contained_prefix(xs@, ys@, i as int + 1, xs@.len() as int);
                }
            }
            return false;
        }
        i += 1;
    }
    true
}

proof fn lemma_all_contained_prefix(xs: Seq<PtrValue>, ys: Seq<PtrValue>, m: int, n: int)
    requires
        0 <= m <= n <= xs.len(),
        seq_all_contained(xs, ys, n),
    ensures
        seq_all_contained(xs, ys, m),
    decreases n - m,
{
    if m < n {
        lemma_all_contained_prefix(xs, ys, m, n - 1);
    }
}

fn seq_eq_contains_exec(xs: &Vec<PtrValue>, y: &Value) -> (res: bool)
    ensures
        res == seq_eq_contains(xs@, *y, xs@.len() as int),
    decreases xs@, 1int, 0int,
{
    let mut i: usize = 0;
    while i < xs.len()
        invariant
            0 <= i <= xs@.len(),
            !seq_eq_contains(xs@, *y, i as int),
        decreases xs@.len() - i,
    {
        if values_equal(&*xs[i], y) {
            proof {
                lemma_eq_contains_grows(xs@, *y, i as int + 1, xs@.len() as int);
            }
            return true;
        }
        i += 1;
    }
    false
}

proof fn lemma_eq_contains_grows(xs: Seq<PtrValue>, y: Value, m: int, n: int)
    requires
        0 < m <= n <= xs.len(),
        seq_eq_contains(xs, y, m),
    ensures
        seq_eq_contains(xs, y, n),
    decreases n - m,
{
    if m < n {
        lemma_eq_contains_grows(xs, y, m, n - 1);
    }
}

fn seqs_all_covered(xs: &Vec<PtrValue>, ys: &Vec<PtrValue>) -> (res: bool)
    ensures
        res == seq_all_covered(xs@, ys@, ys@.len() as int),
    decreases xs@, 2int, 0int,
{
    let mut i: usize = 0;
    while i < ys.len()
        invariant
            0 <= i <= ys@.len(),
            seq_all_covered(xs@, ys@, i as int),
        decreases ys@.len() - i,
    {
        if !seq_eq_contains_exec(xs, &*ys[i]) {
            proof {
                if seq_all_covered(xs@, ys@, ys@.len() as int) {
                    lemma_all_covered_prefix(xs@, ys@, i as int + 1, ys@.len() as int);
                }
            }
            return false;
        }
        i += 1;
    }
    true
}

proof fn lemma_all_covered_prefix(xs: Seq<PtrValue>, ys: Seq<PtrValue>, m: int, n: int)
    requires
        0 <= m <= n <= ys.len(),
        seq_all_covered(xs, ys, n),
    ensures
        seq_all_covered(xs, ys, m),
    decreases n - m,
{
    if m < n {
        lemma_all_covered_prefix(xs, ys, m, n - 1);
    }
}

fn entries_contain_exec(ys: &Vec<(PtrValue, PtrValue)>, entry: &(PtrValue, PtrValue)) -> (res: bool)
    ensures
        res == entries_contain_eq(ys@, *entry, ys@.len() as int),
    decreases *entry, 1int, 0int,
{
    let mut i: usize = 0;
    while i < ys.len()
        invariant
            0 <= i <= ys@.len(),
            !entries_contain_eq(ys@, *entry, i as int),
        decreases ys@.len() - i,
    {
        if values_equal(&*entry.0, &*ys[i].0) && values_equal(&*entry.1, &*ys[i].1) {
            proof {
                lemma_entries_contain_grows(ys@, *entry, i as int + 1, ys@.len() as int);
            }
            return true;
        }
        i += 1;
    }
    false
}

proof fn lemma_entries_contain_grows(ys: Seq<(PtrValue, PtrValue)>, entry: (PtrValue, PtrValue), m: int, n: int)
    requires
        0 < m <= n <= ys.len(),
        entries_contain_eq(ys, entry, m),
    ensures
        entries_contain_eq(ys, entry, n),
    decreases n - m,
{
    if m < n {
        lemma_entries_contain_grows(ys, entry, m, n - 1);
    }
}

fn entries_all_contained_exec(xs: &Vec<(PtrValue, PtrValue)>, ys: &Vec<(PtrValue, PtrValue)>) -> (res: bool)
    ensures
        res == entries_all_contained(xs@, ys@, xs@.len() as int),
    decreases xs@, 2int, 0int,
{
    let mut i: usize = 0;
    while i < xs.len()
        invariant
            0 <= i <= xs@.len(),
            entries_all_contained(xs@, ys@, i as int),
        decreases xs@.len() - i,
    {
        if !entries_contain_exec(ys, &xs[i]) {
            proof {
                if entries_all_contained(xs@, ys@, xs@.len() as int) {
                    lemma_entries_all_contained_prefix(xs@, ys@, i as int + 1, xs@.len() as int);
                }
            }
            return false;
        }
        i += 1;
    }
    true
}

proof fn lemma_entries_all_contained_prefix(xs: Seq<(PtrValue, PtrValue)>, ys: Seq<(PtrValue, PtrValue)>, m: int, n: int)
    requires
        0 <= m <= n <= xs.len(),
        entries_all_contained(xs, ys, n),
    ensures
        entries_all_contained(xs, ys, m),
    decreases n - m,
{
    if m < n {
        lemma_entries_all_contained_prefix(xs, ys, m, n - 1);
    }
}

fn entries_eq_contain_exec(xs: &Vec<(PtrValue, PtrValue)>, entry: &(PtrValue, PtrValue)) -> (res: bool)
    ensures
        res == entries_eq_contain(xs@, *entry, xs@.len() as int),
    decreases xs@, 1int, 0int,
{
    let mut i: usize = 0;
    while i < xs.len()
        invariant
            0 <= i <= xs@.len(),
            !entries_eq_contain(xs@, *entry, i as int),
        decreases xs@.len() - i,
    {
        if values_equal(&*xs[i].0, &*entry.0) && values_equal(&*xs[i].1, &*entry.1) {
            proof {
                lemma_entries_eq_contain_grows(xs@, *entry, i as int + 1, xs@.len() as int);
            }
            return true;
        }
        i += 1;
    }
    false
}

proof fn lemma_entries_eq_contain_grows(xs: Seq<(PtrValue, PtrValue)>, entry: (PtrValue, PtrValue), m: int, n: int)
    requires
        0 < m <= n <= xs.len(),
        entries_eq_contain(xs, entry, m),
    ensures
        entries_eq_contain(xs, entry, n),
    decreases n - m,
{
    if m < n {
        lemma_entries_eq_contain_grows(xs, entry, m, n - 1);
    }
}

fn entries_all_covered_exec(xs: &Vec<(PtrValue, PtrValue)>, ys: &Vec<(PtrValue, PtrValue)>) -> (res: bool)
    ensures
        res == entries_all_covered(xs@, ys@, ys@.len() as int),
    decreases xs@, 2int, 0int,
{
    let mut i: usize = 0;
    while i < ys.len()
        invariant
            0 <= i <= ys@.len(),
            entries_all_covered(xs@, ys@, i as int),
        decreases ys@.len() - i,
    {
        if !entries_eq_contain_exec(xs, &ys[i]) {
            proof {
                if entries_all_covered(xs@, ys@, ys@.len() as int) {
                    lemma_entries_all_covered_prefix(xs@, ys@, i as int + 1, ys@.len() as int);
                }
            }
            return false;
        }
        i += 1;
    }
    true
}

proof fn lemma_entries_all_covered_prefix(xs: Seq<(PtrValue, PtrValue)>, ys: Seq<(PtrValue, PtrValue)>, m: int, n: int)
    requires
        0 <= m <= n <= ys.len(),
        entries_all_covered(xs, ys, n),
    ensures
        entries_all_covered(xs, ys, m),
    decreases n - m,
{
    if m < n {
        lemma_entries_all_covered_prefix(xs, ys, m, n - 1);
    }
}

impl PartialEq for Value {
    fn eq(&self, other: &Self) -> (res: bool) {
        values_equal(self, other)
    }
}

impl vstd::std_specs::cmp::PartialEqSpecImpl for Value {
    open spec fn obeys_eq_spec() -> bool {
        true
    }

    open spec fn eq_spec(&self, other: &Self) -> bool {
        value_eq(*self, *other)
    }
}


/// The value a pointer points to.
pub open spec fn deref_value(x: PtrValue) -> Value {
    *x
}

/// The element at index `n` of `s`, if there is one.
pub open spec fn elem_at(s: Seq<PtrValue>, n: int) -> Option<PtrValue> {
    if 0 <= n < s.len() {
        Some(s[n])
    } else {
        None
    }
}

/// The element at index `n` of `s`, or `d` if there is none.
pub open spec fn elem_or(s: Seq<PtrValue>, n: int, d: PtrValue) -> PtrValue {
    if 0 <= n < s.len() {
        s[n]
    } else {
        d
    }
}

/// Whether two sequences of values are equal element by element.
pub fn values_equal_seq(xs: &Vec<PtrValue>, ys: &Vec<PtrValue>) -> (res: bool)
    ensures
        res == (xs@.len() == ys@.len() && seq_pairwise_eq(xs@, ys@, xs@.len() as int)),
{
    seqs_pairwise_equal(xs, ys)
}

/// A copy of metadata, equal to it.
pub fn clone_meta(m: &Option<Arc<ValueMap>>) -> (res: Option<Arc<ValueMap>>)
    ensures
        res == *m,
{
    match m {
        Some(x) => Some(x.clone()),
        None => None,
    }
}

/// Whether two sets hold equal elements, as the equality of set values says.
pub fn sets_equal(xs: &Vec<PtrValue>, ys: &Vec<PtrValue>) -> (res: bool)
    ensures
        res == (xs@.len() == ys@.len() && seq_all_contained(xs@, ys@, xs@.len() as int)
            && seq_all_covered(xs@, ys@, ys@.len() as int)),
{
    xs.len() == ys.len() && seqs_all_contained(xs, ys) && seqs_all_covered(xs, ys)
}

/// Whether two maps hold equal entries, as the equality of map values says.
pub fn maps_equal(xs: &Vec<(PtrValue, PtrValue)>, ys: &Vec<(PtrValue, PtrValue)>) -> (res: bool)
    ensures
        res == (xs@.len() == ys@.len() && entries_all_contained(xs@, ys@, xs@.len() as int)
            && entries_all_covered(xs@, ys@, ys@.len() as int)),
{
    xs.len() == ys.len() && entries_all_contained_exec(xs, ys) && entries_all_covered_exec(xs, ys)
}

/// The metadata of a value.
pub open spec fn spec_meta(v: Value) -> Option<Arc<ValueMap>> {
    match v {
        Value::Nil(m) => m,
        Value::Boolean(_, m) => m,
        Value::Integer(_, m) => m,
        Value::Float(_, m) => m,
        Value::String(_, m) => m,
        Value::Symbol(_, m) => m,
        Value::Keyword(_, m) => m,
        Value::List(_, m) => m,
        Value::Vector(_, m) => m,
        Value::ValueSet(_, m) => m,
        Value::ValueMap(_, m) => m,
        Value::Var(_, m) => m,
        Value::Function(_, m) => m,
        Value::Handle(_, m) => m,
    }
}

/// Whether two values are of the same kind and hold the same thing,
/// whatever their metadata.
pub open spec fn same_contents(a: Value, b: Value) -> bool {
    match (a, b) {
        (Value::Nil(_), Value::Nil(_)) => true,
        (Value::Boolean(x, _), Value::Boolean(y, _)) => x == y,
        (Value::Integer(x, _), Value::Integer(y, _)) => x == y,
        (Value::Float(x, _), Value::Float(y, _)) => x == y,
        (Value::String(x, _), Value::String(y, _)) => x == y,
        (Value::Symbol(x, _), Value::Symbol(y, _)) => x == y,
        (Value::Keyword(x, _), Value::Keyword(y, _)) => x == y,
        (Value::List(x, _), Value::List(y, _)) => x@ == y@,
        (Value::Vector(x, _), Value::Vector(y, _)) => x@ == y@,
        (Value::ValueSet(x, _), Value::ValueSet(y, _)) => x@ == y@,
        (Value::ValueMap(x, _), Value::ValueMap(y, _)) => x@ == y@,
        (Value::Var(x, _), Value::Var(y, _)) => x == y,
        (Value::Function(x, _), Value::Function(y, _)) => x == y,
        (Value::Handle(x, _), Value::Handle(y, _)) => x == y,
        _ => false,
    }
}

impl Value {
    /// Whether this value is a nil.
    pub fn is_nil(&self) -> (res: bool)
        ensures
            res == (*self is Nil),
    {
        match self {
            Value::Nil(..) => true,
            _ => false,
        }
    }

    /// Whether this value is a boolean.
    pub fn is_boolean(&self) -> (res: bool)
        ensures
            res == (*self is Boolean),
    {
        match self {
            Value::Boolean(..) => true,
            _ => false,
        }
    }

    /// Whether this value is a integer.
    pub fn is_integer(&self) -> (res: bool)
        ensures
            res == (*self is Integer),
    {
        match self {
            Value::Integer(..) => true,
            _ => false,
        }
    }

    /// Whether this value is a float.
    pub fn is_float(&self) -> (res: bool)
        ensures
            res == (*self is Float),
    {
        match self {
            Value::Float(..) => true,
            _ => false,
        }
    }

    /// Whether this value is a string.
    pub fn is_string(&self) -> (res: bool)
        ensures
            res == (*self is String),
    {
        match self {
            Value::String(..) => true,
            _ => false,
        }
    }

    /// Whether this value is a symbol.
    pub fn is_symbol(&self) -> (res: bool)
        ensures
            res == (*self is Symbol),
    {
        match self {
            Value::Symbol(..) => true,
            _ => false,
        }
    }

    /// Whether this value is a keyword.
    pub fn is_keyword(&self) -> (res: bool)
        ensures
            res == (*self is Keyword),
    {
        match self {
            Value::Keyword(..) => true,
            _ => false,
        }
    }

    /// Whether this value is a list.
    pub fn is_list(&self) -> (res: bool)
        ensures
            res == (*self is List),
    {
        match self {
            Value::List(..) => true,
            _ => false,
        }
    }

    /// Whether this value is a vector.
    pub fn is_vector(&self) -> (res: bool)
        ensures
            res == (*self is Vector),
    {
        match self {
            Value::Vector(..) => true,
            _ => false,
        }
    }

    /// Whether this value is a set.
    pub fn is_set(&self) -> (res: bool)
        ensures
            res == (*self is ValueSet),
    {
        match self {
            Value::ValueSet(..) => true,
            _ => false,
        }
    }

    /// Whether this value is a map.
    pub fn is_map(&self) -> (res: bool)
        ensures
            res == (*self is ValueMap),
    {
        match self {
            Value::ValueMap(..) => true,
            _ => false,
        }
    }

    /// Whether this value is a var.
    pub fn is_var(&self) -> (res: bool)
        ensures
            res == (*self is Var),
    {
        match self {
            Value::Var(..) => true,
            _ => false,
        }
    }

    /// Whether this value is a function.
    pub fn is_function(&self) -> (res: bool)
        ensures
            res == (*self is Function),
    {
        match self {
            Value::Function(..) => true,
            _ => false,
        }
    }

    /// Whether this value is a handle.
    pub fn is_handle(&self) -> (res: bool)
        ensures
            res == (*self is Handle),
    {
        match self {
            Value::Handle(..) => true,
            _ => false,
        }
    }

    /// The value `nil`.
    pub fn nil() -> (res: Self)
        ensures
            res == Value::Nil(None),
    {
        Value::Nil(None)
    }

    /// A pointer to the value `nil`.
    pub fn nil_ptr() -> (res: PtrValue)
        ensures
            *res == Value::Nil(None),
    {
        Arc::new(Value::Nil(None))
    }

    /// A boolean value without metadata.
    pub fn boolean(x: bool) -> (res: Self)
        ensures
            res == Value::Boolean(x, None),
    {
        Value::Boolean(x, None)
    }

    /// A pointer to a boolean value without metadata.
    pub fn boolean_ptr(x: bool) -> (res: PtrValue)
        ensures
            *res == Value::Boolean(x, None),
    {
        Arc::new(Value::Boolean(x, None))
    }

    /// A integer value without metadata.
    pub fn integer(x: i64) -> (res: Self)
        ensures
            res == Value::Integer(x, None),
    {
        Value::Integer(x, None)
    }

    /// A pointer to a integer value without metadata.
    pub fn integer_ptr(x: i64) -> (res: PtrValue)
        ensures
            *res == Value::Integer(x, None),
    {
        Arc::new(Value::Integer(x, None))
    }

    /// A float value without metadata.
    pub fn float(x: Float) -> (res: Self)
        ensures
            res == Value::Float(x, None),
    {
        Value::Float(x, None)
    }

    /// A pointer to a float value without metadata.
    pub fn float_ptr(x: Float) -> (res: PtrValue)
        ensures
            *res == Value::Float(x, None),
    {
        Arc::new(Value::Float(x, None))
    }

    /// A string value without metadata.
    pub fn string(x: String) -> (res: Self)
        ensures
            res == Value::String(x, None),
    {
        Value::String(x, None)
    }

    /// A pointer to a string value without metadata.
    pub fn string_ptr(x: String) -> (res: PtrValue)
        ensures
            *res == Value::String(x, None),
    {
        Arc::new(Value::String(x, None))
    }

    /// A symbol value without metadata.
    pub fn symbol(x: Symbol) -> (res: Self)
        ensures
            res == Value::Symbol(x, None),
    {
        Value::Symbol(x, None)
    }

    /// A pointer to a symbol value without metadata.
    pub fn symbol_ptr(x: Symbol) -> (res: PtrValue)
        ensures
            *res == Value::Symbol(x, None),
    {
        Arc::new(Value::Symbol(x, None))
    }

    /// A keyword value without metadata.
    pub fn keyword(x: Keyword) -> (res: Self)
        ensures
            res == Value::Keyword(x, None),
    {
        Value::Keyword(x, None)
    }

    /// A pointer to a keyword value without metadata.
    pub fn keyword_ptr(x: Keyword) -> (res: PtrValue)
        ensures
            *res == Value::Keyword(x, None),
    {
        Arc::new(Value::Keyword(x, None))
    }

    /// A list value without metadata.
    pub fn list(x: List) -> (res: Self)
        ensures
            res == Value::List(x, None),
    {
        Value::List(x, None)
    }

    /// A pointer to a list value without metadata.
    pub fn list_ptr(x: List) -> (res: PtrValue)
        ensures
            *res == Value::List(x, None),
    {
        Arc::new(Value::List(x, None))
    }

    /// A vector value without metadata.
    pub fn vector(x: Vector) -> (res: Self)
        ensures
            res == Value::Vector(x, None),
    {
        Value::Vector(x, None)
    }

    /// A pointer to a vector value without metadata.
    pub fn vector_ptr(x: Vector) -> (res: PtrValue)
        ensures
            *res == Value::Vector(x, None),
    {
        Arc::new(Value::Vector(x, None))
    }

    /// A set value without metadata.
    pub fn set(x: ValueSet) -> (res: Self)
        ensures
            res == Value::ValueSet(x, None),
    {
        Value::ValueSet(x, None)
    }

    /// A pointer to a set value without metadata.
    pub fn set_ptr(x: ValueSet) -> (res: PtrValue)
        ensures
            *res == Value::ValueSet(x, None),
    {
        Arc::new(Value::ValueSet(x, None))
    }

    /// A map value without metadata.
    pub fn map(x: ValueMap) -> (res: Self)
        ensures
            res == Value::ValueMap(x, None),
    {
        Value::ValueMap(x, None)
    }

    /// A pointer to a map value without metadata.
    pub fn map_ptr(x: ValueMap) -> (res: PtrValue)
        ensures
            *res == Value::ValueMap(x, None),
    {
        Arc::new(Value::ValueMap(x, None))
    }

    /// A function value without metadata.
    pub fn function(x: PtrFunction) -> (res: Self)
        ensures
            res == Value::Function(x, None),
    {
        Value::Function(x, None)
    }

    /// A pointer to a function value without metadata.
    pub fn function_ptr(x: PtrFunction) -> (res: PtrValue)
        ensures
            *res == Value::Function(x, None),
    {
        Arc::new(Value::Function(x, None))
    }

    /// A handle value without metadata.
    pub fn handle(x: Handle) -> (res: Self)
        ensures
            res == Value::Handle(x, None),
    {
        Value::Handle(x, None)
    }

    /// A pointer to a handle value without metadata.
    pub fn handle_ptr(x: Handle) -> (res: PtrValue)
        ensures
            *res == Value::Handle(x, None),
    {
        Arc::new(Value::Handle(x, None))
    }

    /// A value for the var `var`, carrying the var's metadata.
    pub fn var(var: PtrVar) -> (res: Self)
        ensures
            res == Value::Var(var, var.spec_meta()),
    {
        let meta = var.meta();
        Value::Var(var, meta)
    }

    /// A pointer to a value for the var `var`, carrying the var's metadata.
    pub fn var_ptr(var: PtrVar) -> (res: PtrValue)
        ensures
            *res == Value::Var(var, var.spec_meta()),
    {
        Arc::new(Value::var(var))
    }

    /// An unqualified symbol value.
    pub fn symbol_unqualified(name: &str) -> (res: Self)
        ensures
            res matches Value::Symbol(s, None) && s@ == (None::<Seq<char>>, name@),
    {
        Value::Symbol(Symbol::new_unqualified(name), None)
    }

    /// A pointer to an unqualified symbol value.
    pub fn symbol_unqualified_ptr(name: &str) -> (res: PtrValue)
        ensures
            *res matches Value::Symbol(s, None) && s@ == (None::<Seq<char>>, name@),
    {
        Arc::new(Value::symbol_unqualified(name))
    }

    /// A qualified symbol value.
    pub fn symbol_qualified(namespace: &str, name: &str) -> (res: Self)
        ensures
            res matches Value::Symbol(s, None) && s@ == (Some(namespace@), name@),
    {
        Value::Symbol(Symbol::new_qualified(namespace, name), None)
    }

    /// A pointer to a qualified symbol value.
    pub fn symbol_qualified_ptr(namespace: &str, name: &str) -> (res: PtrValue)
        ensures
            *res matches Value::Symbol(s, None) && s@ == (Some(namespace@), name@),
    {
        Arc::new(Value::symbol_qualified(namespace, name))
    }

    /// An unqualified keyword value.
    pub fn keyword_unqualified(name: &str) -> (res: Self)
        ensures
            res matches Value::Keyword(k, None) && k@ == (None::<Seq<char>>, name@),
    {
        Value::Keyword(Keyword::new_unqualified(name), None)
    }

    /// A pointer to an unqualified keyword value.
    pub fn keyword_unqualified_ptr(name: &str) -> (res: PtrValue)
        ensures
            *res matches Value::Keyword(k, None) && k@ == (None::<Seq<char>>, name@),
    {
        Arc::new(Value::keyword_unqualified(name))
    }

    /// A qualified keyword value.
    pub fn keyword_qualified(namespace: &str, name: &str) -> (res: Self)
        ensures
            res matches Value::Keyword(k, None) && k@ == (Some(namespace@), name@),
    {
        Value::Keyword(Keyword::new_qualified(namespace, name), None)
    }

    /// A pointer to a qualified keyword value.
    pub fn keyword_qualified_ptr(namespace: &str, name: &str) -> (res: PtrValue)
        ensures
            *res matches Value::Keyword(k, None) && k@ == (Some(namespace@), name@),
    {
        Arc::new(Value::keyword_qualified(namespace, name))
    }

    /// A list value of the given elements.
    pub fn list_from(items: Vec<PtrValue>) -> (res: Self)
        ensures
            res matches Value::List(l, None) && l@ == items@,
    {
        Value::List(List::from_vec(items), None)
    }

    /// A vector value of the given elements.
    pub fn vector_from(items: Vec<PtrValue>) -> (res: Self)
        ensures
            res matches Value::Vector(l, None) && l@ == items@,
    {
        Value::Vector(Vector::from_vec(items), None)
    }

    /// A set value of the given elements, each kept once.
    pub fn set_from(items: Vec<PtrValue>) -> (res: Self)
        ensures
            res matches Value::ValueSet(s, None) && s@ == dedup_values(items@),
    {
        Value::ValueSet(ValueSet::new(items), None)
    }

    /// A map value of the given entries; for equal keys the later entry wins.
    pub fn map_from(pairs: Vec<(PtrValue, PtrValue)>) -> (res: Self)
        ensures
            res matches Value::ValueMap(m, None) && m@ == assoc_all(Seq::empty(), pairs@),
    {
        Value::ValueMap(ValueMap::new(pairs), None)
    }

    /// An empty list value.
    pub fn new_list_empty() -> (res: Self)
        ensures
            res matches Value::List(l, None) && l@ == Seq::<PtrValue>::empty(),
    {
        Value::List(List::new_empty(), None)
    }

    /// A pointer to an empty list value.
    pub fn new_list_empty_ptr() -> (res: PtrValue)
        ensures
            *res matches Value::List(l, None) && l@ == Seq::<PtrValue>::empty(),
    {
        Arc::new(Value::new_list_empty())
    }

    /// A list value of the given elements.
    pub fn new_list(elements: Vec<PtrValue>) -> (res: Self)
        ensures
            res matches Value::List(l, None) && l@ == elements@,
    {
        Value::list_from(elements)
    }

    /// A pointer to a list value of the given elements.
    pub fn new_list_ptr(elements: Vec<PtrValue>) -> (res: PtrValue)
        ensures
            *res matches Value::List(l, None) && l@ == elements@,
    {
        Arc::new(Value::list_from(elements))
    }

    /// An empty vector value.
    pub fn new_vector_empty() -> (res: Self)
        ensures
            res matches Value::Vector(l, None) && l@ == Seq::<PtrValue>::empty(),
    {
        Value::Vector(Vector::new_empty(), None)
    }

    /// A pointer to an empty vector value.
    pub fn new_vector_empty_ptr() -> (res: PtrValue)
        ensures
            *res matches Value::Vector(l, None) && l@ == Seq::<PtrValue>::empty(),
    {
        Arc::new(Value::new_vector_empty())
    }

    /// A vector value of the given elements.
    pub fn new_vector(elements: Vec<PtrValue>) -> (res: Self)
        ensures
            res matches Value::Vector(l, None) && l@ == elements@,
    {
        Value::vector_from(elements)
    }

    /// A pointer to a vector value of the given elements.
    pub fn new_vector_ptr(elements: Vec<PtrValue>) -> (res: PtrValue)
        ensures
            *res matches Value::Vector(l, None) && l@ == elements@,
    {
        Arc::new(Value::vector_from(elements))
    }

    /// An empty set value.
    pub fn new_set_empty() -> (res: Self)
        ensures
            res matches Value::ValueSet(s, None) && s@ == Seq::<PtrValue>::empty(),
    {
        Value::ValueSet(ValueSet::new_empty(), None)
    }

    /// A pointer to an empty set value.
    pub fn new_set_empty_ptr() -> (res: PtrValue)
        ensures
            *res matches Value::ValueSet(s, None) && s@ == Seq::<PtrValue>::empty(),
    {
        Arc::new(Value::new_set_empty())
    }

    /// A set value of the given elements, each kept once.
    pub fn new_set(elements: Vec<PtrValue>) -> (res: Self)
        ensures
            res matches Value::ValueSet(s, None) && s@ == dedup_values(elements@),
    {
        Value::set_from(elements)
    }

    /// A pointer to a set value of the given elements, each kept once.
    pub fn new_set_ptr(elements: Vec<PtrValue>) -> (res: PtrValue)
        ensures
            *res matches Value::ValueSet(s, None) && s@ == dedup_values(elements@),
    {
        Arc::new(Value::set_from(elements))
    }

    /// An empty map value.
    pub fn new_map_empty() -> (res: Self)
        ensures
            res matches Value::ValueMap(m, None) && m@ == Seq::<(PtrValue, PtrValue)>::empty(),
    {
        Value::ValueMap(ValueMap::new_empty(), None)
    }

    /// A pointer to an empty map value.
    pub fn new_map_empty_ptr() -> (res: PtrValue)
        ensures
            *res matches Value::ValueMap(m, None) && m@ == Seq::<(PtrValue, PtrValue)>::empty(),
    {
        Arc::new(Value::new_map_empty())
    }

    /// A map value of the given entries; for equal keys the later entry wins.
    pub fn new_map(elements: Vec<(PtrValue, PtrValue)>) -> (res: Self)
        ensures
            res matches Value::ValueMap(m, None) && m@ == assoc_all(Seq::empty(), elements@),
    {
        Value::map_from(elements)
    }

    /// A pointer to a map value of the given entries.
    pub fn new_map_ptr(elements: Vec<(PtrValue, PtrValue)>) -> (res: PtrValue)
        ensures
            *res matches Value::ValueMap(m, None) && m@ == assoc_all(Seq::empty(), elements@),
    {
        Arc::new(Value::map_from(elements))
    }

    /// This value, behind a pointer.
    pub fn into_value_ptr(self) -> (res: PtrValue)
        ensures
            *res == self,
    {
        Arc::new(self)
    }

    /// The metadata of this value.
    pub fn meta(&self) -> (res: Option<Arc<ValueMap>>)
        ensures
            res == spec_meta(*self),
    {
        let m = match self {
            Value::Nil(m) => m,
            Value::Boolean(_, m) => m,
            Value::Integer(_, m) => m,
            Value::Float(_, m) => m,
            Value::String(_, m) => m,
            Value::Symbol(_, m) => m,
            Value::Keyword(_, m) => m,
            Value::List(_, m) => m,
            Value::Vector(_, m) => m,
            Value::ValueSet(_, m) => m,
            Value::ValueMap(_, m) => m,
            Value::Var(_, m) => m,
            Value::Function(_, m) => m,
            Value::Handle(_, m) => m,
        };
        match m {
            Some(m) => Some(m.clone()),
            None => None,
        }
    }

    /// The same value with its metadata replaced by `meta`.
    pub fn with_meta(&self, meta: Option<Arc<ValueMap>>) -> (res: Self)
        ensures
            same_contents(res, *self),
            spec_meta(res) == meta,
    {
        match self {
            Value::Nil(_) => Value::Nil(meta),
            Value::Boolean(x, _) => Value::Boolean(*x, meta),
            Value::Integer(x, _) => Value::Integer(*x, meta),
            Value::Float(x, _) => Value::Float(*x, meta),
            Value::String(x, _) => Value::String(x.clone(), meta),
            Value::Symbol(x, _) => Value::Symbol(x.clone(), meta),
            Value::Keyword(x, _) => Value::Keyword(x.clone(), meta),
            Value::List(x, _) => Value::List(x.clone_exact(), meta),
            Value::Vector(x, _) => Value::Vector(x.clone_exact(), meta),
            Value::ValueSet(x, _) => Value::ValueSet(x.clone_exact(), meta),
            Value::ValueMap(x, _) => Value::ValueMap(x.clone_exact(), meta),
            Value::Var(x, _) => Value::Var(x.clone(), meta),
            Value::Function(x, _) => Value::Function(x.clone(), meta),
            Value::Handle(x, _) => Value::Handle(x.clone(), meta),
        }
    }

    /// A pointer to the same value with its metadata replaced by `meta`.
    pub fn with_meta_ptr(&self, meta: Option<Arc<ValueMap>>) -> (res: PtrValue)
        ensures
            same_contents(*res, *self),
            spec_meta(*res) == meta,
    {
        Arc::new(self.with_meta(meta))
    }

    /// A copy of this value, with the same contents and metadata.
    pub fn clone_exact(&self) -> (res: Self)
        ensures
            same_contents(res, *self),
            spec_meta(res) == spec_meta(*self),
    {
        self.with_meta(self.meta())
    }

    /// The integer this value holds; the value must be an integer.
    pub fn view_integer(&self) -> (res: i64)
        requires
            *self is Integer,
        ensures
            *self matches Value::Integer(x, _) && res == x,
    {
        match self {
            Value::Integer(x, _) => *x,
            _ => 0,
        }
    }

    /// The float this value holds; the value must be a float.
    pub fn view_float(&self) -> (res: Float)
        requires
            *self is Float,
        ensures
            *self matches Value::Float(x, _) && res == x,
    {
        match self {
            Value::Float(x, _) => *x,
            _ => Float::from_bits(0),
        }
    }

    /// The string this value holds; the value must be a string.
    pub fn view_string(&self) -> (res: String)
        requires
            *self is String,
        ensures
            *self matches Value::String(x, _) && res == x,
    {
        match self {
            Value::String(x, _) => x.clone(),
            _ => String::new(),
        }
    }

    /// The string this value holds, by reference; the value must be a string.
    pub fn view_string_ref(&self) -> (res: &str)
        requires
            *self is String,
        ensures
            *self matches Value::String(x, _) && res@ == x@,
    {
        match self {
            Value::String(x, _) => x.as_str(),
            _ => "",
        }
    }

    /// The list this value holds; the value must be a list.
    pub fn view_list(&self) -> (res: List)
        requires
            *self is List,
        ensures
            *self matches Value::List(x, _) && res@ == x@,
    {
        match self {
            Value::List(x, _) => x.clone_exact(),
            _ => List::new_empty(),
        }
    }

    /// The list this value holds, by reference; the value must be a list.
    pub fn view_list_ref(&self) -> (res: &List)
        requires
            *self is List,
        ensures
            *self matches Value::List(x, _) && *res == x,
    {
        match self {
            Value::List(x, _) => x,
            _ => {
                proof {
                    assert(false);
                }
                vstd::pervasive::unreached()
            },
        }
    }

    /// The vector this value holds; the value must be a vector.
    pub fn view_vector(&self) -> (res: Vector)
        requires
            *self is Vector,
        ensures
            *self matches Value::Vector(x, _) && res@ == x@,
    {
        match self {
            Value::Vector(x, _) => x.clone_exact(),
            _ => vstd::pervasive::unreached(),
        }
    }

    /// The vector this value holds, by reference; the value must be a vector.
    pub fn view_vector_ref(&self) -> (res: &Vector)
        requires
            *self is Vector,
        ensures
            *self matches Value::Vector(x, _) && *res == x,
    {
        match self {
            Value::Vector(x, _) => x,
            _ => vstd::pervasive::unreached(),
        }
    }

    /// The set this value holds; the value must be a set.
    pub fn view_set(&self) -> (res: ValueSet)
        requires
            *self is ValueSet,
        ensures
            *self matches Value::ValueSet(x, _) && res@ == x@,
    {
        match self {
            Value::ValueSet(x, _) => x.clone_exact(),
            _ => vstd::pervasive::unreached(),
        }
    }

    /// The set this value holds, by reference; the value must be a set.
    pub fn view_set_ref(&self) -> (res: &ValueSet)
        requires
            *self is ValueSet,
        ensures
            *self matches Value::ValueSet(x, _) && *res == x,
    {
        match self {
            Value::ValueSet(x, _) => x,
            _ => vstd::pervasive::unreached(),
        }
    }

    /// The map this value holds; the value must be a map.
    pub fn view_map(&self) -> (res: ValueMap)
        requires
            *self is ValueMap,
        ensures
            *self matches Value::ValueMap(x, _) && res@ == x@,
    {
        match self {
            Value::ValueMap(x, _) => x.clone_exact(),
            _ => vstd::pervasive::unreached(),
        }
    }

    /// The map this value holds, by reference; the value must be a map.
    pub fn view_map_ref(&self) -> (res: &ValueMap)
        requires
            *self is ValueMap,
        ensures
            *self matches Value::ValueMap(x, _) && *res == x,
    {
        match self {
            Value::ValueMap(x, _) => x,
            _ => vstd::pervasive::unreached(),
        }
    }

    /// What this value holds, if it is a integer.
    pub fn preview_integer(&self) -> (res: Option<i64>)
        ensures
            match (res, *self) {
                (Some(r), Value::Integer(x, _)) => r == x,
                (None, Value::Integer(_, _)) => false,
                (Some(_), _) => false,
                (None, _) => true,
            },
    {
        optics::preview_integer(self)
    }

    /// What this value holds, if it is a float.
    pub fn preview_float(&self) -> (res: Option<Float>)
        ensures
            match (res, *self) {
                (Some(r), Value::Float(x, _)) => r == x,
                (None, Value::Float(_, _)) => false,
                (Some(_), _) => false,
                (None, _) => true,
            },
    {
        optics::preview_float(self)
    }

    /// What this value holds, if it is a string.
    pub fn preview_string(&self) -> (res: Option<String>)
        ensures
            match (res, *self) {
                (Some(r), Value::String(x, _)) => r == x,
                (None, Value::String(_, _)) => false,
                (Some(_), _) => false,
                (None, _) => true,
            },
    {
        optics::preview_string(self)
    }

    /// What this value holds, if it is a list.
    pub fn preview_list(&self) -> (res: Option<List>)
        ensures
            match (res, *self) {
                (Some(r), Value::List(x, _)) => r@ == x@,
                (None, Value::List(_, _)) => false,
                (Some(_), _) => false,
                (None, _) => true,
            },
    {
        optics::preview_list(self)
    }

    /// What this value holds, by reference, if it is a list.
    pub fn preview_list_ref(&self) -> (res: Option<&List>)
        ensures
            match *self {
                Value::List(x, _) => res == Some(&x),
                _ => res is None,
            },
    {
        optics::preview_list_ref(self)
    }

    /// What this value holds, if it is a vector.
    pub fn preview_vector(&self) -> (res: Option<Vector>)
        ensures
            match (res, *self) {
                (Some(r), Value::Vector(x, _)) => r@ == x@,
                (None, Value::Vector(_, _)) => false,
                (Some(_), _) => false,
                (None, _) => true,
            },
    {
        optics::preview_vector(self)
    }

    /// What this value holds, by reference, if it is a vector.
    pub fn preview_vector_ref(&self) -> (res: Option<&Vector>)
        ensures
            match *self {
                Value::Vector(x, _) => res == Some(&x),
                _ => res is None,
            },
    {
        optics::preview_vector_ref(self)
    }

    /// What this value holds, if it is a set.
    pub fn preview_set(&self) -> (res: Option<ValueSet>)
        ensures
            match (res, *self) {
                (Some(r), Value::ValueSet(x, _)) => r@ == x@,
                (None, Value::ValueSet(_, _)) => false,
                (Some(_), _) => false,
                (None, _) => true,
            },
    {
        optics::preview_set(self)
    }

    /// What this value holds, by reference, if it is a set.
    pub fn preview_set_ref(&self) -> (res: Option<&ValueSet>)
        ensures
            match *self {
                Value::ValueSet(x, _) => res == Some(&x),
                _ => res is None,
            },
    {
        optics::preview_set_ref(self)
    }

    /// What this value holds, if it is a map.
    pub fn preview_map(&self) -> (res: Option<ValueMap>)
        ensures
            match (res, *self) {
                (Some(r), Value::ValueMap(x, _)) => r@ == x@,
                (None, Value::ValueMap(_, _)) => false,
                (Some(_), _) => false,
                (None, _) => true,
            },
    {
        optics::preview_map(self)
    }

    /// What this value holds, by reference, if it is a map.
    pub fn preview_map_ref(&self) -> (res: Option<&ValueMap>)
        ensures
            match *self {
                Value::ValueMap(x, _) => res == Some(&x),
                _ => res is None,
            },
    {
        optics::preview_map_ref(self)
    }

    /// The string this value holds, by reference, if it is a string.
    pub fn preview_string_ref(&self) -> (res: Option<&str>)
        ensures
            match *self {
                Value::String(x, _) => res matches Some(r) && r@ == x@,
                _ => res is None,
            },
    {
        match self {
            Value::String(x, _) => Some(x.as_str()),
            _ => None,
        }
    }

    /// The handle this value holds.
    pub fn try_get_handle(&self) -> (res: Result<Handle, GetHandleError>)
        ensures
            match *self {
                Value::Handle(h, _) => res == Ok::<Handle, GetHandleError>(h),
                _ => res == Err::<Handle, GetHandleError>(GetHandleError::IncorrectValueType),
            },
    {
        match self {
            Value::Handle(h, _) => Ok(h.clone_exact()),
            _ => Err(GetHandleError::IncorrectValueType),
        }
    }

    /// The namespace handle this value holds.
    pub fn try_get_namespace_handle(&self) -> (res: Result<NamespaceHandle, GetHandleError>)
        ensures
            match *self {
                Value::Handle(Handle::Namespace(n), _) => res == Ok::<NamespaceHandle, GetHandleError>(n),
                Value::Handle(_, _) => res == Err::<NamespaceHandle, GetHandleError>(GetHandleError::IncorrectHandleType),
                _ => res == Err::<NamespaceHandle, GetHandleError>(GetHandleError::IncorrectValueType),
            },
    {
        match self {
            Value::Handle(Handle::Namespace(n), _) => Ok(n.clone_exact()),
            Value::Handle(_, _) => Err(GetHandleError::IncorrectHandleType),
            _ => Err(GetHandleError::IncorrectValueType),
        }
    }

    /// The number of the outside resource whose handle this value holds.
    pub fn try_get_resource_handle(&self) -> (res: Result<u64, GetHandleError>)
        ensures
            match *self {
                Value::Handle(Handle::Resource(id), _) => res == Ok::<u64, GetHandleError>(id),
                Value::Handle(_, _) => res == Err::<u64, GetHandleError>(GetHandleError::IncorrectHandleType),
                _ => res == Err::<u64, GetHandleError>(GetHandleError::IncorrectValueType),
            },
    {
        match self {
            Value::Handle(Handle::Resource(id), _) => Ok(*id),
            Value::Handle(_, _) => Err(GetHandleError::IncorrectHandleType),
            _ => Err(GetHandleError::IncorrectValueType),
        }
    }
}

/// A value does not hold the handle asked for.
pub enum GetHandleError {
    /// The value is not a handle.
    IncorrectValueType,
    /// The value is a handle of another kind than the one asked for.
    IncorrectHandleType,
}


/// Equality of values is symmetric: what equals a value is equalled by it.
pub proof fn law_value_eq_symmetric(a: Value, b: Value)
    requires
        value_eq(a, b),
    ensures
        value_eq(b, a),
    decreases a, 0int, 0int,
{
    match (a, b) {
        (Value::List(x, _), Value::List(y, _)) => {
            lemma_pairwise_eq_symmetric(x.0@, y.0@, x.0@.len() as int);
        },
        (Value::Vector(x, _), Value::Vector(y, _)) => {
            lemma_pairwise_eq_symmetric(x.0@, y.0@, x.0@.len() as int);
        },
        (Value::ValueSet(x, _), Value::ValueSet(y, _)) => {
            lemma_contained_to_covered(x.0@, y.0@, x.0@.len() as int);
            lemma_covered_to_contained(x.0@, y.0@, y.0@.len() as int);
        },
        (Value::ValueMap(x, _), Value::ValueMap(y, _)) => {
            lemma_entries_contained_to_covered(x.0@, y.0@, x.0@.len() as int);
            lemma_entries_covered_to_contained(x.0@, y.0@, y.0@.len() as int);
        },
        (Value::Var(x, _), Value::Var(y, _)) => {
            let (xv, yv) = (bound_of(x), bound_of(y));
            if xv is Some && yv is Some {
                law_value_eq_symmetric(deref_bound(xv), deref_bound(yv));
            }
        },
        _ => {},
    }
}

/// What a var is bound to.
spec fn bound_of(x: PtrVar) -> Option<PtrValue> {
    x.value
}

/// The value at index `i` of `xs`.
spec fn at(xs: Seq<PtrValue>, i: int) -> Value {
    *xs[i]
}

/// The key (`k == 0`) or the value of the entry at index `i` of `es`.
spec fn entry_part(es: Seq<(PtrValue, PtrValue)>, i: int, k: int) -> Value {
    if k == 0 { *es[i].0 } else { *es[i].1 }
}

/// The key (`k == 0`) or the value of an entry.
spec fn pair_part(e: (PtrValue, PtrValue), k: int) -> Value {
    if k == 0 { *e.0 } else { *e.1 }
}

/// What a var bound to something is bound to.
spec fn deref_bound(x: Option<PtrValue>) -> Value {
    *x->Some_0
}

/// Pairwise equality is symmetric.
proof fn lemma_pairwise_eq_symmetric(xs: Seq<PtrValue>, ys: Seq<PtrValue>, n: int)
    requires
        seq_pairwise_eq(xs, ys, n),
    ensures
        seq_pairwise_eq(ys, xs, n),
    decreases xs, 2int, n,
{
    if 0 < n && n <= xs.len() && n <= ys.len() {
        law_value_eq_symmetric(at(xs, n - 1), at(ys, n - 1));
        lemma_pairwise_eq_symmetric(xs, ys, n - 1);
    }
}

/// An element equal to one of `ys` is one that some element of `ys` equals.
proof fn lemma_contains_flip(ys: Seq<PtrValue>, x: Value, m: int)
    requires
        seq_contains_eq(ys, x, m),
    ensures
        seq_eq_contains(ys, x, m),
    decreases x, 1int, m,
{
    if 0 < m && m <= ys.len() {
        if value_eq(x, at(ys, m - 1)) {
            law_value_eq_symmetric(x, at(ys, m - 1));
        } else {
            lemma_contains_flip(ys, x, m - 1);
        }
    }
}

/// An element that some element of `xs` equals is one equal to an element
/// of `xs`.
proof fn lemma_eq_contains_flip(xs: Seq<PtrValue>, y: Value, m: int)
    requires
        seq_eq_contains(xs, y, m),
    ensures
        seq_contains_eq(xs, y, m),
    decreases xs, 1int, m,
{
    if 0 < m && m <= xs.len() {
        if value_eq(at(xs, m - 1), y) {
            law_value_eq_symmetric(at(xs, m - 1), y);
        } else {
            lemma_eq_contains_flip(xs, y, m - 1);
        }
    }
}

/// The elements of `xs` that equal elements of `ys` are covered by `ys`.
proof fn lemma_contained_to_covered(xs: Seq<PtrValue>, ys: Seq<PtrValue>, n: int)
    requires
        seq_all_contained(xs, ys, n),
    ensures
        seq_all_covered(ys, xs, n),
    decreases xs, 2int, n,
{
    if 0 < n && n <= xs.len() {
        lemma_contains_flip(ys, at(xs, n - 1), ys.len() as int);
        lemma_contained_to_covered(xs, ys, n - 1);
    }
}

/// The elements of `ys` covered by `xs` equal elements of `xs`.
proof fn lemma_covered_to_contained(xs: Seq<PtrValue>, ys: Seq<PtrValue>, n: int)
    requires
        seq_all_covered(xs, ys, n),
    ensures
        seq_all_contained(ys, xs, n),
    decreases xs, 2int, n,
{
    if 0 < n && n <= ys.len() {
        lemma_eq_contains_flip(xs, at(ys, n - 1), xs.len() as int);
        lemma_covered_to_contained(xs, ys, n - 1);
    }
}

/// An entry equal to one of `ys` is one that some entry of `ys` equals.
proof fn lemma_entry_contains_flip(ys: Seq<(PtrValue, PtrValue)>, entry: (PtrValue, PtrValue), m: int)
    requires
        entries_contain_eq(ys, entry, m),
    ensures
        entries_eq_contain(ys, entry, m),
    decreases entry, 1int, m,
{
    if 0 < m && m <= ys.len() {
        if value_eq(pair_part(entry, 0), entry_part(ys, m - 1, 0)) && value_eq(pair_part(entry, 1), entry_part(ys, m - 1, 1)) {
            law_value_eq_symmetric(pair_part(entry, 0), entry_part(ys, m - 1, 0));
            law_value_eq_symmetric(pair_part(entry, 1), entry_part(ys, m - 1, 1));
        } else {
            lemma_entry_contains_flip(ys, entry, m - 1);
        }
    }
}

/// An entry that some entry of `xs` equals is one equal to an entry of `xs`.
proof fn lemma_entry_eq_contains_flip(xs: Seq<(PtrValue, PtrValue)>, entry: (PtrValue, PtrValue), m: int)
    requires
        entries_eq_contain(xs, entry, m),
    ensures
        entries_contain_eq(xs, entry, m),
    decreases xs, 1int, m,
{
    if 0 < m && m <= xs.len() {
        if value_eq(entry_part(xs, m - 1, 0), pair_part(entry, 0)) && value_eq(entry_part(xs, m - 1, 1), pair_part(entry, 1)) {
            law_value_eq_symmetric(entry_part(xs, m - 1, 0), pair_part(entry, 0));
            law_value_eq_symmetric(entry_part(xs, m - 1, 1), pair_part(entry, 1));
        } else {
            lemma_entry_eq_contains_flip(xs, entry, m - 1);
        }
    }
}

/// The entries of `xs` that equal entries of `ys` are covered by `ys`.
proof fn lemma_entries_contained_to_covered(xs: Seq<(PtrValue, PtrValue)>, ys: Seq<(PtrValue, PtrValue)>, n: int)
    requires
        entries_all_contained(xs, ys, n),
    ensures
        entries_all_covered(ys, xs, n),
    decreases xs, 2int, n,
{
    if 0 < n && n <= xs.len() {
        lemma_entry_contains_flip(ys, xs[n - 1], ys.len() as int);
        lemma_entries_contained_to_covered(xs, ys, n - 1);
    }
}

/// The entries of `ys` covered by `xs` equal entries of `xs`.
proof fn lemma_entries_covered_to_contained(xs: Seq<(PtrValue, PtrValue)>, ys: Seq<(PtrValue, PtrValue)>, n: int)
    requires
        entries_all_covered(xs, ys, n),
    ensures
        entries_all_contained(ys, xs, n),
    decreases xs, 2int, n,
{
    if 0 < n && n <= ys.len() {
        lemma_entry_eq_contains_flip(xs, ys[n - 1], xs.len() as int);
        lemma_entries_covered_to_contained(xs, ys, n - 1);
    }
}



/// Whether no float inside a value is a NaN.
pub closed spec fn nan_free(v: Value) -> bool
    decreases v, 0int, 0int,
{
    match v {
        Value::Float(x, _) => !bits_is_nan(x.bits()),
        Value::List(x, _) => all_nan_free(x.0@, x.0@.len() as int),
        Value::Vector(x, _) => all_nan_free(x.0@, x.0@.len() as int),
        Value::ValueSet(x, _) => all_nan_free(x.0@, x.0@.len() as int),
        Value::ValueMap(x, _) => entries_nan_free(x.0@, x.0@.len() as int),
        Value::Var(x, _) => match x.value {
            Some(xv) => nan_free(*xv),
            None => true,
        },
        _ => true,
    }
}

/// Whether no float inside the elements of `xs` below index `n` is a NaN.
pub closed spec fn all_nan_free(xs: Seq<PtrValue>, n: int) -> bool
    decreases xs, 2int, n,
{
    if n <= 0 || n > xs.len() {
        true
    } else {
        nan_free(*xs[n - 1]) && all_nan_free(xs, n - 1)
    }
}

/// Whether no float inside the entries of `xs` below index `n` is a NaN.
pub closed spec fn entries_nan_free(xs: Seq<(PtrValue, PtrValue)>, n: int) -> bool
    decreases xs, 2int, n,
{
    if n <= 0 || n > xs.len() {
        true
    } else {
        nan_free(*xs[n - 1].0) && nan_free(*xs[n - 1].1) && entries_nan_free(xs, n - 1)
    }
}

/// Equality of values is reflexive on values that hold no NaN: such a value
/// equals itself. (A NaN equals nothing, itself included, so a value that
/// holds one does not.)
pub proof fn law_value_eq_reflexive(a: Value)
    requires
        nan_free(a),
    ensures
        value_eq(a, a),
    decreases a, 0int, 0int,
{
    match a {
        Value::List(x, _) => {
            lemma_pairwise_eq_reflexive(x.0@, x.0@.len() as int);
        },
        Value::Vector(x, _) => {
            lemma_pairwise_eq_reflexive(x.0@, x.0@.len() as int);
        },
        Value::ValueSet(x, _) => {
            lemma_all_contained_self(x.0@, x.0@.len() as int);
        },
        Value::ValueMap(x, _) => {
            lemma_entries_contained_self(x.0@, x.0@.len() as int);
        },
        Value::Var(x, _) => {
            let xv = bound_of(x);
            if xv is Some {
                law_value_eq_reflexive(deref_bound(xv));
            }
        },
        _ => {},
    }
}

/// A sequence of values that hold no NaN is pairwise equal to itself.
proof fn lemma_pairwise_eq_reflexive(xs: Seq<PtrValue>, n: int)
    requires
        n <= xs.len(),
        all_nan_free(xs, n),
    ensures
        seq_pairwise_eq(xs, xs, n),
    decreases xs, 2int, n,
{
    if 0 < n {
        law_value_eq_reflexive(at(xs, n - 1));
        lemma_pairwise_eq_reflexive(xs, n - 1);
    }
}

/// An element of `ys` that equals itself is equal to an element of `ys`,
/// and equalled by one.
proof fn lemma_contains_self(ys: Seq<PtrValue>, j: int, m: int)
    requires
        0 <= j < m <= ys.len(),
        value_eq(at(ys, j), at(ys, j)),
    ensures
        seq_contains_eq(ys, at(ys, j), m),
        seq_eq_contains(ys, at(ys, j), m),
    decreases m,
{
    if j < m - 1 {
        lemma_contains_self(ys, j, m - 1);
    }
}

/// The elements of a sequence of values that hold no NaN are each equal to
/// an element of it, and each equalled by one.
proof fn lemma_all_contained_self(xs: Seq<PtrValue>, n: int)
    requires
        n <= xs.len(),
        all_nan_free(xs, n),
    ensures
        seq_all_contained(xs, xs, n),
        seq_all_covered(xs, xs, n),
    decreases xs, 2int, n,
{
    if 0 < n {
        law_value_eq_reflexive(at(xs, n - 1));
        lemma_contains_self(xs, n - 1, xs.len() as int);
        lemma_all_contained_self(xs, n - 1);
    }
}

/// An entry of `ys` whose key and value equal themselves is equal to an
/// entry of `ys`, and equalled by one.
proof fn lemma_entries_contain_self(ys: Seq<(PtrValue, PtrValue)>, j: int, m: int)
    requires
        0 <= j < m <= ys.len(),
        value_eq(entry_part(ys, j, 0), entry_part(ys, j, 0)),
        value_eq(entry_part(ys, j, 1), entry_part(ys, j, 1)),
    ensures
        entries_contain_eq(ys, ys[j], m),
        entries_eq_contain(ys, ys[j], m),
    decreases m,
{
    if j < m - 1 {
        lemma_entries_contain_self(ys, j, m - 1);
    }
}

/// The entries of a sequence of entries that hold no NaN are each equal to
/// an entry of it, and each equalled by one.
proof fn lemma_entries_contained_self(xs: Seq<(PtrValue, PtrValue)>, n: int)
    requires
        n <= xs.len(),
        entries_nan_free(xs, n),
    ensures
        entries_all_contained(xs, xs, n),
        entries_all_covered(xs, xs, n),
    decreases xs, 2int, n,
{
    if 0 < n {
        law_value_eq_reflexive(entry_part(xs, n - 1, 0));
        law_value_eq_reflexive(entry_part(xs, n - 1, 1));
        lemma_entries_contain_self(xs, n - 1, xs.len() as int);
        lemma_entries_contained_self(xs, n - 1);
    }
}


/// Pairwise equality of the first `n` elements is equality at each index
/// below `n`.
proof fn lemma_pairwise_eq_at_each(xs: Seq<PtrValue>, ys: Seq<PtrValue>, n: int)
    requires
        0 <= n <= xs.len(),
        n <= ys.len(),
    ensures
        seq_pairwise_eq(xs, ys, n) <==> forall|i: int| 0 <= i < n ==> value_eq(*#[trigger] xs[i], *ys[i]),
    decreases n,
{
    if n > 0 {
        lemma_pairwise_eq_at_each(xs, ys, n - 1);
        if forall|i: int| 0 <= i < n ==> value_eq(*#[trigger] xs[i], *ys[i]) {
            assert forall|i: int| 0 <= i < n - 1 implies value_eq(*#[trigger] xs[i], *ys[i]) by {}
            assert(value_eq(*xs[n - 1], *ys[n - 1]));
        }
    }
}

/// Lists and vectors are equal element by element, in order: two lists
/// (or two vectors) are equal exactly when they have the same length and
/// the elements at each index are equal, whatever their metadata. So
/// `[1 2]` and `[2 1]` are not equal.
pub proof fn law_value_eq_in_order(a: Value, b: Value)
    ensures
        match (a, b) {
            (Value::List(x, _), Value::List(y, _)) => value_eq(a, b) <==> (x@.len() == y@.len()
                && forall|i: int| 0 <= i < x@.len() ==> value_eq(*#[trigger] x@[i], *y@[i])),
            (Value::Vector(x, _), Value::Vector(y, _)) => value_eq(a, b) <==> (x@.len() == y@.len()
                && forall|i: int| 0 <= i < x@.len() ==> value_eq(*#[trigger] x@[i], *y@[i])),
            _ => true,
        },
{
    match (a, b) {
        (Value::List(x, _), Value::List(y, _)) => {
            crate::list::lemma_list_view(x);
            crate::list::lemma_list_view(y);
            if x.0@.len() == y.0@.len() {
                lemma_pairwise_eq_at_each(x.0@, y.0@, x.0@.len() as int);
            }
        },
        (Value::Vector(x, _), Value::Vector(y, _)) => {
            crate::vector::lemma_vector_view(x);
            crate::vector::lemma_vector_view(y);
            if x.0@.len() == y.0@.len() {
                lemma_pairwise_eq_at_each(x.0@, y.0@, x.0@.len() as int);
            }
        },
        _ => {},
    }
}

/// Some element of `ys` below `n` equals `x` exactly when the search says so.
proof fn lemma_contains_eq_exists(ys: Seq<PtrValue>, x: Value, n: int)
    requires
        0 <= n <= ys.len(),
    ensures
        seq_contains_eq(ys, x, n) <==> exists|j: int| #![trigger ys[j]] 0 <= j < n && value_eq(x, *ys[j]),
    decreases n,
{
    if n > 0 {
        lemma_contains_eq_exists(ys, x, n - 1);
        if exists|j: int| #![trigger ys[j]] 0 <= j < n && value_eq(x, *ys[j]) {
            let j = choose|j: int| #![trigger ys[j]] 0 <= j < n && value_eq(x, *ys[j]);
            if j < n - 1 {
                assert(exists|j2: int| #![trigger ys[j2]] 0 <= j2 < n - 1 && value_eq(x, *ys[j2]));
            }
        }
    }
}

/// Some element of `xs` below `n` equals `y` exactly when the search says so.
proof fn lemma_eq_contains_exists(xs: Seq<PtrValue>, y: Value, n: int)
    requires
        0 <= n <= xs.len(),
    ensures
        seq_eq_contains(xs, y, n) <==> exists|i: int| #![trigger xs[i]] 0 <= i < n && value_eq(*xs[i], y),
    decreases n,
{
    if n > 0 {
        lemma_eq_contains_exists(xs, y, n - 1);
        if exists|i: int| #![trigger xs[i]] 0 <= i < n && value_eq(*xs[i], y) {
            let i = choose|i: int| #![trigger xs[i]] 0 <= i < n && value_eq(*xs[i], y);
            if i < n - 1 {
                assert(exists|i2: int| #![trigger xs[i2]] 0 <= i2 < n - 1 && value_eq(*xs[i2], y));
            }
        }
    }
}

/// Every element of `xs` below `n` has an equal element in `ys` exactly
/// when the check says so.
proof fn lemma_all_contained_forall(xs: Seq<PtrValue>, ys: Seq<PtrValue>, n: int)
    requires
        0 <= n <= xs.len(),
    ensures
        seq_all_contained(xs, ys, n) <==> forall|i: int| #![trigger xs[i]] 0 <= i < n
            ==> exists|j: int| #![trigger ys[j]] 0 <= j < ys.len() && value_eq(*xs[i], *ys[j]),
    decreases n,
{
    if n > 0 {
        lemma_all_contained_forall(xs, ys, n - 1);
        lemma_contains_eq_exists(ys, at(xs, n - 1), ys.len() as int);
    }
}

/// Every element of `ys` below `n` has an equal element in `xs` exactly
/// when the check says so.
proof fn lemma_all_covered_forall(xs: Seq<PtrValue>, ys: Seq<PtrValue>, n: int)
    requires
        0 <= n <= ys.len(),
    ensures
        seq_all_covered(xs, ys, n) <==> forall|j: int| #![trigger ys[j]] 0 <= j < n
            ==> exists|i: int| #![trigger xs[i]] 0 <= i < xs.len() && value_eq(*xs[i], *ys[j]),
    decreases n,
{
    if n > 0 {
        lemma_all_covered_forall(xs, ys, n - 1);
        lemma_eq_contains_exists(xs, at(ys, n - 1), xs.len() as int);
    }
}

/// Whether the key and the value of `e` equal those of some entry of `ys`.
pub open spec fn entry_matched_in(e: (PtrValue, PtrValue), ys: Seq<(PtrValue, PtrValue)>) -> bool {
    exists|j: int| #![trigger ys[j]] 0 <= j < ys.len() && value_eq(*e.0, *ys[j].0) && value_eq(*e.1, *ys[j].1)
}

/// Whether some entry of `xs` has a key and a value equal to those of `e`.
pub open spec fn entry_matches_in(xs: Seq<(PtrValue, PtrValue)>, e: (PtrValue, PtrValue)) -> bool {
    exists|i: int| #![trigger xs[i]] 0 <= i < xs.len() && value_eq(*xs[i].0, *e.0) && value_eq(*xs[i].1, *e.1)
}

/// Some entry of `ys` below `n` equals `e` in key and value exactly when the
/// search says so.
proof fn lemma_entries_contain_exists(ys: Seq<(PtrValue, PtrValue)>, e: (PtrValue, PtrValue), n: int)
    requires
        0 <= n <= ys.len(),
    ensures
        entries_contain_eq(ys, e, n) <==> exists|j: int| #![trigger ys[j]] 0 <= j < n
            && value_eq(*e.0, *ys[j].0) && value_eq(*e.1, *ys[j].1),
        n == ys.len() ==> (entries_contain_eq(ys, e, n) <==> entry_matched_in(e, ys)),
    decreases n,
{
    if n > 0 {
        lemma_entries_contain_exists(ys, e, n - 1);
        if exists|j: int| #![trigger ys[j]] 0 <= j < n && value_eq(*e.0, *ys[j].0) && value_eq(*e.1, *ys[j].1) {
            let j = choose|j: int| #![trigger ys[j]] 0 <= j < n && value_eq(*e.0, *ys[j].0) && value_eq(*e.1, *ys[j].1);
            if j < n - 1 {
                assert(exists|j2: int| #![trigger ys[j2]] 0 <= j2 < n - 1 && value_eq(*e.0, *ys[j2].0) && value_eq(*e.1, *ys[j2].1));
            }
        }
    }
}

/// Some entry of `xs` below `n` equals `e` in key and value exactly when the
/// search says so.
proof fn lemma_entries_eq_contain_exists(xs: Seq<(PtrValue, PtrValue)>, e: (PtrValue, PtrValue), n: int)
    requires
        0 <= n <= xs.len(),
    ensures
        entries_eq_contain(xs, e, n) <==> exists|i: int| #![trigger xs[i]] 0 <= i < n
            && value_eq(*xs[i].0, *e.0) && value_eq(*xs[i].1, *e.1),
        n == xs.len() ==> (entries_eq_contain(xs, e, n) <==> entry_matches_in(xs, e)),
    decreases n,
{
    if n > 0 {
        lemma_entries_eq_contain_exists(xs, e, n - 1);
        if exists|i: int| #![trigger xs[i]] 0 <= i < n && value_eq(*xs[i].0, *e.0) && value_eq(*xs[i].1, *e.1) {
            let i = choose|i: int| #![trigger xs[i]] 0 <= i < n && value_eq(*xs[i].0, *e.0) && value_eq(*xs[i].1, *e.1);
            if i < n - 1 {
                assert(exists|i2: int| #![trigger xs[i2]] 0 <= i2 < n - 1 && value_eq(*xs[i2].0, *e.0) && value_eq(*xs[i2].1, *e.1));
            }
        }
    }
}

/// Every entry of `xs` below `n` has an equal entry in `ys` exactly when
/// the check says so.
pub(crate) proof fn lemma_entries_all_contained_forall(xs: Seq<(PtrValue, PtrValue)>, ys: Seq<(PtrValue, PtrValue)>, n: int)
    requires
        0 <= n <= xs.len(),
    ensures
        entries_all_contained(xs, ys, n) <==> forall|i: int| 0 <= i < n ==> #[trigger] entry_matched_in(xs[i], ys),
    decreases n,
{
    if n > 0 {
        lemma_entries_all_contained_forall(xs, ys, n - 1);
        lemma_entries_contain_exists(ys, xs[n - 1], ys.len() as int);
    }
}

/// Every entry of `ys` below `n` has an equal entry in `xs` exactly when
/// the check says so.
pub(crate) proof fn lemma_entries_all_covered_forall(xs: Seq<(PtrValue, PtrValue)>, ys: Seq<(PtrValue, PtrValue)>, n: int)
    requires
        0 <= n <= ys.len(),
    ensures
        entries_all_covered(xs, ys, n) <==> forall|j: int| 0 <= j < n ==> #[trigger] entry_matches_in(xs, ys[j]),
    decreases n,
{
    if n > 0 {
        lemma_entries_all_covered_forall(xs, ys, n - 1);
        lemma_entries_eq_contain_exists(xs, ys[n - 1], xs.len() as int);
    }
}

/// Sets are equal without regard to order: two sets are equal exactly when
/// they have as many elements and each element of either has an equal
/// element in the other, whatever their metadata. So `#{1 2}` and `#{2 1}`
/// are equal, and `#{1 2}` and `#{1 3}` are not.
pub proof fn law_value_eq_sets(x: ValueSet, mx: Option<Arc<ValueMap>>, y: ValueSet, my: Option<Arc<ValueMap>>)
    ensures
        value_eq(Value::ValueSet(x, mx), Value::ValueSet(y, my)) <==> {
            &&& x@.len() == y@.len()
            &&& forall|i: int| #![trigger x@[i]] 0 <= i < x@.len()
                ==> exists|j: int| #![trigger y@[j]] 0 <= j < y@.len() && value_eq(*x@[i], *y@[j])
            &&& forall|j: int| #![trigger y@[j]] 0 <= j < y@.len()
                ==> exists|i: int| #![trigger x@[i]] 0 <= i < x@.len() && value_eq(*x@[i], *y@[j])
        },
{
    crate::set::lemma_set_view(x);
    crate::set::lemma_set_view(y);
    assert(value_eq(Value::ValueSet(x, mx), Value::ValueSet(y, my)) == (x.0@.len() == y.0@.len()
        && seq_all_contained(x.0@, y.0@, x.0@.len() as int) && seq_all_covered(x.0@, y.0@, y.0@.len() as int)));
    lemma_all_contained_forall(x.0@, y.0@, x.0@.len() as int);
    lemma_all_covered_forall(x.0@, y.0@, y.0@.len() as int);
}

/// Map equality is the two-way containment of entries.
pub(crate) proof fn lemma_map_eq_unfold(x: ValueMap, mx: Option<Arc<ValueMap>>, y: ValueMap, my: Option<Arc<ValueMap>>)
    ensures
        x@ == x.0@,
        y@ == y.0@,
        value_eq(Value::ValueMap(x, mx), Value::ValueMap(y, my)) == (x.0@.len() == y.0@.len()
            && entries_all_contained(x.0@, y.0@, x.0@.len() as int) && entries_all_covered(x.0@, y.0@, y.0@.len() as int)),
{
    crate::map::lemma_map_view(x);
    crate::map::lemma_map_view(y);
}

/// Equality of atoms: values of different kinds are never equal; two nils
/// are equal; booleans, integers, strings, symbols and keywords are equal
/// exactly when what they hold is, whatever their metadata.
pub proof fn law_value_eq_atoms(a: Value, b: Value)
    ensures
        value_eq(a, b) ==> {
            &&& (a is Nil <==> b is Nil)
            &&& (a is Boolean <==> b is Boolean)
            &&& (a is Integer <==> b is Integer)
            &&& (a is Float <==> b is Float)
            &&& (a is String <==> b is String)
            &&& (a is Symbol <==> b is Symbol)
            &&& (a is Keyword <==> b is Keyword)
            &&& (a is List <==> b is List)
            &&& (a is Vector <==> b is Vector)
            &&& (a is ValueSet <==> b is ValueSet)
            &&& (a is ValueMap <==> b is ValueMap)
            &&& (a is Var <==> b is Var)
            &&& (a is Function <==> b is Function)
            &&& (a is Handle <==> b is Handle)
        },
        (a is Nil && b is Nil) ==> value_eq(a, b),
        match (a, b) {
            (Value::Boolean(x, _), Value::Boolean(y, _)) => value_eq(a, b) <==> x == y,
            (Value::Integer(x, _), Value::Integer(y, _)) => value_eq(a, b) <==> x == y,
            (Value::String(x, _), Value::String(y, _)) => value_eq(a, b) <==> x@ == y@,
            (Value::Symbol(x, _), Value::Symbol(y, _)) => value_eq(a, b) <==> x@ == y@,
            (Value::Keyword(x, _), Value::Keyword(y, _)) => value_eq(a, b) <==> x@ == y@,
            _ => true,
        },
{
}

/// Equality of values is transitive: a value equal to a second that equals
/// a third equals the third.
pub proof fn law_value_eq_transitive(a: Value, b: Value, c: Value)
    requires
        value_eq(a, b),
        value_eq(b, c),
    ensures
        value_eq(a, c),
    decreases a, 0int, 0int,
{
    match (a, b, c) {
        (Value::List(x, _), Value::List(y, _), Value::List(z, _)) => {
            lemma_pairwise_eq_transitive(x.0@, y.0@, z.0@, x.0@.len() as int);
        },
        (Value::Vector(x, _), Value::Vector(y, _), Value::Vector(z, _)) => {
            lemma_pairwise_eq_transitive(x.0@, y.0@, z.0@, x.0@.len() as int);
        },
        (Value::ValueSet(x, _), Value::ValueSet(y, _), Value::ValueSet(z, _)) => {
            lemma_all_contained_transitive(x.0@, y.0@, z.0@, x.0@.len() as int);
            lemma_all_covered_transitive(x.0@, y.0@, z.0@, z.0@.len() as int);
        },
        (Value::ValueMap(x, _), Value::ValueMap(y, _), Value::ValueMap(z, _)) => {
            lemma_entries_all_contained_transitive(x.0@, y.0@, z.0@, x.0@.len() as int);
            lemma_entries_all_covered_transitive(x.0@, y.0@, z.0@, z.0@.len() as int);
        },
        (Value::Var(x, _), Value::Var(y, _), Value::Var(z, _)) => {
            let (xv, yv, zv) = (bound_of(x), bound_of(y), bound_of(z));
            if xv is Some && yv is Some && zv is Some {
                law_value_eq_transitive(deref_bound(xv), deref_bound(yv), deref_bound(zv));
            }
        },
        _ => {},
    }
}

/// Pairwise equality is transitive.
proof fn lemma_pairwise_eq_transitive(xs: Seq<PtrValue>, ys: Seq<PtrValue>, zs: Seq<PtrValue>, n: int)
    requires
        seq_pairwise_eq(xs, ys, n),
        seq_pairwise_eq(ys, zs, n),
    ensures
        seq_pairwise_eq(xs, zs, n),
    decreases xs, 2int, n,
{
    if 0 < n {
        law_value_eq_transitive(at(xs, n - 1), at(ys, n - 1), at(zs, n - 1));
        lemma_pairwise_eq_transitive(xs, ys, zs, n - 1);
    }
}

/// Where every element of `ys` below `n` equals one of `zs`, so does the
/// element at `k`.
proof fn lemma_all_contained_at(ys: Seq<PtrValue>, zs: Seq<PtrValue>, n: int, k: int)
    requires
        seq_all_contained(ys, zs, n),
        0 <= k < n <= ys.len(),
    ensures
        seq_contains_eq(zs, at(ys, k), zs.len() as int),
    decreases n,
{
    if k < n - 1 {
        lemma_all_contained_at(ys, zs, n - 1, k);
    }
}

/// Where every element of `ys` below `n` is equalled by one of `xs`, so is
/// the element at `k`.
proof fn lemma_all_covered_at(xs: Seq<PtrValue>, ys: Seq<PtrValue>, n: int, k: int)
    requires
        seq_all_covered(xs, ys, n),
        0 <= k < n <= ys.len(),
    ensures
        seq_eq_contains(xs, at(ys, k), xs.len() as int),
    decreases n,
{
    if k < n - 1 {
        lemma_all_covered_at(xs, ys, n - 1, k);
    }
}

/// A value equal to one that equals an element of `zs` equals that element.
proof fn lemma_contains_transitive(x: Value, y: Value, zs: Seq<PtrValue>, m: int)
    requires
        value_eq(x, y),
        seq_contains_eq(zs, y, m),
    ensures
        seq_contains_eq(zs, x, m),
    decreases x, 2int, m,
{
    if 0 < m && m <= zs.len() {
        if value_eq(y, at(zs, m - 1)) {
            law_value_eq_transitive(x, y, at(zs, m - 1));
        } else {
            lemma_contains_transitive(x, y, zs, m - 1);
        }
    }
}

/// A value equal to an element of `ys`, each of whose elements equals one
/// of `zs`, equals an element of `zs`.
proof fn lemma_contained_through(x: Value, ys: Seq<PtrValue>, zs: Seq<PtrValue>, m: int)
    requires
        seq_contains_eq(ys, x, m),
        m <= ys.len(),
        seq_all_contained(ys, zs, ys.len() as int),
    ensures
        seq_contains_eq(zs, x, zs.len() as int),
    decreases x, 3int, m,
{
    if 0 < m {
        if value_eq(x, at(ys, m - 1)) {
            lemma_all_contained_at(ys, zs, ys.len() as int, m - 1);
            lemma_contains_transitive(x, at(ys, m - 1), zs, zs.len() as int);
        } else {
            lemma_contained_through(x, ys, zs, m - 1);
        }
    }
}

/// Containment in the sense of equality is transitive.
proof fn lemma_all_contained_transitive(xs: Seq<PtrValue>, ys: Seq<PtrValue>, zs: Seq<PtrValue>, n: int)
    requires
        n <= xs.len(),
        seq_all_contained(xs, ys, n),
        seq_all_contained(ys, zs, ys.len() as int),
    ensures
        seq_all_contained(xs, zs, n),
    decreases xs, 2int, n,
{
    if 0 < n {
        lemma_contained_through(at(xs, n - 1), ys, zs, ys.len() as int);
        lemma_all_contained_transitive(xs, ys, zs, n - 1);
    }
}

/// An element of `xs` equal to a value equal to `z` equals `z`.
proof fn lemma_covered_transitive(xs: Seq<PtrValue>, y: Value, z: Value, m: int)
    requires
        seq_eq_contains(xs, y, m),
        value_eq(y, z),
    ensures
        seq_eq_contains(xs, z, m),
    decreases xs, 1int, m,
{
    if 0 < m && m <= xs.len() {
        if value_eq(at(xs, m - 1), y) {
            law_value_eq_transitive(at(xs, m - 1), y, z);
        } else {
            lemma_covered_transitive(xs, y, z, m - 1);
        }
    }
}

/// A value equalled by an element of `ys`, each of whose elements is
/// equalled by one of `xs`, is equalled by an element of `xs`.
proof fn lemma_covered_through(xs: Seq<PtrValue>, ys: Seq<PtrValue>, z: Value, m: int)
    requires
        seq_eq_contains(ys, z, m),
        m <= ys.len(),
        seq_all_covered(xs, ys, ys.len() as int),
    ensures
        seq_eq_contains(xs, z, xs.len() as int),
    decreases xs, 3int, m,
{
    if 0 < m {
        if value_eq(at(ys, m - 1), z) {
            lemma_all_covered_at(xs, ys, ys.len() as int, m - 1);
            lemma_covered_transitive(xs, at(ys, m - 1), z, xs.len() as int);
        } else {
            lemma_covered_through(xs, ys, z, m - 1);
        }
    }
}

/// Covering in the sense of equality is transitive.
proof fn lemma_all_covered_transitive(xs: Seq<PtrValue>, ys: Seq<PtrValue>, zs: Seq<PtrValue>, n: int)
    requires
        n <= zs.len(),
        seq_all_covered(xs, ys, ys.len() as int),
        seq_all_covered(ys, zs, n),
    ensures
        seq_all_covered(xs, zs, n),
    decreases xs, 4int, n,
{
    if 0 < n {
        lemma_covered_through(xs, ys, at(zs, n - 1), ys.len() as int);
        lemma_all_covered_transitive(xs, ys, zs, n - 1);
    }
}

/// Where every entry of `ys` below `n` equals one of `zs`, so does the entry
/// at `k`.
proof fn lemma_entries_all_contained_at(ys: Seq<(PtrValue, PtrValue)>, zs: Seq<(PtrValue, PtrValue)>, n: int, k: int)
    requires
        entries_all_contained(ys, zs, n),
        0 <= k < n <= ys.len(),
    ensures
        entries_contain_eq(zs, ys[k], zs.len() as int),
    decreases n,
{
    if k < n - 1 {
        lemma_entries_all_contained_at(ys, zs, n - 1, k);
    }
}

/// Where every entry of `ys` below `n` is equalled by one of `xs`, so is the
/// entry at `k`.
proof fn lemma_entries_all_covered_at(xs: Seq<(PtrValue, PtrValue)>, ys: Seq<(PtrValue, PtrValue)>, n: int, k: int)
    requires
        entries_all_covered(xs, ys, n),
        0 <= k < n <= ys.len(),
    ensures
        entries_eq_contain(xs, ys[k], xs.len() as int),
    decreases n,
{
    if k < n - 1 {
        lemma_entries_all_covered_at(xs, ys, n - 1, k);
    }
}

/// An entry equal to one that equals an entry of `zs` equals that entry.
proof fn lemma_entry_contains_transitive(e: (PtrValue, PtrValue), f: (PtrValue, PtrValue), zs: Seq<(PtrValue, PtrValue)>, m: int)
    requires
        value_eq(pair_part(e, 0), pair_part(f, 0)),
        value_eq(pair_part(e, 1), pair_part(f, 1)),
        entries_contain_eq(zs, f, m),
    ensures
        entries_contain_eq(zs, e, m),
    decreases e, 2int, m,
{
    if 0 < m && m <= zs.len() {
        if value_eq(pair_part(f, 0), entry_part(zs, m - 1, 0)) && value_eq(pair_part(f, 1), entry_part(zs, m - 1, 1)) {
            law_value_eq_transitive(pair_part(e, 0), pair_part(f, 0), entry_part(zs, m - 1, 0));
            law_value_eq_transitive(pair_part(e, 1), pair_part(f, 1), entry_part(zs, m - 1, 1));
        } else {
            lemma_entry_contains_transitive(e, f, zs, m - 1);
        }
    }
}

/// An entry equal to an entry of `ys`, each of whose entries equals one of
/// `zs`, equals an entry of `zs`.
proof fn lemma_entry_contained_through(e: (PtrValue, PtrValue), ys: Seq<(PtrValue, PtrValue)>, zs: Seq<(PtrValue, PtrValue)>, m: int)
    requires
        entries_contain_eq(ys, e, m),
        m <= ys.len(),
        entries_all_contained(ys, zs, ys.len() as int),
    ensures
        entries_contain_eq(zs, e, zs.len() as int),
    decreases e, 3int, m,
{
    if 0 < m {
        if value_eq(pair_part(e, 0), entry_part(ys, m - 1, 0)) && value_eq(pair_part(e, 1), entry_part(ys, m - 1, 1)) {
            lemma_entries_all_contained_at(ys, zs, ys.len() as int, m - 1);
            lemma_entry_contains_transitive(e, ys[m - 1], zs, zs.len() as int);
        } else {
            lemma_entry_contained_through(e, ys, zs, m - 1);
        }
    }
}

/// Containment of entries in the sense of equality is transitive.
proof fn lemma_entries_all_contained_transitive(xs: Seq<(PtrValue, PtrValue)>, ys: Seq<(PtrValue, PtrValue)>, zs: Seq<(PtrValue, PtrValue)>, n: int)
    requires
        n <= xs.len(),
        entries_all_contained(xs, ys, n),
        entries_all_contained(ys, zs, ys.len() as int),
    ensures
        entries_all_contained(xs, zs, n),
    decreases xs, 2int, n,
{
    if 0 < n {
        lemma_entry_contained_through(xs[n - 1], ys, zs, ys.len() as int);
        lemma_entries_all_contained_transitive(xs, ys, zs, n - 1);
    }
}

/// An entry of `xs` equal to an entry equal to `g` equals `g`.
proof fn lemma_entry_covered_transitive(xs: Seq<(PtrValue, PtrValue)>, f: (PtrValue, PtrValue), g: (PtrValue, PtrValue), m: int)
    requires
        entries_eq_contain(xs, f, m),
        value_eq(pair_part(f, 0), pair_part(g, 0)),
        value_eq(pair_part(f, 1), pair_part(g, 1)),
    ensures
        entries_eq_contain(xs, g, m),
    decreases xs, 1int, m,
{
    if 0 < m && m <= xs.len() {
        if value_eq(entry_part(xs, m - 1, 0), pair_part(f, 0)) && value_eq(entry_part(xs, m - 1, 1), pair_part(f, 1)) {
            law_value_eq_transitive(entry_part(xs, m - 1, 0), pair_part(f, 0), pair_part(g, 0));
            law_value_eq_transitive(entry_part(xs, m - 1, 1), pair_part(f, 1), pair_part(g, 1));
        } else {
            lemma_entry_covered_transitive(xs, f, g, m - 1);
        }
    }
}

/// An entry equalled by an entry of `ys`, each of whose entries is equalled
/// by one of `xs`, is equalled by an entry of `xs`.
proof fn lemma_entry_covered_through(xs: Seq<(PtrValue, PtrValue)>, ys: Seq<(PtrValue, PtrValue)>, g: (PtrValue, PtrValue), m: int)
    requires
        entries_eq_contain(ys, g, m),
        m <= ys.len(),
        entries_all_covered(xs, ys, ys.len() as int),
    ensures
        entries_eq_contain(xs, g, xs.len() as int),
    decreases xs, 3int, m,
{
    if 0 < m {
        if value_eq(entry_part(ys, m - 1, 0), pair_part(g, 0)) && value_eq(entry_part(ys, m - 1, 1), pair_part(g, 1)) {
            lemma_entries_all_covered_at(xs, ys, ys.len() as int, m - 1);
            lemma_entry_covered_transitive(xs, ys[m - 1], g, xs.len() as int);
        } else {
            lemma_entry_covered_through(xs, ys, g, m - 1);
        }
    }
}

/// Covering of entries in the sense of equality is transitive.
proof fn lemma_entries_all_covered_transitive(xs: Seq<(PtrValue, PtrValue)>, ys: Seq<(PtrValue, PtrValue)>, zs: Seq<(PtrValue, PtrValue)>, n: int)
    requires
        n <= zs.len(),
        entries_all_covered(xs, ys, ys.len() as int),
        entries_all_covered(ys, zs, n),
    ensures
        entries_all_covered(xs, zs, n),
    decreases xs, 4int, n,
{
    if 0 < n {
        lemma_entry_covered_through(xs, ys, zs[n - 1], ys.len() as int);
        lemma_entries_all_covered_transitive(xs, ys, zs, n - 1);
    }
}

} // verus!
