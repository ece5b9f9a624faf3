//! Multi-arity functions: which body serves which number of arguments.
//!
//! A function's bodies are implemented by the program that embeds the
//! library; here a body is known by the number that program gave its
//! implementation.
use vstd::prelude::*;
use std::sync::Arc;
use crate::value::{PtrValue, Value};

pub mod order;

verus! {

/// A reference-counted pointer to a [`Function`].
pub type PtrFunction = Arc<Function>;

/// The number the embedding program gave a function body's implementation.
pub type ImplementationId = u64;

/// Represents the arity (number of arguments) a function body supports.
#[derive(Debug, Clone, Copy, PartialEq, Eq, Structural)]
pub enum FunctionArity {
    /// The body requires exactly n arguments
    Exactly(usize),
    /// The body requires at least n arguments
    AtLeast(usize),
}

impl FunctionArity {
    /// Whether this arity admits `arg_count` arguments.
    pub open spec fn spec_supports(self, arg_count: int) -> bool {
        match self {
            FunctionArity::Exactly(n) => arg_count == n,
            FunctionArity::AtLeast(n) => arg_count >= n,
        }
    }

    /// Returns `true` if this arity supports the given argument count.
    pub fn supports_arg_count(&self, arg_count: usize) -> (res: bool)
        ensures
            res == self.spec_supports(arg_count as int),
    {
        match self {
            FunctionArity::Exactly(x) => arg_count == *x,
            FunctionArity::AtLeast(x) => arg_count >= *x,
        }
    }
}

/// The key bodies are ordered by: every `Exactly(n)` (by `n`) before every
/// `AtLeast(m)` (by `m`).
pub open spec fn arity_key(arity: FunctionArity) -> int {
    match arity {
        FunctionArity::Exactly(n) => n as int,
        FunctionArity::AtLeast(m) => usize::MAX as int + 1 + m,
    }
}

/// Inserts `x` into `s` after the last element whose key is not greater.
pub open spec fn insert_by_arity(x: (FunctionArity, ImplementationId), s: Seq<(FunctionArity, ImplementationId)>) -> Seq<(FunctionArity, ImplementationId)>
    decreases s.len(),
{
    if s.len() == 0 || arity_key(s.last().0) <= arity_key(x.0) {
        s.push(x)
    } else {
        insert_by_arity(x, s.drop_last()).push(s.last())
    }
}

/// The canonical order of bodies: a stable sort by [`arity_key`].
pub open spec fn canonical_arity_order(s: Seq<(FunctionArity, ImplementationId)>) -> Seq<(FunctionArity, ImplementationId)>
    decreases s.len(),
{
    if s.len() == 0 {
        s
    } else {
        insert_by_arity(s.last(), canonical_arity_order(s.drop_last()))
    }
}

/// Whether an arity is the variadic kind.
pub open spec fn is_variadic(arity: FunctionArity) -> bool {
    arity is AtLeast
}

/// The number inside an arity.
pub open spec fn arity_count(arity: FunctionArity) -> usize {
    match arity {
        FunctionArity::Exactly(n) => n,
        FunctionArity::AtLeast(n) => n,
    }
}

/// Bodies a function can be built from: at most one `AtLeast` body, and no
/// `Exactly(n)` body with `n` at or above the `AtLeast` bound.
pub open spec fn arities_buildable(s: Seq<(FunctionArity, ImplementationId)>) -> bool {
    &&& forall|i: int, j: int|
        #![trigger s[i], s[j]]
        0 <= i < s.len() && 0 <= j < s.len() && i != j && is_variadic(s[i].0) ==> !is_variadic(s[j].0)
    &&& forall|i: int, j: int|
        #![trigger s[i], s[j]]
        0 <= i < s.len() && 0 <= j < s.len() && is_variadic(s[i].0) && !is_variadic(s[j].0)
            ==> arity_count(s[j].0) < arity_count(s[i].0)
}

/// The index of the first body whose arity admits `arg_count`, if any.
pub open spec fn first_supporting(bodies: Seq<(FunctionArity, ImplementationId)>, arg_count: int) -> Option<int>
    decreases bodies.len(),
{
    if bodies.len() == 0 {
        None
    } else {
        match first_supporting(bodies.drop_last(), arg_count) {
            Some(i) => Some(i),
            None => if bodies.last().0.spec_supports(arg_count) {
                Some(bodies.len() - 1)
            } else {
                None
            },
        }
    }
}

/// The decimal digits of `n`.
pub open spec fn decimal_digits(n: nat) -> Seq<char>
    decreases n,
{
    if n < 10 {
        seq![digit_char(n)]
    } else {
        decimal_digits(n / 10).push(digit_char(n % 10))
    }
}

/// The character of a decimal digit.
pub open spec fn digit_char(d: nat) -> char {
    if d == 0 { '0' } else if d == 1 { '1' } else if d == 2 { '2' } else if d == 3 { '3' }
    else if d == 4 { '4' } else if d == 5 { '5' } else if d == 6 { '6' } else if d == 7 { '7' }
    else if d == 8 { '8' } else { '9' }
}

/// How an arity is written: `"n"` for `Exactly(n)`, `"n+"` for `AtLeast(n)`.
pub open spec fn arity_text(arity: FunctionArity) -> Seq<char> {
    match arity {
        FunctionArity::Exactly(n) => decimal_digits(n as nat),
        FunctionArity::AtLeast(n) => decimal_digits(n as nat).push('+'),
    }
}

/// The one-character string of a decimal digit.
fn digit_str(d: u64) -> (res: &'static str)
    requires
        d < 10,
    ensures
        res@ == seq![digit_char(d as nat)],
{
    proof {
        reveal_strlit("0");
        reveal_strlit("1");
        reveal_strlit("2");
        reveal_strlit("3");
        reveal_strlit("4");
        reveal_strlit("5");
        reveal_strlit("6");
        reveal_strlit("7");
        reveal_strlit("8");
        reveal_strlit("9");
    }
    if d == 0 { "0" } else if d == 1 { "1" } else if d == 2 { "2" } else if d == 3 { "3" }
    else if d == 4 { "4" } else if d == 5 { "5" } else if d == 6 { "6" } else if d == 7 { "7" }
    else if d == 8 { "8" } else { "9" }
}

/// Writes `n` in decimal.
pub fn decimal_string(n: u64) -> (res: String)
    ensures
        res@ == decimal_digits(n as nat),
    decreases n,
{
    if n < 10 {
        String::from_str(digit_str(n))
    } else {
        let mut s = decimal_string(n / 10);
        s.append(digit_str(n % 10));
        s
    }
}

/// Writes an arity: `"n"` for `Exactly(n)`, `"n+"` for `AtLeast(n)`.
pub fn arity_string(arity: &FunctionArity) -> (res: String)
    ensures
        res@ == arity_text(*arity),
{
    match arity {
        FunctionArity::Exactly(n) => decimal_string(*n as u64),
        FunctionArity::AtLeast(n) => {
            let mut s = decimal_string(*n as u64);
            proof {
                reveal_strlit("+");
            }
            s.append("+");
            s
        },
    }
}

/// One implementation of a function, for one arity.
#[derive(Debug)]
pub struct FunctionBody {
    pub(crate) arity: FunctionArity,
    pub(crate) func: ImplementationId,
}

impl View for FunctionBody {
    /// `(arity, implementation)`
    type V = (FunctionArity, ImplementationId);

    closed spec fn view(&self) -> (FunctionArity, ImplementationId) {
        (self.arity, self.func)
    }
}

impl FunctionBody {
    /// Creates a body of the given arity, implemented by `func`.
    pub fn new(arity: FunctionArity, func: ImplementationId) -> (res: Self)
        ensures
            res@ == (arity, func),
    {
        FunctionBody { arity, func }
    }
}

/// Represents a multi-arity function with one body per arity.
///
/// Invocation picks the first body (in the canonical order the builder
/// established) whose arity admits the number of arguments.
#[derive(Debug)]
pub struct Function {
    pub(crate) name: Option<String>,
    pub(crate) bodies: Vec<FunctionBody>,
}

impl View for Function {
    /// `(name, [(arity, implementation)])`
    type V = (Option<Seq<char>>, Seq<(FunctionArity, ImplementationId)>);

    closed spec fn view(&self) -> (Option<Seq<char>>, Seq<(FunctionArity, ImplementationId)>) {
        (name_view(self.name), self.bodies@.map_values(|b: FunctionBody| (b.arity, b.func)))
    }
}

/// The view of an optional name.
pub open spec fn name_view(name: Option<String>) -> Option<Seq<char>> {
    match name {
        Some(n) => Some(n@),
        None => None,
    }
}

/// Whether two optional names are the same.
fn same_name(a: &Option<String>, b: &Option<String>) -> (res: bool)
    ensures
        res == (name_view(*a) == name_view(*b)),
{
    match (a, b) {
        (Some(x), Some(y)) => *x == *y,
        (None, None) => true,
        _ => false,
    }
}

impl PartialEq for Function {
    fn eq(&self, other: &Self) -> (res: bool) {
        if !same_name(&self.name, &other.name) || self.bodies.len() != other.bodies.len() {
            proof {
                if self@ == other@ {
                    assert(self@.1.len() == other@.1.len());
                }
            }
            return false;
        }
        let n = self.bodies.len();
        let mut i: usize = 0;
        while i < n
            invariant
                n == self.bodies@.len() == other.bodies@.len(),
                0 <= i <= n,
                self@.0 == other@.0,
                forall|k: int| 0 <= k < i ==> self@.1[k] == other@.1[k],
            decreases n - i,
        {
            if self.bodies[i].arity != other.bodies[i].arity || self.bodies[i].func != other.bodies[i].func {
                proof {
                    if self@ == other@ {
                        assert(self@.1[i as int] == other@.1[i as int]);
                    }
                }
                return false;
            }
            i += 1;
        }
        assert(self@.1 =~= other@.1);
        true
    }
}

impl vstd::std_specs::cmp::PartialEqSpecImpl for Function {
    open spec fn obeys_eq_spec() -> bool {
        true
    }

    open spec fn eq_spec(&self, other: &Self) -> bool {
        self@ == other@
    }
}

impl Function {
    pub fn builder() -> (res: FunctionBuilder)
        ensures
            res@ == (None::<Seq<char>>, Seq::<(FunctionArity, ImplementationId)>::empty()),
    {
        FunctionBuilder::new()
    }

    /// The function's name, if it has one.
    pub fn name(&self) -> (res: Option<&str>)
        ensures
            res is Some <==> self@.0 is Some,
            res matches Some(n) ==> n@ == self@.0.unwrap(),
    {
        match &self.name {
            Some(n) => Some(n.as_str()),
            None => None,
        }
    }

    /// The arities of the bodies, in order.
    pub fn arities(&self) -> (res: Vec<FunctionArity>)
        ensures
            res@ == self@.1.map_values(|b: (FunctionArity, ImplementationId)| b.0),
    {
        let mut res: Vec<FunctionArity> = Vec::new();
        let mut i: usize = 0;
        while i < self.bodies.len()
            invariant
                0 <= i <= self.bodies@.len(),
                res@ == self@.1.take(i as int).map_values(|b: (FunctionArity, ImplementationId)| b.0),
            decreases self.bodies@.len() - i,
        {
            res.push(self.bodies[i].arity);
            i += 1;
            assert(self@.1.take(i as int).drop_last() =~= self@.1.take(i - 1));
            assert(res@ =~= self@.1.take(i as int).map_values(|b: (FunctionArity, ImplementationId)| b.0));
        }
        assert(self@.1.take(i as int) =~= self@.1);
        res
    }

    /// The implementation of the first body whose arity admits `arg_count`
    /// arguments, if any.
    pub fn body_supporting_arg_count(&self, arg_count: usize) -> (res: Option<ImplementationId>)
        ensures
            match first_supporting(self@.1, arg_count as int) {
                Some(i) => res == Some(self@.1[i].1),
                None => res is None,
            },
    {
        let mut i: usize = 0;
        while i < self.bodies.len()
            invariant
                0 <= i <= self.bodies@.len(),
                first_supporting(self@.1.take(i as int), arg_count as int) is None,
            decreases self.bodies@.len() - i,
        {
            proof {
                lemma_first_supporting_prefix(self@.1, (i + 1) as int, arg_count as int);
                assert(self@.1.take(i + 1).drop_last() =~= self@.1.take(i as int));
            }
            if self.bodies[i].arity.supports_arg_count(arg_count) {
                proof {
                    lemma_first_supporting_extends(self@.1, (i + 1) as int, arg_count as int);
                }
                return Some(self.bodies[i].func);
            }
            i += 1;
        }
        assert(self@.1.take(i as int) =~= self@.1);
        None
    }

    /// Human-readable arities, in order: `"n"` for `Exactly(n)`, `"n+"` for
    /// `AtLeast(n)`.
    pub fn arity_strings(&self) -> (res: Vec<String>)
        ensures
            res@.len() == self@.1.len(),
            forall|k: int| 0 <= k < res@.len() ==> #[trigger] res@[k]@ == arity_text(self@.1[k].0),
    {
        let mut res: Vec<String> = Vec::new();
        let mut i: usize = 0;
        while i < self.bodies.len()
            invariant
                0 <= i <= self.bodies@.len(),
                res@.len() == i,
                forall|k: int| 0 <= k < i ==> #[trigger] res@[k]@ == arity_text(self@.1[k].0),
            decreases self.bodies@.len() - i,
        {
            res.push(arity_string(&self.bodies[i].arity));
            i += 1;
        }
        res
    }
}

/// A function named `name` with the given bodies, in the canonical order.
pub fn build_function(name: &str, arities: Vec<(FunctionArity, ImplementationId)>) -> (res: Function)
    requires
        arities_buildable(arities@),
    ensures
        res@ == (Some(name@), canonical_arity_order(arities@)),
{
    let mut builder = FunctionBuilder::new();
    builder.set_name(name.to_owned());
    let mut i: usize = 0;
    while i < arities.len()
        invariant
            0 <= i <= arities@.len(),
            builder@ == (Some(name@), arities@.take(i as int)),
        decreases arities@.len() - i,
    {
        builder.add_body(arities[i].0, arities[i].1);
        i += 1;
        assert(builder@.1 =~= arities@.take(i as int));
    }
    assert(arities@.take(arities@.len() as int) =~= arities@);
    builder.build()
}

/// A pointer to a function named `name` with the given bodies.
pub fn build_function_ptr(name: &str, arities: Vec<(FunctionArity, ImplementationId)>) -> (res: PtrFunction)
    requires
        arities_buildable(arities@),
    ensures
        (*res)@ == (Some(name@), canonical_arity_order(arities@)),
{
    Arc::new(build_function(name, arities))
}

/// A function value named `name` with the given bodies.
pub fn build_function_value(name: &str, arities: Vec<(FunctionArity, ImplementationId)>) -> (res: Value)
    requires
        arities_buildable(arities@),
    ensures
        res matches Value::Function(f, None) && (*f)@ == (Some(name@), canonical_arity_order(arities@)),
{
    Value::Function(build_function_ptr(name, arities), None)
}

/// A pointer to a function value named `name` with the given bodies.
pub fn build_function_value_ptr(name: &str, arities: Vec<(FunctionArity, ImplementationId)>) -> (res: PtrValue)
    requires
        arities_buildable(arities@),
    ensures
        *res matches Value::Function(f, None) && (*f)@ == (Some(name@), canonical_arity_order(arities@)),
{
    Arc::new(build_function_value(name, arities))
}


/// A prefix's first supporting body is the whole sequence's, when the
/// prefix has one.
proof fn lemma_first_supporting_extends(s: Seq<(FunctionArity, ImplementationId)>, n: int, arg_count: int)
    requires
        0 < n <= s.len(),
        first_supporting(s.take(n - 1), arg_count) is None,
        s[n - 1].0.spec_supports(arg_count),
    ensures
        first_supporting(s, arg_count) == Some(n - 1),
    decreases s.len(),
{
    assert(s.take(n).drop_last() =~= s.take(n - 1));
    assert(first_supporting(s.take(n), arg_count) == Some(n - 1));
    lemma_first_supporting_take(s, n, arg_count);
}

/// Taking the prefix of the prefix.
proof fn lemma_first_supporting_prefix(s: Seq<(FunctionArity, ImplementationId)>, n: int, arg_count: int)
    requires
        0 < n <= s.len(),
    ensures
        s.take(n).drop_last() == s.take(n - 1),
{
    assert(s.take(n).drop_last() =~= s.take(n - 1));
}

/// If a prefix has a first supporting body, the whole sequence has the same one.
proof fn lemma_first_supporting_take(s: Seq<(FunctionArity, ImplementationId)>, n: int, arg_count: int)
    requires
        0 <= n <= s.len(),
        first_supporting(s.take(n), arg_count) is Some,
    ensures
        first_supporting(s, arg_count) == first_supporting(s.take(n), arg_count),
    decreases s.len() - n,
{
    if n < s.len() {
        assert(s.take(n + 1).drop_last() =~= s.take(n));
        lemma_first_supporting_take(s, n + 1, arg_count);
    } else {
        assert(s.take(n) =~= s);
    }
}

/// Builder for constructing [`Function`] instances.
pub struct FunctionBuilder {
    pub(crate) name: Option<String>,
    pub(crate) bodies: Vec<(FunctionArity, ImplementationId)>,
}

impl View for FunctionBuilder {
    /// `(name, [(arity, implementation)])`, in the order the bodies were added.
    type V = (Option<Seq<char>>, Seq<(FunctionArity, ImplementationId)>);

    closed spec fn view(&self) -> (Option<Seq<char>>, Seq<(FunctionArity, ImplementationId)>) {
        (name_view(self.name), self.bodies@)
    }
}

/// Inserting `x` at `j` into `s`, where `j` is right after the last element
/// of `s.take(j)` whose key is not greater and every later element's key is
/// greater, is what [`insert_by_arity`] does.
proof fn lemma_insert_by_arity_at(x: (FunctionArity, ImplementationId), s: Seq<(FunctionArity, ImplementationId)>, j: int)
    requires
        0 <= j <= s.len(),
        j == 0 || arity_key(s[j - 1].0) <= arity_key(x.0),
        forall|k: int| j <= k < s.len() ==> arity_key(#[trigger] s[k].0) > arity_key(x.0),
    ensures
        insert_by_arity(x, s) == s.take(j).push(x) + s.skip(j),
    decreases s.len(),
{
    if s.len() == j {
        assert(s.skip(j) =~= Seq::<(FunctionArity, ImplementationId)>::empty());
        assert(s.take(j) =~= s);
        if j > 0 {
            assert(s.last() == s[j - 1]);
        }
        assert(s.take(j).push(x) + s.skip(j) =~= s.push(x));
    } else {
        assert(arity_key(s.last().0) > arity_key(x.0));
        lemma_insert_by_arity_at(x, s.drop_last(), j);
        assert(s.drop_last().take(j) =~= s.take(j));
        assert(s.drop_last().skip(j).push(s.last()) =~= s.skip(j));
        assert((s.take(j).push(x) + s.drop_last().skip(j)).push(s.last()) =~= s.take(j).push(x) + s.skip(j));
    }
}

impl FunctionBuilder {
    pub fn new() -> (res: Self)
        ensures
            res@ == (None::<Seq<char>>, Seq::<(FunctionArity, ImplementationId)>::empty()),
    {
        FunctionBuilder { name: None, bodies: Vec::new() }
    }

    pub fn unset_name(&mut self)
        ensures
            final(self)@ == (None::<Seq<char>>, old(self)@.1),
    {
        self.name = None;
    }

    pub fn set_name(&mut self, name: String)
        ensures
            final(self)@ == (Some(name@), old(self)@.1),
    {
        self.name = Some(name);
    }

    pub fn name(&self) -> (res: Option<&str>)
        ensures
            res is Some <==> self@.0 is Some,
            res matches Some(n) ==> n@ == self@.0.unwrap(),
    {
        match &self.name {
            Some(n) => Some(n.as_str()),
            None => None,
        }
    }

    /// Adds a body of the given arity, implemented by `func`.
    pub fn add_body(&mut self, arity: FunctionArity, func: ImplementationId)
        ensures
            final(self)@ == (old(self)@.0, old(self)@.1.push((arity, func))),
    {
        self.bodies.push((arity, func));
    }

    /// Adds a body of the given arity, implemented by `func` (builder pattern).
    pub fn with_body(self, arity: FunctionArity, func: ImplementationId) -> (res: Self)
        ensures
            res@ == (self@.0, self@.1.push((arity, func))),
    {
        let mut s = self;
        s.bodies.push((arity, func));
        s
    }

    pub fn clear_bodies(&mut self)
        ensures
            final(self)@ == (old(self)@.0, Seq::<(FunctionArity, ImplementationId)>::empty()),
    {
        self.bodies.clear();
    }

    /// Whether [`FunctionBuilder::build`] accepts the bodies added so far: at
    /// most one `AtLeast` body, and no `Exactly(n)` with `n` at or above its
    /// bound.
    pub fn can_build(&self) -> (res: bool)
        ensures
            res == arities_buildable(self@.1),
    {
        let s = &self.bodies;
        let n = s.len();
        let mut variadic: Option<usize> = None;
        let mut i: usize = 0;
        while i < n
            invariant
                n == s@.len(),
                s@ == self@.1,
                0 <= i <= n,
                variadic is None ==> forall|k: int| 0 <= k < i ==> !is_variadic(#[trigger] s@[k].0),
                variadic matches Some(v) ==> v < i && is_variadic(s@[v as int].0)
                    && forall|k: int| 0 <= k < i && k != v ==> !is_variadic(#[trigger] s@[k].0),
            decreases n - i,
        {
            if let FunctionArity::AtLeast(_) = s[i].0 {
                if variadic.is_some() {
                    proof {
                        let v = variadic.unwrap() as int;
                        let a = s@[v];
                        let b = s@[i as int];
                        assert(is_variadic(a.0) && is_variadic(b.0) && v != i);
                        if arities_buildable(self@.1) {
                            assert(self@.1[v] == a && self@.1[i as int] == b);
                            assert(!is_variadic(b.0));
                        }
                    }
                    return false;
                }
                variadic = Some(i);
            }
            i += 1;
        }
        match variadic {
            None => true,
            Some(v) => {
                let bound = match s[v].0 {
                    FunctionArity::AtLeast(m) => m,
                    FunctionArity::Exactly(_) => 0,
                };
                let mut j: usize = 0;
                while j < n
                    invariant
                        n == s@.len(),
                        s@ == self@.1,
                        0 <= j <= n,
                        v < n,
                        s@[v as int].0 == FunctionArity::AtLeast(bound),
                        forall|k: int| 0 <= k < n && k != v ==> !is_variadic(#[trigger] s@[k].0),
                        forall|k: int| 0 <= k < j && !is_variadic(#[trigger] s@[k].0) ==> arity_count(s@[k].0) < bound,
                    decreases n - j,
                {
                    if let FunctionArity::Exactly(e) = s[j].0 {
                        if e >= bound {
                            proof {
                                let a = s@[v as int];
                                let b = s@[j as int];
                                assert(is_variadic(a.0) && !is_variadic(b.0));
                                if arities_buildable(self@.1) {
                                    assert(self@.1[v as int] == a && self@.1[j as int] == b);
                                    assert(arity_count(b.0) < arity_count(a.0));
                                }
                            }
                            return false;
                        }
                    }
                    j += 1;
                }
                proof {
                    assert forall|p: int, q: int|
                        #![trigger s@[p], s@[q]]
                        0 <= p < n && 0 <= q < n && p != q && is_variadic(s@[p].0) implies !is_variadic(s@[q].0) by {
                        if p != v as int {
                            assert(!is_variadic(s@[p].0));
                        }
                    }
                    assert forall|p: int, q: int|
                        #![trigger s@[p], s@[q]]
                        0 <= p < n && 0 <= q < n && is_variadic(s@[p].0) && !is_variadic(s@[q].0)
                            implies arity_count(s@[q].0) < arity_count(s@[p].0) by {
                        if p != v as int {
                            assert(!is_variadic(s@[p].0));
                        }
                    }
                }
                true
            },
        }
    }

    /// Build the function with a canonical, deterministic ordering of bodies:
    /// every `Exactly` body (by ascending arity) before the `AtLeast` body,
    /// bodies of equal arity in the order they were added.
    pub fn build(self) -> (res: Function)
        requires
            arities_buildable(self@.1),
        ensures
            res@ == (self@.0, canonical_arity_order(self@.1)),
    {
        let input = self.bodies;
        let n = input.len();
        let mut ordered: Vec<(FunctionArity, ImplementationId)> = Vec::new();
        let mut i: usize = 0;
        while i < n
            invariant
                n == input@.len(),
                0 <= i <= n,
                ordered@.len() == i,
                ordered@ == canonical_arity_order(input@.take(i as int)),
            decreases n - i,
        {
            let x = input[i];
            let mut j: usize = ordered.len();
            while j > 0 && arity_before(&x.0, &ordered[j - 1].0)
                invariant
                    0 <= j <= ordered@.len(),
                    forall|k: int| j <= k < ordered@.len() ==> arity_key(#[trigger] ordered@[k].0) > arity_key(x.0),
                decreases j,
            {
                j -= 1;
            }
            proof {
                lemma_insert_by_arity_at(x, ordered@, j as int);
                assert(input@.take(i + 1).drop_last() =~= input@.take(i as int));
                assert(input@.take(i + 1).last() == x);
            }
            ordered.insert(j, x);
            proof {
                assert(ordered@ =~= canonical_arity_order(input@.take(i + 1)));
            }
            i += 1;
        }
        assert(input@.take(n as int) =~= input@);
        let mut bodies: Vec<FunctionBody> = Vec::new();
        let mut k: usize = 0;
        while k < n
            invariant
                n == ordered@.len(),
                0 <= k <= n,
                bodies@.map_values(|b: FunctionBody| (b.arity, b.func)) =~= ordered@.take(k as int),
            decreases n - k,
        {
            let (arity, func) = ordered[k];
            let ghost before = bodies@;
            bodies.push(FunctionBody { arity, func });
            proof {
                assert(bodies@ =~= before.push(FunctionBody { arity, func }));
                assert(ordered@.take(k + 1) =~= ordered@.take(k as int).push(ordered@[k as int]));
                assert(bodies@.map_values(|b: FunctionBody| (b.arity, b.func)) =~= before.map_values(|b: FunctionBody| (b.arity, b.func)).push((arity, func)));
            }
            k += 1;
        }
        assert(ordered@.take(n as int) =~= ordered@);
        Function { name: self.name, bodies }
    }
}

/// Whether `b` orders after `a` (its key is greater).
fn arity_before(a: &FunctionArity, b: &FunctionArity) -> (res: bool)
    ensures
        res == (arity_key(*b) > arity_key(*a)),
{
    match (a, b) {
        (FunctionArity::Exactly(x), FunctionArity::Exactly(y)) => *y > *x,
        (FunctionArity::AtLeast(x), FunctionArity::AtLeast(y)) => *y > *x,
        (FunctionArity::Exactly(_), FunctionArity::AtLeast(_)) => true,
        (FunctionArity::AtLeast(_), FunctionArity::Exactly(_)) => false,
    }
}


/// A sequence with one more element at its end holds what the sequence held
/// and that element.
proof fn lemma_push_contains<A>(s: Seq<A>, a: A, y: A)
    ensures
        s.push(a).contains(y) <==> (s.contains(y) || y == a),
{
    if s.contains(y) {
        let i = choose|i: int| 0 <= i < s.len() && s[i] == y;
        assert(s.push(a)[i] == y);
    }
    if y == a {
        assert(s.push(a)[s.len() as int] == a);
    }
    if s.push(a).contains(y) {
        let i = choose|i: int| 0 <= i < s.push(a).len() && s.push(a)[i] == y;
        if i < s.len() {
            assert(s[i] == y);
        }
    }
}

/// Inserting by arity keeps every element and adds `x`.
proof fn lemma_insert_by_arity_contains(x: (FunctionArity, ImplementationId), s: Seq<(FunctionArity, ImplementationId)>, y: (FunctionArity, ImplementationId))
    ensures
        insert_by_arity(x, s).contains(y) <==> (s.contains(y) || y == x),
    decreases s.len(),
{
    if s.len() == 0 || arity_key(s.last().0) <= arity_key(x.0) {
        lemma_push_contains(s, x, y);
    } else {
        lemma_insert_by_arity_contains(x, s.drop_last(), y);
        lemma_push_contains(insert_by_arity(x, s.drop_last()), s.last(), y);
        assert(s.drop_last().push(s.last()) =~= s);
        lemma_push_contains(s.drop_last(), s.last(), y);
    }
}

/// The canonical order holds exactly the bodies it orders.
pub proof fn lemma_canonical_contains(s: Seq<(FunctionArity, ImplementationId)>, y: (FunctionArity, ImplementationId))
    ensures
        canonical_arity_order(s).contains(y) <==> s.contains(y),
    decreases s.len(),
{
    if s.len() > 0 {
        lemma_canonical_contains(s.drop_last(), y);
        lemma_insert_by_arity_contains(s.last(), canonical_arity_order(s.drop_last()), y);
        assert(s.drop_last().push(s.last()) =~= s);
        lemma_push_contains(s.drop_last(), s.last(), y);
    }
}

/// Whether the bodies are in ascending order of [`arity_key`].
pub open spec fn sorted_by_arity(s: Seq<(FunctionArity, ImplementationId)>) -> bool {
    forall|i: int, j: int| #![trigger s[i], s[j]] 0 <= i <= j < s.len() ==> arity_key(s[i].0) <= arity_key(s[j].0)
}

/// Inserting by arity into bodies in order keeps them in order, with one
/// more.
proof fn lemma_insert_by_arity_sorted(x: (FunctionArity, ImplementationId), s: Seq<(FunctionArity, ImplementationId)>)
    requires
        sorted_by_arity(s),
    ensures
        sorted_by_arity(insert_by_arity(x, s)),
        insert_by_arity(x, s).len() == s.len() + 1,
    decreases s.len(),
{
    if s.len() == 0 || arity_key(s.last().0) <= arity_key(x.0) {
        let t = s.push(x);
        assert forall|i: int, j: int| 0 <= i <= j < t.len() implies #[trigger] arity_key(t[i].0) <= #[trigger] arity_key(t[j].0) by {
            if j == s.len() && i < s.len() {
                assert(arity_key(s[i].0) <= arity_key(s[s.len() - 1].0));
            }
        }
    } else {
        let s0 = s.drop_last();
        let last = s.last();
        assert(sorted_by_arity(s0)) by {
            assert forall|i: int, j: int| 0 <= i <= j < s0.len() implies #[trigger] arity_key(s0[i].0) <= #[trigger] arity_key(s0[j].0) by {
                assert(s0[i] == s[i] && s0[j] == s[j]);
            }
        }
        lemma_insert_by_arity_sorted(x, s0);
        let t0 = insert_by_arity(x, s0);
        let t = t0.push(last);
        assert forall|i: int| 0 <= i < t0.len() implies arity_key(#[trigger] t0[i].0) <= arity_key(last.0) by {
            assert(t0.contains(t0[i]));
            lemma_insert_by_arity_contains(x, s0, t0[i]);
            if s0.contains(t0[i]) {
                let k = choose|k: int| 0 <= k < s0.len() && s0[k] == t0[i];
                assert(s[k] == t0[i]);
                assert(arity_key(s[k].0) <= arity_key(s[s.len() - 1].0));
            }
        }
        assert forall|i: int, j: int| 0 <= i <= j < t.len() implies #[trigger] arity_key(t[i].0) <= #[trigger] arity_key(t[j].0) by {
            if j == t0.len() && i < t0.len() {
                assert(arity_key(t0[i].0) <= arity_key(last.0));
            } else if j < t0.len() {
                assert(t[i] == t0[i] && t[j] == t0[j]);
            }
        }
    }
}

/// The order of a built function's bodies: the canonical order holds the
/// bodies it was given, as many as were given, in ascending order of their
/// arity key, so that the exact arities come in ascending order and before
/// the variadic one, whatever order the bodies were added in.
pub proof fn law_canonical_order_sorted(s: Seq<(FunctionArity, ImplementationId)>)
    ensures
        sorted_by_arity(canonical_arity_order(s)),
        canonical_arity_order(s).len() == s.len(),
        forall|y: (FunctionArity, ImplementationId)| #[trigger] canonical_arity_order(s).contains(y) <==> s.contains(y),
    decreases s.len(),
{
    if s.len() > 0 {
        law_canonical_order_sorted(s.drop_last());
        lemma_insert_by_arity_sorted(s.last(), canonical_arity_order(s.drop_last()));
    }
    assert forall|y: (FunctionArity, ImplementationId)| #[trigger] canonical_arity_order(s).contains(y) <==> s.contains(y) by {
        lemma_canonical_contains(s, y);
    }
}

/// Whether no two of the bodies have the same arity.
pub open spec fn arities_distinct(s: Seq<(FunctionArity, ImplementationId)>) -> bool {
    forall|i: int, j: int| #![trigger s[i], s[j]] 0 <= i < s.len() && 0 <= j < s.len() && i != j
        ==> arity_key(s[i].0) != arity_key(s[j].0)
}

/// Two sequences of bodies in ascending order of arity, with no arity twice
/// and the same bodies, are the same sequence.
proof fn lemma_sorted_distinct_unique(a: Seq<(FunctionArity, ImplementationId)>, b: Seq<(FunctionArity, ImplementationId)>)
    requires
        sorted_by_arity(a),
        sorted_by_arity(b),
        arities_distinct(a),
        arities_distinct(b),
        forall|y: (FunctionArity, ImplementationId)| a.contains(y) <==> b.contains(y),
    ensures
        a == b,
    decreases a.len() + b.len(),
{
    if a.len() == 0 || b.len() == 0 {
        if a.len() > 0 {
            assert(a.contains(a[0]));
        }
        if b.len() > 0 {
            assert(b.contains(b[0]));
        }
        assert(a =~= b);
    } else {
        let la = a.last();
        let lb = b.last();
        assert(a.contains(la));
        assert(b.contains(lb));
        let i = choose|i: int| 0 <= i < b.len() && b[i] == la;
        let j = choose|j: int| 0 <= j < a.len() && a[j] == lb;
        assert(arity_key(b[i].0) <= arity_key(b[b.len() - 1].0));
        assert(arity_key(a[j].0) <= arity_key(a[a.len() - 1].0));
        assert(i == b.len() - 1);
        let a0 = a.drop_last();
        let b0 = b.drop_last();
        assert(sorted_by_arity(a0)) by {
            assert forall|p: int, q: int| 0 <= p <= q < a0.len() implies #[trigger] arity_key(a0[p].0) <= #[trigger] arity_key(a0[q].0) by {
                assert(a0[p] == a[p] && a0[q] == a[q]);
            }
        }
        assert(sorted_by_arity(b0)) by {
            assert forall|p: int, q: int| 0 <= p <= q < b0.len() implies #[trigger] arity_key(b0[p].0) <= #[trigger] arity_key(b0[q].0) by {
                assert(b0[p] == b[p] && b0[q] == b[q]);
            }
        }
        assert(arities_distinct(a0)) by {
            assert forall|p: int, q: int| 0 <= p < a0.len() && 0 <= q < a0.len() && p != q implies #[trigger] arity_key(a0[p].0) != #[trigger] arity_key(a0[q].0) by {
                assert(a0[p] == a[p] && a0[q] == a[q]);
            }
        }
        assert(arities_distinct(b0)) by {
            assert forall|p: int, q: int| 0 <= p < b0.len() && 0 <= q < b0.len() && p != q implies #[trigger] arity_key(b0[p].0) != #[trigger] arity_key(b0[q].0) by {
                assert(b0[p] == b[p] && b0[q] == b[q]);
            }
        }
        assert forall|y: (FunctionArity, ImplementationId)| a0.contains(y) <==> b0.contains(y) by {
            if a0.contains(y) {
                let p = choose|p: int| 0 <= p < a0.len() && a0[p] == y;
                assert(a[p] == y);
                assert(a.contains(y));
                let q = choose|q: int| 0 <= q < b.len() && b[q] == y;
                assert(q != b.len() - 1);
                assert(b0[q] == y);
            }
            if b0.contains(y) {
                let q = choose|q: int| 0 <= q < b0.len() && b0[q] == y;
                assert(b[q] == y);
                assert(b.contains(y));
                let p = choose|p: int| 0 <= p < a.len() && a[p] == y;
                assert(p != a.len() - 1);
                assert(a0[p] == y);
            }
        }
        lemma_sorted_distinct_unique(a0, b0);
        assert(a =~= a0.push(la));
        assert(b =~= b0.push(lb));
    }
}

/// Inserting by arity a body whose arity none of `t` has keeps the
/// arities distinct.
proof fn lemma_insert_by_arity_distinct(x: (FunctionArity, ImplementationId), t: Seq<(FunctionArity, ImplementationId)>)
    requires
        arities_distinct(t),
        forall|i: int| 0 <= i < t.len() ==> arity_key(#[trigger] t[i].0) != arity_key(x.0),
    ensures
        arities_distinct(insert_by_arity(x, t)),
    decreases t.len(),
{
    if t.len() == 0 || arity_key(t.last().0) <= arity_key(x.0) {
        let r = t.push(x);
        assert forall|i: int, j: int| 0 <= i < r.len() && 0 <= j < r.len() && i != j implies #[trigger] arity_key(r[i].0) != #[trigger] arity_key(r[j].0) by {
            if i < t.len() && j < t.len() {
                assert(r[i] == t[i] && r[j] == t[j]);
            } else if i < t.len() {
                assert(r[i] == t[i]);
            } else {
                assert(r[j] == t[j]);
            }
        }
    } else {
        let t0 = t.drop_last();
        let last = t.last();
        assert(arities_distinct(t0)) by {
            assert forall|p: int, q: int| 0 <= p < t0.len() && 0 <= q < t0.len() && p != q implies #[trigger] arity_key(t0[p].0) != #[trigger] arity_key(t0[q].0) by {
                assert(t0[p] == t[p] && t0[q] == t[q]);
            }
        }
        assert forall|i: int| 0 <= i < t0.len() implies arity_key(#[trigger] t0[i].0) != arity_key(x.0) by {
            assert(t0[i] == t[i]);
        }
        lemma_insert_by_arity_distinct(x, t0);
        let u = insert_by_arity(x, t0);
        assert forall|i: int| 0 <= i < u.len() implies arity_key(#[trigger] u[i].0) != arity_key(last.0) by {
            assert(u.contains(u[i]));
            lemma_insert_by_arity_contains(x, t0, u[i]);
            if t0.contains(u[i]) {
                let k = choose|k: int| 0 <= k < t0.len() && t0[k] == u[i];
                assert(t[k] == u[i]);
                assert(arity_key(t[k].0) != arity_key(t[t.len() - 1].0));
            }
        }
        let r = u.push(last);
        assert forall|i: int, j: int| 0 <= i < r.len() && 0 <= j < r.len() && i != j implies #[trigger] arity_key(r[i].0) != #[trigger] arity_key(r[j].0) by {
            if i < u.len() && j < u.len() {
                assert(r[i] == u[i] && r[j] == u[j]);
            } else if i < u.len() {
                assert(r[i] == u[i]);
            } else {
                assert(r[j] == u[j]);
            }
        }
    }
}

/// Bodies with distinct arities keep them distinct in the canonical order.
proof fn lemma_canonical_distinct(s: Seq<(FunctionArity, ImplementationId)>)
    requires
        arities_distinct(s),
    ensures
        arities_distinct(canonical_arity_order(s)),
    decreases s.len(),
{
    if s.len() > 0 {
        let s0 = s.drop_last();
        let x = s.last();
        assert(arities_distinct(s0)) by {
            assert forall|p: int, q: int| 0 <= p < s0.len() && 0 <= q < s0.len() && p != q implies #[trigger] arity_key(s0[p].0) != #[trigger] arity_key(s0[q].0) by {
                assert(s0[p] == s[p] && s0[q] == s[q]);
            }
        }
        lemma_canonical_distinct(s0);
        let c0 = canonical_arity_order(s0);
        assert forall|i: int| 0 <= i < c0.len() implies arity_key(#[trigger] c0[i].0) != arity_key(x.0) by {
            assert(c0.contains(c0[i]));
            lemma_canonical_contains(s0, c0[i]);
            let k = choose|k: int| 0 <= k < s0.len() && s0[k] == c0[i];
            assert(s[k] == c0[i]);
            assert(arity_key(s[k].0) != arity_key(s[s.len() - 1].0));
        }
        lemma_insert_by_arity_distinct(x, c0);
    }
}

/// The order of a built function's bodies does not depend on the order they
/// were added in: bodies with no arity twice, added in two orders, come out
/// in the same canonical order.
pub proof fn law_canonical_order_independent(s: Seq<(FunctionArity, ImplementationId)>, t: Seq<(FunctionArity, ImplementationId)>)
    requires
        arities_distinct(s),
        arities_distinct(t),
        forall|y: (FunctionArity, ImplementationId)| s.contains(y) <==> t.contains(y),
    ensures
        canonical_arity_order(s) == canonical_arity_order(t),
{
    law_canonical_order_sorted(s);
    law_canonical_order_sorted(t);
    lemma_canonical_distinct(s);
    lemma_canonical_distinct(t);
    let a = canonical_arity_order(s);
    let b = canonical_arity_order(t);
    assert forall|y: (FunctionArity, ImplementationId)| a.contains(y) <==> b.contains(y) by {
        assert(a.contains(y) <==> s.contains(y));
        assert(b.contains(y) <==> t.contains(y));
    }
    lemma_sorted_distinct_unique(a, b);
}

/// The first supporting body, where there is one, supports the count.
pub proof fn lemma_first_supporting_valid(s: Seq<(FunctionArity, ImplementationId)>, arg_count: int)
    ensures
        first_supporting(s, arg_count) matches Some(i) ==> 0 <= i < s.len() && s[i].0.spec_supports(arg_count),
    decreases s.len(),
{
    if s.len() > 0 {
        lemma_first_supporting_valid(s.drop_last(), arg_count);
    }
}

/// Where some body supports the count, there is a first one.
pub proof fn lemma_first_supporting_exists(s: Seq<(FunctionArity, ImplementationId)>, arg_count: int, k: int)
    requires
        0 <= k < s.len(),
        s[k].0.spec_supports(arg_count),
    ensures
        first_supporting(s, arg_count) is Some,
    decreases s.len(),
{
    if k < s.len() - 1 {
        lemma_first_supporting_exists(s.drop_last(), arg_count, k);
    }
}

/// Exact arities are preferred over the variadic one: where a body of exact
/// arity `n` was added to a function that can be built, the built function
/// runs a body of exact arity `n` for `n` arguments.
pub proof fn law_exact_preferred_over_variadic(s: Seq<(FunctionArity, ImplementationId)>, k: int)
    requires
        arities_buildable(s),
        0 <= k < s.len(),
        s[k].0 is Exactly,
    ensures
        first_supporting(canonical_arity_order(s), arity_count(s[k].0) as int) matches Some(i)
            && canonical_arity_order(s)[i].0 == s[k].0,
{
    let c = canonical_arity_order(s);
    let n = arity_count(s[k].0) as int;
    assert(s.contains(s[k]));
    lemma_canonical_contains(s, s[k]);
    let i0 = choose|i: int| 0 <= i < c.len() && c[i] == s[k];
    lemma_first_supporting_exists(c, n, i0);
    lemma_first_supporting_valid(c, n);
    let j = first_supporting(c, n)->Some_0;
    assert(c.contains(c[j]));
    lemma_canonical_contains(s, c[j]);
    let p = choose|p: int| 0 <= p < s.len() && s[p] == c[j];
    if c[j].0 is AtLeast {
        assert(is_variadic(s[p].0) && !is_variadic(s[k].0));
        assert(arity_count(s[k].0) < arity_count(s[p].0));
    }
}

} // verus!
