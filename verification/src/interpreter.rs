//! Evaluation of forms: literals evaluate to themselves, symbols to what
//! they name, lists to calls or special forms, and collections element by
//! element.
//!
//! The bodies of functions made by `fn*` are kept by the interpreter and run
//! here; the other bodies belong to the program that embeds the library and
//! are run through [`NativeFunctions`]. Each step of evaluation spends one
//! unit of the fuel it is given, so that every evaluation ends.
use vstd::prelude::*;
use std::sync::Arc;
use crate::builtins::BuiltinError;
use crate::environment::Environment;
use crate::eval_context::EvalContext;
use crate::evaluation::{
    ArityForm, BindError, FnParams, bind_error, binds, resolve_fails_with, FnStarError, LetStarError, ResolveError, SpecialForm,
    bind_arguments, binding_name, do_body, fn_star_arities, let_star_form, params_arity,
    spec_fn_star, spec_params_arity, spec_resolve, spec_special_form, special_form, try_resolve,
};
use crate::function::{
    FunctionArity, FunctionBuilder, ImplementationId, PtrFunction, arities_buildable,
    canonical_arity_order, first_supporting, lemma_canonical_contains, lemma_first_supporting_exists,
    lemma_first_supporting_valid,
};
use crate::handle::Handle;
use crate::list::List;
use crate::symbol::Symbol;
use crate::map::{pair_up, value_pairs_of};
use crate::value::{PtrValue, Value, deref_value};

verus! {

/// The implementation number of the first body made by `fn*`; the numbers
/// below it are left to the embedding program.
pub const CLOSURE_BASE: u64 = 0x1_0000_0000u64;

/// One arity of a function made by `fn*`: its parameters, its body, and the
/// local bindings in force where it was made.
pub struct Closure {
    pub params: FnParams,
    pub body: Vec<PtrValue>,
    pub captured: EvalContext,
}

impl Closure {
    /// The parameters and body as an arity form, and the captured bindings.
    pub open spec fn spec_view(&self) -> (ArityForm, Map<Seq<char>, PtrValue>) {
        ((self.params.spec_view(), self.body@), self.captured@)
    }
}

/// The state evaluation works on: the environment, and the bodies of the
/// functions made by `fn*` so far, the `i`th known by the implementation
/// number `CLOSURE_BASE + i`.
pub struct Interpreter {
    pub env: Environment,
    pub closures: Vec<Closure>,
}

impl Interpreter {
    /// An interpreter over `env` that has made no function yet.
    pub fn new(env: Environment) -> (res: Self)
        ensures
            res.env == env,
            res.closures@.len() == 0,
    {
        Interpreter { env, closures: Vec::new() }
    }
}

/// Why an evaluation failed.
#[derive(Debug)]
pub enum EvalError {
    /// A symbol named no var.
    Resolve(ResolveError),
    /// A symbol or var named a var bound to nothing.
    UnboundVar,
    /// A `let*` form is not well formed.
    LetStar(LetStarError),
    /// A `let*` binding name is not a bare symbol.
    LetStarBindingName,
    /// A `fn*` form is not well formed.
    FnStar(FnStarError),
    /// The arities of a `fn*` form cannot make one function.
    InvalidArities,
    /// No more implementation numbers are left for `fn*` bodies.
    TooManyClosures,
    /// The arguments do not fit the parameters of a `fn*` body.
    Bind(BindError),
    /// No body of the function takes this many arguments.
    UnsupportedArgCount(usize),
    /// The implementation number belongs to no known body.
    UnknownImplementation(ImplementationId),
    /// The evaluation ran out of fuel.
    OutOfFuel,
    /// A native body failed.
    Builtin(BuiltinError),
}

/// The bodies that the embedding program implements, by implementation
/// number.
pub trait NativeFunctions {
    /// Runs the body numbered `id` on `args`, with the caller's local
    /// bindings `ctx` and `fuel` for any evaluation it does.
    fn invoke(&mut self, interp: &mut Interpreter, id: ImplementationId, ctx: &EvalContext, args: Vec<PtrValue>, fuel: u64) -> Result<PtrValue, EvalError>;
}

/// Whether a value evaluates to itself.
pub open spec fn is_self_evaluating(v: Value) -> bool {
    ||| v is Nil
    ||| v is Keyword
    ||| v is Boolean
    ||| v is Integer
    ||| v is Float
    ||| v is String
    ||| v is Function
    ||| v is Handle
}

/// Whether evaluating a value evaluates other values first.
pub open spec fn is_compound(v: Value) -> bool {
    ||| (v matches Value::List(l, _) && l@.len() > 0)
    ||| v is Vector
    ||| v is ValueSet
    ||| v is ValueMap
}

/// What a var evaluates to.
pub open spec fn var_result(value: Option<PtrValue>) -> Result<PtrValue, EvalError> {
    match value {
        Some(x) => Ok(x),
        None => Err(EvalError::UnboundVar),
    }
}

/// The local name a symbol may stand for.
pub open spec fn local_name(s: Symbol) -> Option<Seq<char>> {
    match s {
        Symbol::Unqualified(u) => Some(u@),
        Symbol::Qualified(_) => None,
    }
}

/// What a symbol evaluates to, for a symbol that is no local name: the value
/// of the var it resolves to.
pub open spec fn symbol_outcome(env: &Environment, s: Symbol, res: Result<PtrValue, EvalError>) -> bool {
    match spec_resolve(env, s) {
        Some(var) => res == var_result(var.spec_value()),
        None => res matches Err(EvalError::Resolve(e)) && resolve_fails_with(env, s, e),
    }
}

/// The function a value calls, if it is callable.
pub open spec fn callable_function(v: Value) -> Option<PtrFunction> {
    match v {
        Value::Function(f, _) => Some(f),
        Value::Handle(Handle::Function(f), _) => Some(f),
        _ => None,
    }
}

/// The bodies a `fn*` form with the arity forms `forms` gives, numbered from
/// `first_id` on, in the order of the forms.
pub open spec fn closure_bodies(forms: Seq<ArityForm>, first_id: int) -> Seq<(FunctionArity, ImplementationId)> {
    Seq::new(forms.len(), |i: int| (spec_params_arity(forms[i].0), (first_id + i) as u64))
}

/// What evaluating a `fn*` form whose elements are `items` does, with local
/// bindings `ctx`, from interpreter state `pre` to `post`, giving `res`.
pub open spec fn fn_star_outcome(pre: Interpreter, post: Interpreter, ctx: Map<Seq<char>, PtrValue>, items: Seq<PtrValue>, res: Result<PtrValue, EvalError>) -> bool {
    match spec_fn_star(items) {
        Err(e) => res == Err::<PtrValue, EvalError>(EvalError::FnStar(e)) && post == pre,
        Ok(forms) => {
            let n = pre.closures@.len();
            let bodies = closure_bodies(forms, CLOSURE_BASE + n);
            if CLOSURE_BASE + n + forms.len() > u64::MAX {
                res == Err::<PtrValue, EvalError>(EvalError::TooManyClosures) && post == pre
            } else if !arities_buildable(bodies) {
                res == Err::<PtrValue, EvalError>(EvalError::InvalidArities) && post == pre
            } else {
                &&& res matches Ok(r) && (*r matches Value::Function(f, None)
                    && f@ == (None::<Seq<char>>, canonical_arity_order(bodies)))
                &&& post.env == pre.env
                &&& post.closures@.len() == n + forms.len()
                &&& forall|i: int| 0 <= i < n ==> #[trigger] post.closures@[i] == pre.closures@[i]
                &&& forall|i: int| 0 <= i < forms.len() ==> #[trigger] post.closures@[n + i].spec_view() == (forms[i], ctx)
            }
        },
    }
}

/// What a `let*` form whose elements are `items` gives before any binding
/// is evaluated: the errors of its shape, or `nil` where it has no body.
pub open spec fn let_star_shape_outcome(pre: Interpreter, post: Interpreter, items: Seq<PtrValue>, res: Result<PtrValue, EvalError>) -> bool {
    &&& (items.len() < 2 || !(*items[1] is Vector))
        ==> res == Err::<PtrValue, EvalError>(EvalError::LetStar(LetStarError::NotABindingVector)) && post == pre
    &&& (items.len() >= 2 && (*items[1] matches Value::Vector(b, _) && b@.len() % 2 == 1))
        ==> res == Err::<PtrValue, EvalError>(EvalError::LetStar(LetStarError::OddBindingCount)) && post == pre
    &&& (items.len() == 2 && (*items[1] matches Value::Vector(b, _) && b@.len() % 2 == 0))
        ==> (res matches Ok(r) && *r == Value::Nil(None)) && post == pre
}

/// The forms of the entries of a map, key then value, entry after entry.
pub open spec fn entry_forms(es: Seq<(PtrValue, PtrValue)>) -> Seq<PtrValue> {
    Seq::new(2 * es.len(), |i: int| if i % 2 == 0 { es[i / 2].0 } else { es[i / 2].1 })
}

/// A record of how an evaluation went: the intermediate states and results
/// that it passed through, and the records of the evaluations it was made
/// of. The relations below read an evaluation from such a record.
pub enum Trace {
    /// Nothing else was evaluated.
    Leaf,
    /// `first` reached the state `mid` with `value`; `then` went on from there.
    Value { mid: Interpreter, value: Result<PtrValue, EvalError>, first: Box<Trace>, then: Box<Trace> },
    /// `first` reached the state `mid` with `values` (or failed at the form
    /// numbered `index`); `then` went on from there.
    Values { mid: Interpreter, index: int, values: Result<Seq<PtrValue>, EvalError>, first: Box<Trace>, then: Box<Trace> },
    /// `first` reached the state `mid` with the local bindings `locals`;
    /// `then` went on from there.
    Locals { mid: Interpreter, locals: Result<Map<Seq<char>, PtrValue>, EvalError>, first: Box<Trace>, then: Box<Trace> },
}

/// Whether, as `t` records, evaluating the first `n` of `forms` in order
/// with the locals `ctx`, each with `fuel`, went from `pre` to `post` and
/// gave `vals`.
pub open spec fn prefix_by(t: Trace, pre: Interpreter, ctx: Map<Seq<char>, PtrValue>, forms: Seq<PtrValue>, n: int, fuel: int, post: Interpreter, vals: Seq<PtrValue>) -> bool
    decreases t, 4int,
{
    if n <= 0 || n > forms.len() {
        n == 0 && post == pre && vals.len() == 0
    } else {
        &&& vals.len() == n
        &&& t matches Trace::Value { mid, first, then, .. }
        &&& prefix_by(*first, pre, ctx, forms, n - 1, fuel, mid, vals.drop_last())
        &&& eval_by(*then, mid, ctx, forms[n - 1], fuel, post, Ok::<PtrValue, EvalError>(vals.last()))
    }
}

/// Whether, as `t` records, evaluating `forms` in order with the locals
/// `ctx`, each with `fuel`, went from `pre` to `post` and gave `res`: all
/// their values, or the error of the first that failed.
pub open spec fn seq_by(t: Trace, pre: Interpreter, ctx: Map<Seq<char>, PtrValue>, forms: Seq<PtrValue>, fuel: int, post: Interpreter, res: Result<Seq<PtrValue>, EvalError>) -> bool
    decreases t, 5int,
{
    match res {
        Ok(vals) => prefix_by(t, pre, ctx, forms, forms.len() as int, fuel, post, vals),
        Err(e) => {
            &&& t matches Trace::Values { mid, index, values, first, then }
            &&& 0 <= index < forms.len()
            &&& values is Ok
            &&& prefix_by(*first, pre, ctx, forms, index, fuel, mid, values->Ok_0)
            &&& eval_by(*then, mid, ctx, forms[index], fuel, post, Err::<PtrValue, EvalError>(e))
        },
    }
}

/// Whether, as `t` records, evaluating a body with `fuel` went from `pre` to
/// `post` and gave `res`: the value of its last expression, `nil` for none.
pub open spec fn body_by(t: Trace, pre: Interpreter, ctx: Map<Seq<char>, PtrValue>, body: Seq<PtrValue>, fuel: int, post: Interpreter, res: Result<PtrValue, EvalError>) -> bool
    decreases t, 6int,
{
    if body.len() == 0 {
        post == pre && (res matches Ok(r) && *r == Value::Nil(None))
    } else if fuel <= 0 {
        post == pre && res == Err::<PtrValue, EvalError>(EvalError::OutOfFuel)
    } else {
        &&& t matches Trace::Values { values, first, .. }
        &&& seq_by(*first, pre, ctx, body, fuel - 1, post, values)
        &&& match values {
            Ok(vals) => res == Ok::<PtrValue, EvalError>(vals.last()),
            Err(e) => res == Err::<PtrValue, EvalError>(e),
        }
    }
}

/// Whether, as `t` records, running the body numbered `id` on `args` with
/// `fuel` went from `pre` to `post` and gave `res`: a body made by `fn*`
/// binds the arguments and evaluates its expressions; a native body given
/// fuel may end in anything.
pub open spec fn invoke_by(t: Trace, pre: Interpreter, id: ImplementationId, args: Seq<PtrValue>, fuel: int, post: Interpreter, res: Result<PtrValue, EvalError>) -> bool
    decreases t, 2int,
{
    if id < CLOSURE_BASE {
        fuel <= 0 ==> post == pre && res == Err::<PtrValue, EvalError>(EvalError::OutOfFuel)
    } else if id - CLOSURE_BASE >= pre.closures@.len() {
        post == pre && res == Err::<PtrValue, EvalError>(EvalError::UnknownImplementation(id))
    } else if fuel <= 0 {
        post == pre && res == Err::<PtrValue, EvalError>(EvalError::OutOfFuel)
    } else {
        let c = pre.closures@[id - CLOSURE_BASE];
        if !spec_params_arity(c.params.spec_view()).spec_supports(args.len() as int) {
            post == pre && res == Err::<PtrValue, EvalError>(EvalError::Bind(bind_error(c.params.spec_view(), args.len() as int)))
        } else {
            &&& t matches Trace::Locals { locals, first, .. }
            &&& locals matches Ok(bound)
            &&& binds(c.params.spec_view(), c.captured@, args, bound)
            &&& body_by(*first, pre, bound, c.body@, fuel - 1, post, res)
        }
    }
}

/// Whether, as `t` records, applying `f` to `args` with `fuel` went from
/// `pre` to `post` and gave `res`.
pub open spec fn apply_by(t: Trace, pre: Interpreter, f: PtrValue, args: Seq<PtrValue>, fuel: int, post: Interpreter, res: Result<PtrValue, EvalError>) -> bool
    decreases t, 3int,
{
    match callable_function(*f) {
        None => post == pre && res == Ok::<PtrValue, EvalError>(f),
        Some(func) => match first_supporting(func@.1, args.len() as int) {
            None => post == pre && res == Err::<PtrValue, EvalError>(EvalError::UnsupportedArgCount(args.len() as usize)),
            Some(i) => if fuel <= 0 {
                post == pre && res == Err::<PtrValue, EvalError>(EvalError::OutOfFuel)
            } else {
                invoke_by(t, pre, func@.1[i].1, args, fuel - 1, post, res)
            },
        },
    }
}

/// Whether, as `t` records, evaluating the call `items` with `fuel` went
/// from `pre` to `post` and gave `res`: the arguments in order, then the
/// head, then the head's value applied to theirs.
pub open spec fn call_by(t: Trace, pre: Interpreter, ctx: Map<Seq<char>, PtrValue>, items: Seq<PtrValue>, fuel: int, post: Interpreter, res: Result<PtrValue, EvalError>) -> bool
    decreases t, 8int,
{
    &&& t matches Trace::Values { mid, values, first, then, .. }
    &&& seq_by(*first, pre, ctx, items.drop_first(), fuel, mid, values)
    &&& match values {
        Err(e) => post == mid && res == Err::<PtrValue, EvalError>(e),
        Ok(args) => {
            &&& *then matches Trace::Value { mid: head_post, value: head, first: head_trace, then: apply_trace }
            &&& eval_by(*head_trace, mid, ctx, items[0], fuel, head_post, head)
            &&& match head {
                Err(e) => post == head_post && res == Err::<PtrValue, EvalError>(e),
                Ok(f) => apply_by(*apply_trace, head_post, f, args, fuel, post, res),
            }
        },
    }
}

/// Whether, as `t` records, evaluating the bindings of a `let*` from the
/// pair at index `k` on, with `fuel`, went from `pre` with the locals `ctx`
/// to `post` with the locals `out`, or failed with the error in `out`.
pub open spec fn bindings_by(t: Trace, pre: Interpreter, ctx: Map<Seq<char>, PtrValue>, pairs: Seq<PtrValue>, k: int, fuel: int, post: Interpreter, out: Result<Map<Seq<char>, PtrValue>, EvalError>) -> bool
    decreases t, 1int,
{
    if k < 0 || k + 1 >= pairs.len() {
        post == pre && out == Ok::<Map<Seq<char>, PtrValue>, EvalError>(ctx)
    } else {
        &&& t matches Trace::Value { mid, value, first, then }
        &&& eval_by(*first, pre, ctx, pairs[k + 1], fuel, mid, value)
        &&& match value {
            Err(e) => post == mid && out == Err::<Map<Seq<char>, PtrValue>, EvalError>(e),
            Ok(x) => if crate::evaluation::is_bare_symbol(*pairs[k]) {
                bindings_by(*then, mid, ctx.insert(crate::evaluation::bare_symbol_name(*pairs[k]), x), pairs, k + 2, fuel, post, out)
            } else {
                post == mid && out == Err::<Map<Seq<char>, PtrValue>, EvalError>(EvalError::LetStarBindingName)
            },
        }
    }
}

/// Whether, as `t` records, evaluating the `let*` form `items` with `fuel`
/// went from `pre` to `post` and gave `res`.
pub open spec fn let_star_by(t: Trace, pre: Interpreter, ctx: Map<Seq<char>, PtrValue>, items: Seq<PtrValue>, fuel: int, post: Interpreter, res: Result<PtrValue, EvalError>) -> bool
    decreases t, 7int,
{
    if items.len() < 2 || !(*items[1] is Vector) {
        post == pre && res == Err::<PtrValue, EvalError>(EvalError::LetStar(LetStarError::NotABindingVector))
    } else if (*items[1])->Vector_0@.len() % 2 == 1 {
        post == pre && res == Err::<PtrValue, EvalError>(EvalError::LetStar(LetStarError::OddBindingCount))
    } else if items.len() == 2 {
        post == pre && (res matches Ok(r) && *r == Value::Nil(None))
    } else if fuel <= 0 {
        post == pre && res == Err::<PtrValue, EvalError>(EvalError::OutOfFuel)
    } else {
        &&& t matches Trace::Locals { mid, locals, first, then }
        &&& bindings_by(*first, pre, ctx, (*items[1])->Vector_0@, 0, fuel - 1, mid, locals)
        &&& match locals {
            Err(e) => post == mid && res == Err::<PtrValue, EvalError>(e),
            Ok(bound) => body_by(*then, mid, bound, items.subrange(2, items.len() as int), fuel - 1, post, res),
        }
    }
}

/// Whether, as `t` records, evaluating `v` with the locals `ctx` and `fuel`
/// went from `pre` to `post` and gave `res`. Each list, vector, set or map
/// spends a unit of fuel, and evaluating one with none left runs out of
/// fuel; native bodies given fuel may end in anything; the rest is
/// determined.
pub open spec fn eval_by(t: Trace, pre: Interpreter, ctx: Map<Seq<char>, PtrValue>, v: PtrValue, fuel: int, post: Interpreter, res: Result<PtrValue, EvalError>) -> bool
    decreases t, 9int,
{
    if is_self_evaluating(*v) {
        post == pre && res == Ok::<PtrValue, EvalError>(v)
    } else {
        match *v {
            Value::Symbol(s, _) => post == pre && if local_name(s) matches Some(n) && ctx.contains_key(n) {
                res == Ok::<PtrValue, EvalError>(ctx[local_name(s).unwrap()])
            } else {
                symbol_outcome(&pre.env, s, res)
            },
            Value::Var(var, _) => post == pre && res == var_result(var.spec_value()),
            Value::List(l, _) => if l@.len() == 0 {
                post == pre && res == Ok::<PtrValue, EvalError>(v)
            } else if fuel <= 0 {
                post == pre && res == Err::<PtrValue, EvalError>(EvalError::OutOfFuel)
            } else {
                match spec_special_form(l@) {
                    Some(SpecialForm::FnStar) => fn_star_outcome(pre, post, ctx, l@, res),
                    Some(SpecialForm::Do) => body_by(t, pre, ctx, l@.drop_first(), fuel - 1, post, res),
                    Some(SpecialForm::LetStar) => let_star_by(t, pre, ctx, l@, fuel - 1, post, res),
                    None => call_by(t, pre, ctx, l@, fuel - 1, post, res),
                }
            },
            Value::Vector(items, _) => if fuel <= 0 {
                post == pre && res == Err::<PtrValue, EvalError>(EvalError::OutOfFuel)
            } else {
                &&& t matches Trace::Values { values, first, .. }
                &&& seq_by(*first, pre, ctx, items@, fuel - 1, post, values)
                &&& match values {
                    Ok(vals) => res matches Ok(x) && (*x matches Value::Vector(rv, None) && rv@ == vals),
                    Err(e) => res == Err::<PtrValue, EvalError>(e),
                }
            },
            Value::ValueSet(items, _) => if fuel <= 0 {
                post == pre && res == Err::<PtrValue, EvalError>(EvalError::OutOfFuel)
            } else {
                &&& t matches Trace::Values { values, first, .. }
                &&& seq_by(*first, pre, ctx, items@, fuel - 1, post, values)
                &&& match values {
                    Ok(vals) => res matches Ok(x) && (*x matches Value::ValueSet(rs, None) && rs@ == crate::set::dedup_values(vals)),
                    Err(e) => res == Err::<PtrValue, EvalError>(e),
                }
            },
            Value::ValueMap(m, _) => if fuel <= 0 {
                post == pre && res == Err::<PtrValue, EvalError>(EvalError::OutOfFuel)
            } else {
                &&& t matches Trace::Values { values, first, .. }
                &&& seq_by(*first, pre, ctx, entry_forms(m@), fuel - 1, post, values)
                &&& match values {
                    Ok(vals) => res matches Ok(x) && (*x matches Value::ValueMap(rm, None)
                        && rm@ == crate::map::assoc_all(Seq::empty(), value_pairs_of(vals))),
                    Err(e) => res == Err::<PtrValue, EvalError>(e),
                }
            },
            _ => false,
        }
    }
}

/// Whether evaluating `v` with the locals `ctx` and `fuel` may go from `pre`
/// to `post` and give `res`.
pub open spec fn evals(pre: Interpreter, ctx: Map<Seq<char>, PtrValue>, v: PtrValue, fuel: int, post: Interpreter, res: Result<PtrValue, EvalError>) -> bool {
    exists|t: Trace| #[trigger] eval_by(t, pre, ctx, v, fuel, post, res)
}

/// Whether evaluating `forms` in order with the locals `ctx`, each with
/// `fuel`, may go from `pre` to `post` and give `res`.
pub open spec fn evals_seq(pre: Interpreter, ctx: Map<Seq<char>, PtrValue>, forms: Seq<PtrValue>, fuel: int, post: Interpreter, res: Result<Seq<PtrValue>, EvalError>) -> bool {
    exists|t: Trace| #[trigger] seq_by(t, pre, ctx, forms, fuel, post, res)
}

/// Whether evaluating a body with the locals `ctx` and `fuel` may go from
/// `pre` to `post` and give `res`.
pub open spec fn evals_body(pre: Interpreter, ctx: Map<Seq<char>, PtrValue>, body: Seq<PtrValue>, fuel: int, post: Interpreter, res: Result<PtrValue, EvalError>) -> bool {
    exists|t: Trace| #[trigger] body_by(t, pre, ctx, body, fuel, post, res)
}

/// Whether running the body numbered `id` on `args` with `fuel` may go from
/// `pre` to `post` and give `res`.
pub open spec fn invokes(pre: Interpreter, id: ImplementationId, args: Seq<PtrValue>, fuel: int, post: Interpreter, res: Result<PtrValue, EvalError>) -> bool {
    exists|t: Trace| #[trigger] invoke_by(t, pre, id, args, fuel, post, res)
}

/// Whether applying `f` to `args` with `fuel` may go from `pre` to `post`
/// and give `res`.
pub open spec fn applies(pre: Interpreter, f: PtrValue, args: Seq<PtrValue>, fuel: int, post: Interpreter, res: Result<PtrValue, EvalError>) -> bool {
    exists|t: Trace| #[trigger] apply_by(t, pre, f, args, fuel, post, res)
}

/// Whether evaluating the call `items` with `fuel` may go from `pre` to
/// `post` and give `res`.
pub open spec fn evals_call(pre: Interpreter, ctx: Map<Seq<char>, PtrValue>, items: Seq<PtrValue>, fuel: int, post: Interpreter, res: Result<PtrValue, EvalError>) -> bool {
    exists|t: Trace| #[trigger] call_by(t, pre, ctx, items, fuel, post, res)
}

/// Whether evaluating the `let*` form `items` with `fuel` may go from `pre`
/// to `post` and give `res`.
pub open spec fn evals_let_star(pre: Interpreter, ctx: Map<Seq<char>, PtrValue>, items: Seq<PtrValue>, fuel: int, post: Interpreter, res: Result<PtrValue, EvalError>) -> bool {
    exists|t: Trace| #[trigger] let_star_by(t, pre, ctx, items, fuel, post, res)
}

/// A copy of a sequence of values.
fn copy_values(values: &Vec<PtrValue>) -> (res: Vec<PtrValue>)
    ensures
        res@ == values@,
{
    let mut res: Vec<PtrValue> = Vec::new();
    let mut i: usize = 0;
    while i < values.len()
        invariant
            0 <= i <= values@.len(),
            res@ == values@.take(i as int),
        decreases values@.len() - i,
    {
        res.push(values[i].clone());
        i += 1;
        assert(res@ =~= values@.take(i as int));
    }
    assert(res@ =~= values@);
    res
}

/// Evaluates a symbol: a bare symbol bound locally to its local value, any
/// other to the value of the var it resolves to.
fn eval_symbol(env: &Environment, ctx: &EvalContext, symbol: &Symbol) -> (res: Result<PtrValue, EvalError>)
    ensures
        (local_name(*symbol) matches Some(n) && ctx@.contains_key(n)) ==> res == Ok::<PtrValue, EvalError>(ctx@[local_name(*symbol).unwrap()]),
        !(local_name(*symbol) matches Some(n) && ctx@.contains_key(n)) ==> symbol_outcome(env, *symbol, res),
{
    if let Symbol::Unqualified(sym) = symbol {
        if let Some(local) = ctx.resolve_local(sym.name()) {
            return Ok(local);
        }
    }
    match try_resolve(env, symbol) {
        Ok(var) => match var.deref() {
            Some(x) => Ok(x),
            None => Err(EvalError::UnboundVar),
        },
        Err(e) => Err(EvalError::Resolve(e)),
    }
}

/// The values of a sequence evaluation, as a sequence.
pub open spec fn seq_result(res: Result<Vec<PtrValue>, EvalError>) -> Result<Seq<PtrValue>, EvalError> {
    match res {
        Ok(vals) => Ok(vals@),
        Err(e) => Err(e),
    }
}

/// One more form evaluated to a value extends an evaluated prefix by it.
proof fn lemma_prefix_push(t: Trace, te: Trace, pre: Interpreter, ctx: Map<Seq<char>, PtrValue>, forms: Seq<PtrValue>, n: int, fuel: int, mid: Interpreter, post: Interpreter, vals: Seq<PtrValue>, x: PtrValue)
    requires
        0 <= n < forms.len(),
        prefix_by(t, pre, ctx, forms, n, fuel, mid, vals),
        eval_by(te, mid, ctx, forms[n], fuel, post, Ok::<PtrValue, EvalError>(x)),
    ensures
        prefix_by(
            Trace::Value { mid: mid, value: Ok::<PtrValue, EvalError>(x), first: Box::new(t), then: Box::new(te) },
            pre, ctx, forms, n + 1, fuel, post, vals.push(x),
        ),
{
    assert(vals.push(x).drop_last() =~= vals);
}

/// Evaluates `forms` in order, each with `fuel`, and gives all their
/// values, or the error of the first that fails.
#[verifier::loop_isolation(false)]
fn eval_seq<H: NativeFunctions>(interp: &mut Interpreter, host: &mut H, ctx: &EvalContext, forms: &Vec<PtrValue>, fuel: u64) -> (res: Result<Vec<PtrValue>, EvalError>)
    ensures
        evals_seq(*old(interp), ctx@, forms@, fuel as int, *final(interp), seq_result(res)),
        res matches Ok(vals) ==> vals@.len() == forms@.len(),
    decreases fuel, 1int,
{
    let ghost pre = *interp;
    let ghost mut tr = Trace::Leaf;
    let mut out: Vec<PtrValue> = Vec::new();
    let mut i: usize = 0;
    while i < forms.len()
        invariant
            0 <= i <= forms@.len(),
            out@.len() == i,
            prefix_by(tr, pre, ctx@, forms@, i as int, fuel as int, *interp, out@),
        decreases forms@.len() - i,
    {
        let ghost mid = *interp;
        let ghost before = out@;
        let r = eval(interp, host, ctx, forms[i].clone(), fuel);
        let ghost form = forms@[i as int];
        let ghost te = choose|t: Trace| eval_by(t, mid, ctx@, form, fuel as int, *interp, r);
        match r {
            Ok(x) => {
                proof {
                    lemma_prefix_push(tr, te, pre, ctx@, forms@, i as int, fuel as int, mid, *interp, before, x);
                    tr = Trace::Value { mid: mid, value: Ok::<PtrValue, EvalError>(x), first: Box::new(tr), then: Box::new(te) };
                }
                out.push(x);
            },
            Err(e) => {
                proof {
                    let tw = Trace::Values { mid: mid, index: i as int, values: Ok::<Seq<PtrValue>, EvalError>(before), first: Box::new(tr), then: Box::new(te) };
                    assert(seq_by(tw, pre, ctx@, forms@, fuel as int, *interp, Err::<Seq<PtrValue>, EvalError>(e)));
                }
                return Err(e);
            },
        }
        i += 1;
    }
    proof {
        assert(seq_by(tr, pre, ctx@, forms@, fuel as int, *interp, Ok::<Seq<PtrValue>, EvalError>(out@)));
    }
    Ok(out)
}

/// The forms of the entries of a map, key then value, entry after entry.
fn entry_form_values(entries: &Vec<(PtrValue, PtrValue)>) -> (res: Vec<PtrValue>)
    ensures
        res@ == entry_forms(entries@),
{
    let mut forms: Vec<PtrValue> = Vec::new();
    let mut i: usize = 0;
    while i < entries.len()
        invariant
            0 <= i <= entries@.len(),
            forms@.len() == 2 * i,
            forall|j: int| 0 <= j < 2 * i ==> #[trigger] forms@[j] == entry_forms(entries@)[j],
        decreases entries@.len() - i,
    {
        forms.push(entries[i].0.clone());
        forms.push(entries[i].1.clone());
        i += 1;
    }
    assert(forms@ =~= entry_forms(entries@));
    forms
}

/// Evaluates `v` with the local bindings `ctx`.
///
/// `nil`, booleans, numbers, strings, keywords, functions and handles
/// evaluate to themselves, as does the empty list; a symbol to its local
/// binding or the value of its var; a var to its value. A non-empty list is
/// a special form (`let*`, `fn*`, `do`) or a call: the arguments are
/// evaluated in order, then the head, and the head's value is applied to the
/// arguments' values. Vectors, sets and maps evaluate element by element.
pub fn eval<H: NativeFunctions>(interp: &mut Interpreter, host: &mut H, ctx: &EvalContext, v: PtrValue, fuel: u64) -> (res: Result<PtrValue, EvalError>)
    ensures
        evals(*old(interp), ctx@, v, fuel as int, *final(interp), res),
        is_self_evaluating(*v) ==> res == Ok::<PtrValue, EvalError>(v) && *final(interp) == *old(interp),
        (*v matches Value::List(l, _) && l@.len() == 0) ==> res == Ok::<PtrValue, EvalError>(v) && *final(interp) == *old(interp),
        *v matches Value::Var(var, _) ==> res == var_result(var.spec_value()) && *final(interp) == *old(interp),
        *v matches Value::Symbol(s, _) ==> *final(interp) == *old(interp) && {
            if local_name(s) matches Some(n) && ctx@.contains_key(n) {
                res == Ok::<PtrValue, EvalError>(ctx@[local_name(s).unwrap()])
            } else {
                symbol_outcome(&old(interp).env, s, res)
            }
        },
        is_compound(*v) && fuel == 0 ==> res == Err::<PtrValue, EvalError>(EvalError::OutOfFuel) && *final(interp) == *old(interp),
        (*v matches Value::List(l, _) && fuel > 0 && spec_special_form(l@) == Some(SpecialForm::FnStar))
            ==> fn_star_outcome(*old(interp), *final(interp), ctx@, (*v)->List_0@, res),
        (*v matches Value::List(l, _) && fuel > 0 && spec_special_form(l@) == Some(SpecialForm::LetStar))
            ==> let_star_shape_outcome(*old(interp), *final(interp), (*v)->List_0@, res),
        (*v matches Value::List(l, _) && fuel > 0 && spec_special_form(l@) == Some(SpecialForm::Do) && l@.len() == 1)
            ==> (res matches Ok(r) && *r == Value::Nil(None)) && *final(interp) == *old(interp),
        *v matches Value::Vector(items, _) ==> (res is Ok ==> (*res->Ok_0 matches Value::Vector(r, None) && r@.len() == items@.len())),
        (*v is ValueSet && res is Ok) ==> *res->Ok_0 is ValueSet,
        (*v is ValueMap && res is Ok) ==> *res->Ok_0 is ValueMap,
    decreases fuel, 0int,
{
    let ghost pre = *interp;
    match &*v {
        Value::Nil(_) | Value::Keyword(_, _) | Value::Boolean(_, _) | Value::Integer(_, _) | Value::Float(_, _)
        | Value::String(_, _) | Value::Function(_, _) | Value::Handle(_, _) => {
            let r = Ok(v.clone());
            proof {
                assert(eval_by(Trace::Leaf, pre, ctx@, v, fuel as int, *interp, r));
            }
            r
        },
        Value::Symbol(symbol, _) => {
            let r = eval_symbol(&interp.env, ctx, symbol);
            proof {
                assert(eval_by(Trace::Leaf, pre, ctx@, v, fuel as int, *interp, r));
            }
            r
        },
        Value::Var(var, _) => {
            let r = match var.deref() {
                Some(x) => Ok(x),
                None => Err(EvalError::UnboundVar),
            };
            proof {
                assert(eval_by(Trace::Leaf, pre, ctx@, v, fuel as int, *interp, r));
            }
            r
        },
        Value::List(list, _) => {
            if list.is_empty() {
                let r = Ok(v.clone());
                proof {
                    assert(eval_by(Trace::Leaf, pre, ctx@, v, fuel as int, *interp, r));
                }
                return r;
            }
            if fuel == 0 {
                proof {
                    assert(eval_by(Trace::Leaf, pre, ctx@, v, fuel as int, *interp, Err::<PtrValue, EvalError>(EvalError::OutOfFuel)));
                }
                return Err(EvalError::OutOfFuel);
            }
            match special_form(list) {
                Some(SpecialForm::LetStar) => {
                    let r = eval_let_star(interp, host, ctx, list, fuel - 1);
                    proof {
                        let f1: int = fuel - 1;
                        let t = choose|t: Trace| let_star_by(t, pre, ctx@, list@, f1, *interp, r);
                        assert(eval_by(t, pre, ctx@, v, fuel as int, *interp, r));
                    }
                    r
                },
                Some(SpecialForm::FnStar) => {
                    let r = eval_fn_star(interp, ctx, list);
                    proof {
                        assert(eval_by(Trace::Leaf, pre, ctx@, v, fuel as int, *interp, r));
                    }
                    r
                },
                Some(SpecialForm::Do) => {
                    let r = eval_do(interp, host, ctx, list, fuel - 1);
                    proof {
                        let f1: int = fuel - 1;
                        let t = choose|t: Trace| body_by(t, pre, ctx@, list@.drop_first(), f1, *interp, r);
                        assert(eval_by(t, pre, ctx@, v, fuel as int, *interp, r));
                    }
                    r
                },
                None => {
                    let r = eval_call(interp, host, ctx, list, fuel - 1);
                    proof {
                        let f1: int = fuel - 1;
                        let t = choose|t: Trace| call_by(t, pre, ctx@, list@, f1, *interp, r);
                        assert(eval_by(t, pre, ctx@, v, fuel as int, *interp, r));
                    }
                    r
                },
            }
        },
        Value::Vector(vector, _) => {
            if fuel == 0 {
                proof {
                    assert(eval_by(Trace::Leaf, pre, ctx@, v, fuel as int, *interp, Err::<PtrValue, EvalError>(EvalError::OutOfFuel)));
                }
                return Err(EvalError::OutOfFuel);
            }
            let items = vector.items();
            let r = eval_seq(interp, host, ctx, &items, fuel - 1);
            let ghost f1: int = fuel - 1;
            let ghost ts = choose|t: Trace| seq_by(t, pre, ctx@, items@, f1, *interp, seq_result(r));
            let ghost tv = Trace::Values { mid: pre, index: 0, values: seq_result(r), first: Box::new(ts), then: Box::new(Trace::Leaf) };
            let res = match r {
                Ok(out) => Ok(Value::new_vector_ptr(out)),
                Err(e) => Err(e),
            };
            proof {
                assert(eval_by(tv, pre, ctx@, v, fuel as int, *interp, res));
            }
            res
        },
        Value::ValueSet(set, _) => {
            if fuel == 0 {
                proof {
                    assert(eval_by(Trace::Leaf, pre, ctx@, v, fuel as int, *interp, Err::<PtrValue, EvalError>(EvalError::OutOfFuel)));
                }
                return Err(EvalError::OutOfFuel);
            }
            let items = set.items();
            let r = eval_seq(interp, host, ctx, &items, fuel - 1);
            let ghost f1: int = fuel - 1;
            let ghost ts = choose|t: Trace| seq_by(t, pre, ctx@, items@, f1, *interp, seq_result(r));
            let ghost tv = Trace::Values { mid: pre, index: 0, values: seq_result(r), first: Box::new(ts), then: Box::new(Trace::Leaf) };
            let res = match r {
                Ok(out) => Ok(Value::new_set_ptr(out)),
                Err(e) => Err(e),
            };
            proof {
                assert(eval_by(tv, pre, ctx@, v, fuel as int, *interp, res));
            }
            res
        },
        Value::ValueMap(map, _) => {
            if fuel == 0 {
                proof {
                    assert(eval_by(Trace::Leaf, pre, ctx@, v, fuel as int, *interp, Err::<PtrValue, EvalError>(EvalError::OutOfFuel)));
                }
                return Err(EvalError::OutOfFuel);
            }
            let entries = map.entries();
            let forms = entry_form_values(&entries);
            let r = eval_seq(interp, host, ctx, &forms, fuel - 1);
            let ghost f1: int = fuel - 1;
            let ghost ts = choose|t: Trace| seq_by(t, pre, ctx@, forms@, f1, *interp, seq_result(r));
            let ghost tv = Trace::Values { mid: pre, index: 0, values: seq_result(r), first: Box::new(ts), then: Box::new(Trace::Leaf) };
            let res = match r {
                Ok(vals) => Ok(Value::new_map_ptr(pair_up(&vals))),
                Err(e) => Err(e),
            };
            proof {
                assert(eval_by(tv, pre, ctx@, v, fuel as int, *interp, res));
            }
            res
        },
    }
}

/// Evaluates a call `(head arg ...)`: the arguments in order, then the
/// head, and applies the head's value to the arguments' values.
fn eval_call<H: NativeFunctions>(interp: &mut Interpreter, host: &mut H, ctx: &EvalContext, list: &List, fuel: u64) -> (res: Result<PtrValue, EvalError>)
    requires
        list@.len() > 0,
    ensures
        evals_call(*old(interp), ctx@, list@, fuel as int, *final(interp), res),
    decreases fuel, 2int,
{
    let ghost pre = *interp;
    let items = list.items();
    let forms = list.rest().items();
    let ra = eval_seq(interp, host, ctx, &forms, fuel);
    let ghost mid = *interp;
    let ghost ts = choose|t: Trace| seq_by(t, pre, ctx@, list@.drop_first(), fuel as int, mid, seq_result(ra));
    let args = match ra {
        Ok(a) => a,
        Err(e) => {
            proof {
                let tc = Trace::Values { mid: mid, index: 0, values: Err::<Seq<PtrValue>, EvalError>(e), first: Box::new(ts), then: Box::new(Trace::Leaf) };
                assert(call_by(tc, pre, ctx@, list@, fuel as int, *interp, Err::<PtrValue, EvalError>(e)));
            }
            return Err(e);
        },
    };
    let ghost arg_values = args@;
    let rh = eval(interp, host, ctx, items[0].clone(), fuel);
    let ghost head_post = *interp;
    let ghost head_form = list@[0];
    let ghost th = choose|t: Trace| eval_by(t, mid, ctx@, head_form, fuel as int, head_post, rh);
    let f = match rh {
        Ok(f) => f,
        Err(e) => {
            proof {
                let tail = Trace::Value { mid: head_post, value: Err::<PtrValue, EvalError>(e), first: Box::new(th), then: Box::new(Trace::Leaf) };
                let tc = Trace::Values { mid: mid, index: 0, values: Ok::<Seq<PtrValue>, EvalError>(arg_values), first: Box::new(ts), then: Box::new(tail) };
                assert(call_by(tc, pre, ctx@, list@, fuel as int, *interp, Err::<PtrValue, EvalError>(e)));
            }
            return Err(e);
        },
    };
    let ghost head = f;
    let res = apply(interp, host, ctx, f, args, fuel);
    proof {
        let ta = choose|t: Trace| apply_by(t, head_post, head, arg_values, fuel as int, *interp, res);
        let tail = Trace::Value { mid: head_post, value: Ok::<PtrValue, EvalError>(head), first: Box::new(th), then: Box::new(ta) };
        let tc = Trace::Values { mid: mid, index: 0, values: Ok::<Seq<PtrValue>, EvalError>(arg_values), first: Box::new(ts), then: Box::new(tail) };
        assert(call_by(tc, pre, ctx@, list@, fuel as int, *interp, res));
    }
    res
}

/// Applies the value `f` to `args`: a function (or a handle on one) runs
/// its first body that takes that many arguments; any other value is the
/// result itself.
pub fn apply<H: NativeFunctions>(interp: &mut Interpreter, host: &mut H, ctx: &EvalContext, f: PtrValue, args: Vec<PtrValue>, fuel: u64) -> (res: Result<PtrValue, EvalError>)
    ensures
        applies(*old(interp), f, args@, fuel as int, *final(interp), res),
        callable_function(*f) is None ==> res == Ok::<PtrValue, EvalError>(f) && *final(interp) == *old(interp),
        (callable_function(*f) matches Some(func) && first_supporting(func@.1, args@.len() as int) is None)
            ==> res == Err::<PtrValue, EvalError>(EvalError::UnsupportedArgCount(args@.len() as usize)) && *final(interp) == *old(interp),
        (callable_function(*f) matches Some(func) && first_supporting(func@.1, args@.len() as int) is Some && fuel == 0)
            ==> res == Err::<PtrValue, EvalError>(EvalError::OutOfFuel) && *final(interp) == *old(interp),
    decreases fuel, 0int,
{
    let ghost pre = *interp;
    let ghost argv = args@;
    let func: PtrFunction = match &*f {
        Value::Function(func, _) => func.clone(),
        Value::Handle(Handle::Function(func), _) => func.clone(),
        _ => {
            proof {
                assert(apply_by(Trace::Leaf, pre, f, argv, fuel as int, *interp, Ok::<PtrValue, EvalError>(f)));
            }
            return Ok(f);
        },
    };
    let id = match func.body_supporting_arg_count(args.len()) {
        Some(id) => id,
        None => {
            proof {
                assert(apply_by(Trace::Leaf, pre, f, argv, fuel as int, *interp,
                    Err::<PtrValue, EvalError>(EvalError::UnsupportedArgCount(args@.len() as usize))));
            }
            return Err(EvalError::UnsupportedArgCount(args.len()));
        },
    };
    if fuel == 0 {
        proof {
            assert(apply_by(Trace::Leaf, pre, f, argv, fuel as int, *interp, Err::<PtrValue, EvalError>(EvalError::OutOfFuel)));
        }
        return Err(EvalError::OutOfFuel);
    }
    let res = invoke_body(interp, host, ctx, id, args, fuel - 1);
    proof {
        let f1: int = fuel - 1;
        let ti = choose|t: Trace| invoke_by(t, pre, id, argv, f1, *interp, res);
        assert(apply_by(ti, pre, f, argv, fuel as int, *interp, res));
    }
    res
}

/// Runs the body numbered `id` on `args`: a body made by `fn*` binds the
/// arguments over the bindings it captured and evaluates its expressions;
/// any other body numbered below [`CLOSURE_BASE`] is run by `host`.
pub fn invoke_body<H: NativeFunctions>(interp: &mut Interpreter, host: &mut H, ctx: &EvalContext, id: ImplementationId, args: Vec<PtrValue>, fuel: u64) -> (res: Result<PtrValue, EvalError>)
    ensures
        invokes(*old(interp), id, args@, fuel as int, *final(interp), res),
        (id >= CLOSURE_BASE && id - CLOSURE_BASE >= old(interp).closures@.len())
            ==> res == Err::<PtrValue, EvalError>(EvalError::UnknownImplementation(id)) && *final(interp) == *old(interp),
        fuel == 0 ==> res == Err::<PtrValue, EvalError>(EvalError::OutOfFuel) || res == Err::<PtrValue, EvalError>(EvalError::UnknownImplementation(id)),
        (id >= CLOSURE_BASE && id - CLOSURE_BASE < old(interp).closures@.len() && fuel > 0) ==> ({
            let c = old(interp).closures@[id - CLOSURE_BASE];
            let fits = spec_params_arity(c.params.spec_view()).spec_supports(args@.len() as int);
            &&& !fits ==> res == Err::<PtrValue, EvalError>(EvalError::Bind(bind_error(c.params.spec_view(), args@.len() as int)))
                && *final(interp) == *old(interp)
            &&& (fits && c.body@.len() == 0) ==> (res matches Ok(r) && *r == Value::Nil(None)) && *final(interp) == *old(interp)
        }),
    decreases fuel, 0int,
{
    let ghost pre = *interp;
    let ghost argv = args@;
    if id >= CLOSURE_BASE {
        let index = id - CLOSURE_BASE;
        if index >= interp.closures.len() as u64 {
            proof {
                assert(invoke_by(Trace::Leaf, pre, id, argv, fuel as int, *interp, Err::<PtrValue, EvalError>(EvalError::UnknownImplementation(id))));
            }
            return Err(EvalError::UnknownImplementation(id));
        }
        if fuel == 0 {
            proof {
                assert(invoke_by(Trace::Leaf, pre, id, argv, fuel as int, *interp, Err::<PtrValue, EvalError>(EvalError::OutOfFuel)));
            }
            return Err(EvalError::OutOfFuel);
        }
        let k = index as usize;
        let bound = bind_arguments(&interp.closures[k].params, &interp.closures[k].captured, &args);
        match bound {
            Err(e) => {
                proof {
                    assert(invoke_by(Trace::Leaf, pre, id, argv, fuel as int, *interp, Err::<PtrValue, EvalError>(EvalError::Bind(e))));
                }
                Err(EvalError::Bind(e))
            },
            Ok(fn_ctx) => {
                let body = copy_values(&interp.closures[k].body);
                let r = eval_body(interp, host, &fn_ctx, &body, fuel - 1);
                proof {
                    let f1: int = fuel - 1;
                    let tb = choose|t: Trace| body_by(t, pre, fn_ctx@, body@, f1, *interp, r);
                    let ti = Trace::Locals { mid: pre, locals: Ok::<Map<Seq<char>, PtrValue>, EvalError>(fn_ctx@), first: Box::new(tb), then: Box::new(Trace::Leaf) };
                    assert(invoke_by(ti, pre, id, argv, fuel as int, *interp, r));
                }
                r
            },
        }
    } else {
        if fuel == 0 {
            proof {
                assert(invoke_by(Trace::Leaf, pre, id, argv, fuel as int, *interp, Err::<PtrValue, EvalError>(EvalError::OutOfFuel)));
            }
            return Err(EvalError::OutOfFuel);
        }
        let r = host.invoke(interp, id, ctx, args, fuel - 1);
        proof {
            assert(invoke_by(Trace::Leaf, pre, id, argv, fuel as int, *interp, r));
        }
        r
    }
}

/// Evaluates `body` in order and gives the value of the last expression,
/// `nil` for an empty body.
pub fn eval_body<H: NativeFunctions>(interp: &mut Interpreter, host: &mut H, ctx: &EvalContext, body: &Vec<PtrValue>, fuel: u64) -> (res: Result<PtrValue, EvalError>)
    ensures
        evals_body(*old(interp), ctx@, body@, fuel as int, *final(interp), res),
        body@.len() == 0 ==> (res matches Ok(r) && *r == Value::Nil(None)) && *final(interp) == *old(interp),
        body@.len() > 0 && fuel == 0 ==> res == Err::<PtrValue, EvalError>(EvalError::OutOfFuel) && *final(interp) == *old(interp),
    decreases fuel, 0int,
{
    let ghost pre = *interp;
    if body.len() == 0 {
        let r = Ok(Value::nil_ptr());
        proof {
            assert(body_by(Trace::Leaf, pre, ctx@, body@, fuel as int, *interp, r));
        }
        return r;
    }
    if fuel == 0 {
        proof {
            assert(body_by(Trace::Leaf, pre, ctx@, body@, fuel as int, *interp, Err::<PtrValue, EvalError>(EvalError::OutOfFuel)));
        }
        return Err(EvalError::OutOfFuel);
    }
    let r = eval_seq(interp, host, ctx, body, fuel - 1);
    let ghost f1: int = fuel - 1;
    let ghost ts = choose|t: Trace| seq_by(t, pre, ctx@, body@, f1, *interp, seq_result(r));
    let ghost tb = Trace::Values { mid: pre, index: 0, values: seq_result(r), first: Box::new(ts), then: Box::new(Trace::Leaf) };
    let res = match r {
        Ok(vals) => Ok(vals[vals.len() - 1].clone()),
        Err(e) => Err(e),
    };
    proof {
        assert(body_by(tb, pre, ctx@, body@, fuel as int, *interp, res));
    }
    res
}

/// The special form `(do expr ...)`: evaluates the expressions in order and
/// gives the value of the last, `nil` for none.
pub fn eval_do<H: NativeFunctions>(interp: &mut Interpreter, host: &mut H, ctx: &EvalContext, list: &List, fuel: u64) -> (res: Result<PtrValue, EvalError>)
    ensures
        list@.len() > 0 ==> evals_body(*old(interp), ctx@, list@.drop_first(), fuel as int, *final(interp), res),
        list@.len() <= 1 ==> (res matches Ok(r) && *r == Value::Nil(None)) && *final(interp) == *old(interp),
        list@.len() > 1 && fuel == 0 ==> res == Err::<PtrValue, EvalError>(EvalError::OutOfFuel) && *final(interp) == *old(interp),
    decreases fuel, 1int,
{
    let body = do_body(list);
    eval_body(interp, host, ctx, &body, fuel)
}

/// The special form `(let* [name init ...] body ...)`: binds each name in
/// turn to the value of its init, evaluated with the bindings before it, and
/// evaluates the body with all of them. With no body, nothing is evaluated
/// and the value is `nil`.
#[verifier::loop_isolation(false)]
pub fn eval_let_star<H: NativeFunctions>(interp: &mut Interpreter, host: &mut H, ctx: &EvalContext, list: &List, fuel: u64) -> (res: Result<PtrValue, EvalError>)
    ensures
        evals_let_star(*old(interp), ctx@, list@, fuel as int, *final(interp), res),
        let_star_shape_outcome(*old(interp), *final(interp), list@, res),
    decreases fuel, 0int,
{
    let ghost pre = *interp;
    let (bindings, body) = match let_star_form(list) {
        Ok(parts) => parts,
        Err(e) => {
            proof {
                assert(let_star_by(Trace::Leaf, pre, ctx@, list@, fuel as int, *interp, Err::<PtrValue, EvalError>(EvalError::LetStar(e))));
            }
            return Err(EvalError::LetStar(e));
        },
    };
    if body.len() == 0 {
        let r = Ok(Value::nil_ptr());
        proof {
            assert(let_star_by(Trace::Leaf, pre, ctx@, list@, fuel as int, *interp, r));
        }
        return r;
    }
    if fuel == 0 {
        proof {
            assert(let_star_by(Trace::Leaf, pre, ctx@, list@, fuel as int, *interp, Err::<PtrValue, EvalError>(EvalError::OutOfFuel)));
        }
        return Err(EvalError::OutOfFuel);
    }
    let items = bindings.items();
    let ghost pairs = items@;
    let ghost f1: int = fuel - 1;
    let ghost mut wrap: spec_fn(Trace) -> Trace = |t: Trace| t;
    let mut cur = ctx.clone();
    let mut i: usize = 0;
    while i + 1 < items.len()
        invariant
            0 <= i <= items@.len(),
            items@.len() % 2 == 0,
            i % 2 == 0,
            pairs == items@,
            forall|t: Trace, post: Interpreter, out: Result<Map<Seq<char>, PtrValue>, EvalError>|
                #[trigger] bindings_by(t, *interp, cur@, pairs, i as int, f1, post, out)
                ==> bindings_by(wrap(t), pre, ctx@, pairs, 0, f1, post, out),
        decreases items@.len() - i,
    {
        let ghost s0 = *interp;
        let ghost c0 = cur@;
        let r = eval(interp, host, &cur, items[i + 1].clone(), fuel - 1);
        let ghost s1 = *interp;
        let ghost init = pairs[i + 1];
        let ghost te = choose|t: Trace| eval_by(t, s0, c0, init, f1, s1, r);
        let value = match r {
            Ok(x) => x,
            Err(e) => {
                proof {
                    let tb = Trace::Value { mid: s1, value: Err::<PtrValue, EvalError>(e), first: Box::new(te), then: Box::new(Trace::Leaf) };
                    assert(bindings_by(tb, s0, c0, pairs, i as int, f1, s1, Err::<Map<Seq<char>, PtrValue>, EvalError>(e)));
                    let tl = Trace::Locals { mid: s1, locals: Err::<Map<Seq<char>, PtrValue>, EvalError>(e), first: Box::new(wrap(tb)), then: Box::new(Trace::Leaf) };
                    assert(let_star_by(tl, pre, ctx@, list@, fuel as int, s1, Err::<PtrValue, EvalError>(e)));
                }
                return Err(e);
            },
        };
        let name = match binding_name(&*items[i]) {
            Some(n) => n,
            None => {
                proof {
                    let err = Err::<Map<Seq<char>, PtrValue>, EvalError>(EvalError::LetStarBindingName);
                    let tb = Trace::Value { mid: s1, value: Ok::<PtrValue, EvalError>(value), first: Box::new(te), then: Box::new(Trace::Leaf) };
                    assert(bindings_by(tb, s0, c0, pairs, i as int, f1, s1, err));
                    let tl = Trace::Locals { mid: s1, locals: err, first: Box::new(wrap(tb)), then: Box::new(Trace::Leaf) };
                    assert(let_star_by(tl, pre, ctx@, list@, fuel as int, s1, Err::<PtrValue, EvalError>(EvalError::LetStarBindingName)));
                }
                return Err(EvalError::LetStarBindingName);
            },
        };
        let ghost x = value;
        cur.insert_local(name, value);
        proof {
            let old_wrap = wrap;
            assert forall|t: Trace, post: Interpreter, out: Result<Map<Seq<char>, PtrValue>, EvalError>|
                #[trigger] bindings_by(t, s1, cur@, pairs, i + 2, f1, post, out)
                implies bindings_by(old_wrap(Trace::Value { mid: s1, value: Ok::<PtrValue, EvalError>(x), first: Box::new(te), then: Box::new(t) }), pre, ctx@, pairs, 0, f1, post, out) by {
                assert(bindings_by(Trace::Value { mid: s1, value: Ok::<PtrValue, EvalError>(x), first: Box::new(te), then: Box::new(t) }, s0, c0, pairs, i as int, f1, post, out));
            }
            wrap = |t: Trace| old_wrap(Trace::Value { mid: s1, value: Ok::<PtrValue, EvalError>(x), first: Box::new(te), then: Box::new(t) });
        }
        i += 2;
    }
    proof {
        assert(bindings_by(Trace::Leaf, *interp, cur@, pairs, i as int, f1, *interp, Ok::<Map<Seq<char>, PtrValue>, EvalError>(cur@)));
    }
    let ghost mid = *interp;
    let ghost bound = cur@;
    let res = eval_body(interp, host, &cur, &body, fuel - 1);
    proof {
        let tb = choose|t: Trace| body_by(t, mid, bound, body@, f1, *interp, res);
        let tl = Trace::Locals { mid: mid, locals: Ok::<Map<Seq<char>, PtrValue>, EvalError>(bound), first: Box::new(wrap(Trace::Leaf)), then: Box::new(tb) };
        assert(let_star_by(tl, pre, ctx@, list@, fuel as int, *interp, res));
    }
    res
}

/// The special form `fn*`: makes a function with one body per arity form,
/// each keeping the local bindings `ctx`. Nothing is evaluated.
#[verifier::loop_isolation(false)]
pub fn eval_fn_star(interp: &mut Interpreter, ctx: &EvalContext, list: &List) -> (res: Result<PtrValue, EvalError>)
    ensures
        fn_star_outcome(*old(interp), *final(interp), ctx@, list@, res),
{
    let mut arities = match fn_star_arities(list) {
        Ok(a) => a,
        Err(e) => {
            return Err(EvalError::FnStar(e));
        },
    };
    let ghost forms = spec_fn_star(list@)->Ok_0;
    let n = interp.closures.len();
    let count = arities.len();
    if (n as u64) > u64::MAX - CLOSURE_BASE || (count as u64) > u64::MAX - CLOSURE_BASE - (n as u64) {
        return Err(EvalError::TooManyClosures);
    }
    let first_id: u64 = CLOSURE_BASE + n as u64;
    let ghost bodies = closure_bodies(forms, first_id as int);
    let mut builder = FunctionBuilder::new();
    let mut i: usize = 0;
    while i < count
        invariant
            0 <= i <= count,
            count == arities@.len(),
            forms == crate::evaluation::arities_view(arities@),
            bodies == closure_bodies(forms, first_id as int),
            first_id as int + count <= u64::MAX,
            builder@ == (None::<Seq<char>>, bodies.take(i as int)),
        decreases count - i,
    {
        let arity = params_arity(&arities[i].0);
        builder.add_body(arity, first_id + i as u64);
        assert(builder@.1 =~= bodies.take(i + 1));
        i += 1;
    }
    assert(bodies.take(count as int) =~= bodies);
    if !builder.can_build() {
        return Err(EvalError::InvalidArities);
    }
    let func = builder.build();
    let ghost pre = interp.closures@;
    let mut j: usize = 0;
    while j < count
        invariant
            0 <= j <= count,
            arities@.len() == count - j,
            forall|k: int| 0 <= k < count - j ==> #[trigger] crate::evaluation::arities_view(arities@)[k] == forms[j + k],
            forms.len() == count,
            interp.closures@.len() == n + j,
            n == pre.len(),
            forall|k: int| 0 <= k < n ==> #[trigger] interp.closures@[k] == pre[k],
            interp.env == old(interp).env,
            forall|k: int| 0 <= k < j ==> #[trigger] interp.closures@[n + k].spec_view() == (forms[k], ctx@),
        decreases count - j,
    {
        let ghost before = arities@;
        proof {
            assert(crate::evaluation::arities_view(before)[0] == forms[j as int]);
        }
        let (params, body) = arities.remove(0);
        let captured = ctx.clone();
        let c = Closure { params, body, captured };
        assert(c.spec_view() == (forms[j as int], ctx@));
        interp.closures.push(c);
        proof {
            assert forall|k: int| 0 <= k < count - (j + 1) implies #[trigger] crate::evaluation::arities_view(arities@)[k] == forms[j + 1 + k] by {
                assert(arities@[k] == before[k + 1]);
                assert(crate::evaluation::arities_view(before)[k + 1] == forms[j + (k + 1)]);
            }
        }
        j += 1;
    }
    Ok(Value::function_ptr(Arc::new(func)))
}


/// Whether applying `f` to each of `elems` in turn, each with `fuel`, went
/// through the states `states` and gave `outs`.
pub open spec fn maps_through(states: Seq<Interpreter>, f: PtrValue, elems: Seq<PtrValue>, fuel: int, outs: Seq<PtrValue>) -> bool {
    &&& states.len() == elems.len() + 1
    &&& outs.len() == elems.len()
    &&& forall|i: int| 0 <= i < elems.len()
        ==> applies(states[i], f, seq![elems[i]], fuel, states[i + 1], Ok::<PtrValue, EvalError>(#[trigger] outs[i]))
}

/// Whether applying `f` to each of `elems` in turn, each with `fuel`, may go
/// from `pre` to `post` and give the results `outs`.
pub open spec fn maps_to(pre: Interpreter, f: PtrValue, elems: Seq<PtrValue>, fuel: int, post: Interpreter, outs: Seq<PtrValue>) -> bool {
    exists|states: Seq<Interpreter>| {
        &&& #[trigger] maps_through(states, f, elems, fuel, outs)
        &&& states[0] == pre
        &&& states.last() == post
    }
}

/// Whether applying `f` to each of `elems` in turn, each with `fuel`, may go
/// from `pre` to `post` and fail with `e`: some applications give results,
/// and the next fails.
pub open spec fn maps_to_error(pre: Interpreter, f: PtrValue, elems: Seq<PtrValue>, fuel: int, post: Interpreter, e: EvalError) -> bool {
    exists|states: Seq<Interpreter>, outs: Seq<PtrValue>| {
        &&& outs.len() < elems.len()
        &&& #[trigger] maps_through(states, f, elems.take(outs.len() as int), fuel, outs)
        &&& states[0] == pre
        &&& applies(states.last(), f, seq![elems[outs.len() as int]], fuel, post, Err::<PtrValue, EvalError>(e))
    }
}

/// Whether applying `f` to each of `elems` in turn, each with `fuel`, may go
/// from `pre` to `post` and give `res`: all the results, or the error of the
/// first application that failed.
pub open spec fn maps(pre: Interpreter, f: PtrValue, elems: Seq<PtrValue>, fuel: int, post: Interpreter, res: Result<Seq<PtrValue>, EvalError>) -> bool {
    match res {
        Ok(outs) => maps_to(pre, f, elems, fuel, post, outs),
        Err(e) => maps_to_error(pre, f, elems, fuel, post, e),
    }
}

/// Whether `elems` are the entries of a map, each as a `[key value]` vector.
pub open spec fn entry_vectors(elems: Seq<PtrValue>, entries: Seq<(PtrValue, PtrValue)>) -> bool {
    &&& elems.len() == entries.len()
    &&& forall|i: int| 0 <= i < entries.len()
        ==> (*#[trigger] elems[i] matches Value::Vector(kv, None) && kv@ == seq![entries[i].0, entries[i].1])
}

/// What mapping over a collection gives, from the results of the
/// applications: a collection made by `make`, or the error.
pub open spec fn mapped(r: Result<Seq<PtrValue>, EvalError>, res: Result<PtrValue, EvalError>, make: spec_fn(Seq<PtrValue>, Value) -> bool) -> bool {
    match r {
        Ok(outs) => res matches Ok(x) && make(outs, *x),
        Err(e) => res == Err::<PtrValue, EvalError>(e),
    }
}

/// Applies `f` to each element of `elements` in order, with no local
/// bindings.
#[verifier::loop_isolation(false)]
fn apply_each<H: NativeFunctions>(interp: &mut Interpreter, host: &mut H, f: &PtrValue, elements: &Vec<PtrValue>, fuel: u64) -> (res: Result<Vec<PtrValue>, EvalError>)
    ensures
        maps(*old(interp), *f, elements@, fuel as int, *final(interp), seq_result(res)),
        res matches Ok(out) ==> out@.len() == elements@.len(),
{
    let ghost pre = *interp;
    let ghost mut states: Seq<Interpreter> = seq![pre];
    let ctx = EvalContext::new_empty();
    let mut out: Vec<PtrValue> = Vec::new();
    let mut i: usize = 0;
    while i < elements.len()
        invariant
            0 <= i <= elements@.len(),
            out@.len() == i,
            states.len() == i + 1,
            states[0] == pre,
            states.last() == *interp,
            maps_through(states, *f, elements@.take(i as int), fuel as int, out@),
        decreases elements@.len() - i,
    {
        let ghost mid = *interp;
        let mut args: Vec<PtrValue> = Vec::new();
        args.push(elements[i].clone());
        proof {
            assert(args@ =~= seq![elements@[i as int]]);
        }
        let r = apply(interp, host, &ctx, f.clone(), args, fuel);
        match r {
            Ok(x) => {
                proof {
                    let old_states = states;
                    let old_out = out@;
                    states = states.push(*interp);
                    assert forall|j: int| 0 <= j < i + 1 implies applies(states[j], *f, seq![elements@.take(i + 1)[j]], fuel as int, states[j + 1], Ok::<PtrValue, EvalError>(#[trigger] old_out.push(x)[j])) by {
                        if j < i {
                            assert(elements@.take(i + 1)[j] == elements@.take(i as int)[j]);
                            assert(old_out.push(x)[j] == old_out[j]);
                        }
                    }
                }
                out.push(x);
            },
            Err(e) => {
                proof {
                    assert(elements@.take(out@.len() as int) == elements@.take(i as int));
                    assert(maps_through(states, *f, elements@.take(out@.len() as int), fuel as int, out@));
                }
                return Err(e);
            },
        }
        i += 1;
    }
    proof {
        assert(elements@.take(i as int) =~= elements@);
        assert(maps_through(states, *f, elements@, fuel as int, out@));
        assert(maps_to(pre, *f, elements@, fuel as int, *interp, out@));
    }
    Ok(out)
}

/// `(map f coll)`: `f` applied to each element of a list (giving a list), a
/// vector (giving a vector) or a set (giving a set), or to each entry of a
/// map as a `[key value]` vector (giving a vector).
pub fn map_over<H: NativeFunctions>(interp: &mut Interpreter, host: &mut H, f: PtrValue, coll: PtrValue, fuel: u64) -> (res: Result<PtrValue, EvalError>)
    ensures
        !(*coll is List || *coll is Vector || *coll is ValueSet || *coll is ValueMap)
            ==> res == Err::<PtrValue, EvalError>(EvalError::Builtin(BuiltinError::NotACollection)) && *final(interp) == *old(interp),
        *coll matches Value::List(l, _) ==> exists|r: Result<Seq<PtrValue>, EvalError>| {
            &&& #[trigger] maps(*old(interp), f, l@, fuel as int, *final(interp), r)
            &&& mapped(r, res, |outs: Seq<PtrValue>, x: Value| x matches Value::List(rl, None) && rl@ == outs)
        },
        *coll matches Value::Vector(l, _) ==> exists|r: Result<Seq<PtrValue>, EvalError>| {
            &&& #[trigger] maps(*old(interp), f, l@, fuel as int, *final(interp), r)
            &&& mapped(r, res, |outs: Seq<PtrValue>, x: Value| x matches Value::Vector(rv, None) && rv@ == outs)
        },
        *coll matches Value::ValueSet(s, _) ==> exists|r: Result<Seq<PtrValue>, EvalError>| {
            &&& #[trigger] maps(*old(interp), f, s@, fuel as int, *final(interp), r)
            &&& mapped(r, res, |outs: Seq<PtrValue>, x: Value| x matches Value::ValueSet(rs, None) && rs@ == crate::set::dedup_values(outs))
        },
        *coll matches Value::ValueMap(m, _) ==> exists|elems: Seq<PtrValue>, r: Result<Seq<PtrValue>, EvalError>| {
            &&& entry_vectors(elems, m@)
            &&& #[trigger] maps(*old(interp), f, elems, fuel as int, *final(interp), r)
            &&& mapped(r, res, |outs: Seq<PtrValue>, x: Value| x matches Value::Vector(rv, None) && rv@ == outs)
        },
{
    let ghost pre = *interp;
    match &*coll {
        Value::List(list, _) => {
            let r = apply_each(interp, host, &f, &list.items(), fuel);
            let ghost rs = seq_result(r);
            let res = match r {
                Ok(out) => Ok(Value::new_list_ptr(out)),
                Err(e) => Err(e),
            };
            proof {
                assert(maps(pre, f, list@, fuel as int, *interp, rs));
            }
            res
        },
        Value::Vector(vector, _) => {
            let r = apply_each(interp, host, &f, &vector.items(), fuel);
            let ghost rs = seq_result(r);
            let res = match r {
                Ok(out) => Ok(Value::new_vector_ptr(out)),
                Err(e) => Err(e),
            };
            proof {
                assert(maps(pre, f, vector@, fuel as int, *interp, rs));
            }
            res
        },
        Value::ValueSet(set, _) => {
            let r = apply_each(interp, host, &f, &set.items(), fuel);
            let ghost rs = seq_result(r);
            let res = match r {
                Ok(out) => Ok(Value::new_set_ptr(out)),
                Err(e) => Err(e),
            };
            proof {
                assert(maps(pre, f, set@, fuel as int, *interp, rs));
            }
            res
        },
        Value::ValueMap(map, _) => {
            let entries = map.entries();
            let mut pairs: Vec<PtrValue> = Vec::new();
            let mut i: usize = 0;
            while i < entries.len()
                invariant
                    0 <= i <= entries@.len(),
                    pairs@.len() == i,
                    forall|j: int| 0 <= j < i ==> (*#[trigger] pairs@[j] matches Value::Vector(kv, None)
                        && kv@ == seq![entries@[j].0, entries@[j].1]),
                decreases entries@.len() - i,
            {
                let mut kv: Vec<PtrValue> = Vec::new();
                kv.push(entries[i].0.clone());
                kv.push(entries[i].1.clone());
                proof {
                    assert(kv@ =~= seq![entries@[i as int].0, entries@[i as int].1]);
                }
                pairs.push(Value::new_vector_ptr(kv));
                i += 1;
            }
            proof {
                assert(entry_vectors(pairs@, map@));
            }
            let r = apply_each(interp, host, &f, &pairs, fuel);
            let ghost rs = seq_result(r);
            let res = match r {
                Ok(out) => Ok(Value::new_vector_ptr(out)),
                Err(e) => Err(e),
            };
            proof {
                assert(maps(pre, f, pairs@, fuel as int, *interp, rs));
            }
            res
        },
        _ => Err(EvalError::Builtin(BuiltinError::NotACollection)),
    }
}

} // verus!

verus! {

/// The function that a callable value calls.
pub open spec fn callee_of(f: PtrValue) -> PtrFunction {
    callable_function(*f)->Some_0
}

/// Applying a function that `fn*` made runs the first of its bodies whose
/// arity admits the arguments: that body's parameters are bound to the
/// arguments over the local bindings in force where `fn*` was evaluated,
/// and its expressions are evaluated with them. Where no arity admits the
/// arguments, the application fails with the argument count and changes
/// nothing. (The application and the body each spend a unit of fuel.)
pub proof fn law_fn_star_apply(pre: Interpreter, mid: Interpreter, ctx: Map<Seq<char>, PtrValue>, items: Seq<PtrValue>, f: PtrValue, args: Seq<PtrValue>, fuel: int, post: Interpreter, res: Result<PtrValue, EvalError>)
    requires
        fn_star_outcome(pre, mid, ctx, items, Ok::<PtrValue, EvalError>(f)),
        applies(mid, f, args, fuel, post, res),
        2 <= fuel,
    ensures
        spec_fn_star(items) is Ok,
        ({
            let forms = spec_fn_star(items)->Ok_0;
            &&& (forall|j: int| 0 <= j < forms.len() ==> !#[trigger] spec_params_arity(forms[j].0).spec_supports(args.len() as int))
                ==> res == Err::<PtrValue, EvalError>(EvalError::UnsupportedArgCount(args.len() as usize)) && post == mid
            &&& (exists|j: int| 0 <= j < forms.len() && #[trigger] spec_params_arity(forms[j].0).spec_supports(args.len() as int))
                ==> exists|j: int, bound: Map<Seq<char>, PtrValue>| {
                    &&& 0 <= j < forms.len()
                    &&& spec_params_arity(forms[j].0).spec_supports(args.len() as int)
                    &&& #[trigger] binds(forms[j].0, ctx, args, bound)
                    &&& evals_body(mid, bound, forms[j].1, fuel - 2, post, res)
                }
        }),
{
    let forms = spec_fn_star(items)->Ok_0;
    let n = pre.closures@.len();
    let bodies = closure_bodies(forms, CLOSURE_BASE + n);
    let c = canonical_arity_order(bodies);
    let count = args.len() as int;
    let func = callee_of(f);
    assert(callable_function(*f) == Some(func));
    assert(func@.1 == c);
    let t = choose|t: Trace| apply_by(t, mid, f, args, fuel, post, res);
    lemma_first_supporting_valid(c, count);
    if exists|j: int| 0 <= j < forms.len() && #[trigger] spec_params_arity(forms[j].0).spec_supports(count) {
        let j = choose|j: int| 0 <= j < forms.len() && #[trigger] spec_params_arity(forms[j].0).spec_supports(count);
        assert(bodies.contains(bodies[j]));
        lemma_canonical_contains(bodies, bodies[j]);
        let i0 = choose|i: int| 0 <= i < c.len() && c[i] == bodies[j];
        lemma_first_supporting_exists(c, count, i0);
        let i = first_supporting(c, count)->Some_0;
        assert(c.contains(c[i]));
        lemma_canonical_contains(bodies, c[i]);
        let p = choose|p: int| 0 <= p < bodies.len() && bodies[p] == c[i];
        let id = c[i].1;
        assert(id == CLOSURE_BASE + n + p);
        let cl = mid.closures@[n + p];
        assert(cl.spec_view() == (forms[p], ctx));
        assert(invoke_by(t, mid, id, args, fuel - 1, post, res));
        let bound = t->Locals_locals->Ok_0;
        assert(binds(forms[p].0, ctx, args, bound));
        assert(body_by(*t->Locals_first, mid, bound, forms[p].1, fuel - 2, post, res));
        assert(spec_params_arity(forms[p].0).spec_supports(count));
    } else {
        if first_supporting(c, count) is Some {
            let i = first_supporting(c, count)->Some_0;
            assert(c.contains(c[i]));
            lemma_canonical_contains(bodies, c[i]);
            let p = choose|p: int| 0 <= p < bodies.len() && bodies[p] == c[i];
            assert(spec_params_arity(forms[p].0).spec_supports(count));
        }
    }
}

} // verus!

verus! {

/// An evaluation prefix recorded with some fuel is recorded as well with
/// more.
proof fn lemma_prefix_more_fuel(t: Trace, pre: Interpreter, ctx: Map<Seq<char>, PtrValue>, forms: Seq<PtrValue>, n: int, fuel: int, more: int, post: Interpreter, vals: Seq<PtrValue>)
    requires
        fuel <= more,
        prefix_by(t, pre, ctx, forms, n, fuel, post, vals),
    ensures
        prefix_by(t, pre, ctx, forms, n, more, post, vals),
    decreases t, 4int,
{
    if 0 < n <= forms.len() {
        let mid = t->Value_mid;
        lemma_prefix_more_fuel(*t->Value_first, pre, ctx, forms, n - 1, fuel, more, mid, vals.drop_last());
        lemma_eval_more_fuel(*t->Value_then, mid, ctx, forms[n - 1], fuel, more, post, Ok::<PtrValue, EvalError>(vals.last()));
    }
}

/// A sequence evaluation that did not run out of fuel ends the same with
/// more.
proof fn lemma_seq_more_fuel(t: Trace, pre: Interpreter, ctx: Map<Seq<char>, PtrValue>, forms: Seq<PtrValue>, fuel: int, more: int, post: Interpreter, res: Result<Seq<PtrValue>, EvalError>)
    requires
        fuel <= more,
        seq_by(t, pre, ctx, forms, fuel, post, res),
        res != Err::<Seq<PtrValue>, EvalError>(EvalError::OutOfFuel),
    ensures
        seq_by(t, pre, ctx, forms, more, post, res),
    decreases t, 5int,
{
    match res {
        Ok(vals) => {
            lemma_prefix_more_fuel(t, pre, ctx, forms, forms.len() as int, fuel, more, post, vals);
        },
        Err(e) => {
            let mid = t->Values_mid;
            let index = t->Values_index;
            lemma_prefix_more_fuel(*t->Values_first, pre, ctx, forms, index, fuel, more, mid, t->Values_values->Ok_0);
            lemma_eval_more_fuel(*t->Values_then, mid, ctx, forms[index], fuel, more, post, Err::<PtrValue, EvalError>(e));
        },
    }
}

/// A body evaluation that did not run out of fuel ends the same with more.
proof fn lemma_body_more_fuel(t: Trace, pre: Interpreter, ctx: Map<Seq<char>, PtrValue>, body: Seq<PtrValue>, fuel: int, more: int, post: Interpreter, res: Result<PtrValue, EvalError>)
    requires
        fuel <= more,
        body_by(t, pre, ctx, body, fuel, post, res),
        res != Err::<PtrValue, EvalError>(EvalError::OutOfFuel),
    ensures
        body_by(t, pre, ctx, body, more, post, res),
    decreases t, 6int,
{
    if body.len() > 0 {
        lemma_seq_more_fuel(*t->Values_first, pre, ctx, body, fuel - 1, more - 1, post, t->Values_values);
    }
}

/// Running a body that did not run out of fuel ends the same with more.
proof fn lemma_invoke_more_fuel(t: Trace, pre: Interpreter, id: ImplementationId, args: Seq<PtrValue>, fuel: int, more: int, post: Interpreter, res: Result<PtrValue, EvalError>)
    requires
        fuel <= more,
        invoke_by(t, pre, id, args, fuel, post, res),
        res != Err::<PtrValue, EvalError>(EvalError::OutOfFuel),
    ensures
        invoke_by(t, pre, id, args, more, post, res),
    decreases t, 2int,
{
    if id >= CLOSURE_BASE && id - CLOSURE_BASE < pre.closures@.len() {
        let c = pre.closures@[id - CLOSURE_BASE];
        if spec_params_arity(c.params.spec_view()).spec_supports(args.len() as int) {
            let bound = t->Locals_locals->Ok_0;
            lemma_body_more_fuel(*t->Locals_first, pre, bound, c.body@, fuel - 1, more - 1, post, res);
        }
    }
}

/// An application that did not run out of fuel ends the same with more.
proof fn lemma_apply_more_fuel(t: Trace, pre: Interpreter, f: PtrValue, args: Seq<PtrValue>, fuel: int, more: int, post: Interpreter, res: Result<PtrValue, EvalError>)
    requires
        fuel <= more,
        apply_by(t, pre, f, args, fuel, post, res),
        res != Err::<PtrValue, EvalError>(EvalError::OutOfFuel),
    ensures
        apply_by(t, pre, f, args, more, post, res),
    decreases t, 3int,
{
    if callable_function(deref_value(f)) is Some {
        let func = callee_of(f);
        if first_supporting(func@.1, args.len() as int) is Some {
            let i = first_supporting(func@.1, args.len() as int)->Some_0;
            lemma_invoke_more_fuel(t, pre, func@.1[i].1, args, fuel - 1, more - 1, post, res);
        }
    }
}

/// A call that did not run out of fuel ends the same with more.
proof fn lemma_call_more_fuel(t: Trace, pre: Interpreter, ctx: Map<Seq<char>, PtrValue>, items: Seq<PtrValue>, fuel: int, more: int, post: Interpreter, res: Result<PtrValue, EvalError>)
    requires
        fuel <= more,
        call_by(t, pre, ctx, items, fuel, post, res),
        res != Err::<PtrValue, EvalError>(EvalError::OutOfFuel),
    ensures
        call_by(t, pre, ctx, items, more, post, res),
    decreases t, 8int,
{
    let mid = t->Values_mid;
    let values = t->Values_values;
    lemma_seq_more_fuel(*t->Values_first, pre, ctx, items.drop_first(), fuel, more, mid, values);
    if values is Ok {
        let tail = *t->Values_then;
        let head_post = tail->Value_mid;
        let head = tail->Value_value;
        lemma_eval_more_fuel(*tail->Value_first, mid, ctx, items[0], fuel, more, head_post, head);
        if head is Ok {
            lemma_apply_more_fuel(*tail->Value_then, head_post, head->Ok_0, values->Ok_0, fuel, more, post, res);
        }
    }
}

/// Binding that did not run out of fuel ends the same with more.
proof fn lemma_bindings_more_fuel(t: Trace, pre: Interpreter, ctx: Map<Seq<char>, PtrValue>, pairs: Seq<PtrValue>, k: int, fuel: int, more: int, post: Interpreter, out: Result<Map<Seq<char>, PtrValue>, EvalError>)
    requires
        fuel <= more,
        bindings_by(t, pre, ctx, pairs, k, fuel, post, out),
        out != Err::<Map<Seq<char>, PtrValue>, EvalError>(EvalError::OutOfFuel),
    ensures
        bindings_by(t, pre, ctx, pairs, k, more, post, out),
    decreases t, 1int,
{
    if 0 <= k && k + 1 < pairs.len() {
        let mid = t->Value_mid;
        let value = t->Value_value;
        lemma_eval_more_fuel(*t->Value_first, pre, ctx, pairs[k + 1], fuel, more, mid, value);
        if value is Ok && crate::evaluation::is_bare_symbol(deref_value(pairs[k])) {
            let x = value->Ok_0;
            lemma_bindings_more_fuel(*t->Value_then, mid, ctx.insert(crate::evaluation::bare_symbol_name(deref_value(pairs[k])), x), pairs, k + 2, fuel, more, post, out);
        }
    }
}

/// A `let*` that did not run out of fuel ends the same with more.
proof fn lemma_let_star_more_fuel(t: Trace, pre: Interpreter, ctx: Map<Seq<char>, PtrValue>, items: Seq<PtrValue>, fuel: int, more: int, post: Interpreter, res: Result<PtrValue, EvalError>)
    requires
        fuel <= more,
        let_star_by(t, pre, ctx, items, fuel, post, res),
        res != Err::<PtrValue, EvalError>(EvalError::OutOfFuel),
    ensures
        let_star_by(t, pre, ctx, items, more, post, res),
    decreases t, 7int,
{
    if items.len() > 2 && deref_value(items[1]) is Vector && deref_value(items[1])->Vector_0@.len() % 2 == 0 {
        let mid = t->Locals_mid;
        let locals = t->Locals_locals;
        lemma_bindings_more_fuel(*t->Locals_first, pre, ctx, deref_value(items[1])->Vector_0@, 0, fuel - 1, more - 1, mid, locals);
        if locals is Ok {
            lemma_body_more_fuel(*t->Locals_then, mid, locals->Ok_0, items.subrange(2, items.len() as int), fuel - 1, more - 1, post, res);
        }
    }
}

/// An evaluation that did not run out of fuel ends the same with more.
proof fn lemma_eval_more_fuel(t: Trace, pre: Interpreter, ctx: Map<Seq<char>, PtrValue>, v: PtrValue, fuel: int, more: int, post: Interpreter, res: Result<PtrValue, EvalError>)
    requires
        fuel <= more,
        eval_by(t, pre, ctx, v, fuel, post, res),
        res != Err::<PtrValue, EvalError>(EvalError::OutOfFuel),
    ensures
        eval_by(t, pre, ctx, v, more, post, res),
    decreases t, 9int,
{
    if !is_self_evaluating(deref_value(v)) {
        match deref_value(v) {
            Value::List(l, _) => {
                if l@.len() > 0 {
                    match spec_special_form(l@) {
                        Some(SpecialForm::Do) => {
                            lemma_body_more_fuel(t, pre, ctx, l@.drop_first(), fuel - 1, more - 1, post, res);
                        },
                        Some(SpecialForm::LetStar) => {
                            lemma_let_star_more_fuel(t, pre, ctx, l@, fuel - 1, more - 1, post, res);
                        },
                        None => {
                            lemma_call_more_fuel(t, pre, ctx, l@, fuel - 1, more - 1, post, res);
                        },
                        _ => {},
                    }
                }
            },
            Value::Vector(items, _) => {
                lemma_seq_more_fuel(*t->Values_first, pre, ctx, items@, fuel - 1, more - 1, post, t->Values_values);
            },
            Value::ValueSet(items, _) => {
                lemma_seq_more_fuel(*t->Values_first, pre, ctx, items@, fuel - 1, more - 1, post, t->Values_values);
            },
            Value::ValueMap(m, _) => {
                lemma_seq_more_fuel(*t->Values_first, pre, ctx, entry_forms(m@), fuel - 1, more - 1, post, t->Values_values);
            },
            _ => {},
        }
    }
}

/// More fuel does not change how an evaluation ends, where it ends without
/// running out of fuel: what evaluating `v` with `fuel` may give, it may
/// give with any more fuel too.
pub proof fn law_eval_more_fuel(pre: Interpreter, ctx: Map<Seq<char>, PtrValue>, v: PtrValue, fuel: int, more: int, post: Interpreter, res: Result<PtrValue, EvalError>)
    requires
        fuel <= more,
        evals(pre, ctx, v, fuel, post, res),
        res != Err::<PtrValue, EvalError>(EvalError::OutOfFuel),
    ensures
        evals(pre, ctx, v, more, post, res),
{
    let t = choose|t: Trace| eval_by(t, pre, ctx, v, fuel, post, res);
    lemma_eval_more_fuel(t, pre, ctx, v, fuel, more, post, res);
}

} // verus!
