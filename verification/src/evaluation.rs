//! Symbol resolution and the parts of evaluation that decide rather than
//! evaluate: the shapes of the special forms `let*`, `fn*` and `do`, the
//! parameters of a function literal, and how arguments bind to them.
use vstd::prelude::*;
use crate::environment::Environment;
use crate::eval_context::EvalContext;
use crate::function::FunctionArity;
use crate::list::List;
use crate::namespace::{GetValueError, GetVarError, PtrNamespace};
use crate::symbol::{Symbol, SymbolQualified, SymbolUnqualified};
use crate::value::{PtrValue, Value};
use crate::var::PtrVar;
use crate::vector::Vector;

verus! {

/// A symbol could not be resolved to a var.
#[derive(Debug)]
pub enum ResolveError {
    /// No namespace of this name exists.
    NoSuchNamespace(SymbolUnqualified),
    /// No var of this fully qualified name exists.
    NoSuchVar(SymbolQualified),
    /// The var of this fully qualified name is bound to nothing.
    UnboundVar(SymbolQualified),
    /// The current namespace could not be had.
    UnknownCurrentNamespace,
}

/// The resolution error a var error stands for.
pub open spec fn resolve_error_of_var_error(e: GetVarError) -> ResolveError {
    match e {
        GetVarError::NoSuchVar(fq) => ResolveError::NoSuchVar(fq),
    }
}

/// The resolution error a value error stands for.
pub open spec fn resolve_error_of_value_error(e: GetValueError) -> ResolveError {
    match e {
        GetValueError::NoSuchVar(fq) => ResolveError::NoSuchVar(fq),
        GetValueError::UnboundVar(fq) => ResolveError::UnboundVar(fq),
    }
}

impl From<GetVarError> for ResolveError {
    fn from(e: GetVarError) -> (res: Self) {
        match e {
            GetVarError::NoSuchVar(fq) => ResolveError::NoSuchVar(fq),
        }
    }
}

impl vstd::std_specs::convert::FromSpecImpl<GetVarError> for ResolveError {
    open spec fn obeys_from_spec() -> bool {
        true
    }

    open spec fn from_spec(e: GetVarError) -> Self {
        resolve_error_of_var_error(e)
    }
}

impl From<GetValueError> for ResolveError {
    fn from(e: GetValueError) -> (res: Self) {
        match e {
            GetValueError::NoSuchVar(fq) => ResolveError::NoSuchVar(fq),
            GetValueError::UnboundVar(fq) => ResolveError::UnboundVar(fq),
        }
    }
}

impl vstd::std_specs::convert::FromSpecImpl<GetValueError> for ResolveError {
    open spec fn obeys_from_spec() -> bool {
        true
    }

    open spec fn from_spec(e: GetValueError) -> Self {
        resolve_error_of_value_error(e)
    }
}

/// The namespace a symbol is looked up in: the namespace its namespace
/// part names for a qualified symbol, the current namespace for a bare one.
pub open spec fn lookup_namespace(env: &Environment, symbol: Symbol) -> Option<PtrNamespace> {
    match symbol {
        Symbol::Qualified(q) => if env.spec_namespaces().contains_key(q@.0) {
            Some(env.spec_namespaces()[q@.0])
        } else {
            None
        },
        Symbol::Unqualified(_) => env.spec_current(),
    }
}

/// The var a symbol resolves to in `env`, if it resolves.
pub open spec fn spec_resolve(env: &Environment, symbol: Symbol) -> Option<PtrVar> {
    match lookup_namespace(env, symbol) {
        Some(ns) => if ns.spec_vars().contains_key(symbol@.1) {
            Some(ns.spec_vars()[symbol@.1])
        } else {
            None
        },
        None => None,
    }
}

/// Whether resolving `symbol` in `env` fails with `e`: a qualified symbol
/// whose namespace does not exist, a symbol whose namespace has no var of
/// its name, or a bare symbol where there is no current namespace.
pub open spec fn resolve_fails_with(env: &Environment, symbol: Symbol, e: ResolveError) -> bool {
    match e {
        ResolveError::NoSuchNamespace(n) => symbol is Qualified
            && lookup_namespace(env, symbol) is None && Some(n@) == symbol@.0,
        ResolveError::NoSuchVar(fq) => lookup_namespace(env, symbol) matches Some(ns)
            && spec_resolve(env, symbol) is None && fq@ == (ns.spec_name(), symbol@.1),
        ResolveError::UnboundVar(_) => false,
        ResolveError::UnknownCurrentNamespace => symbol is Unqualified
            && lookup_namespace(env, symbol) is None,
    }
}

/// The error binding `arg_count` arguments to parameters that do not take
/// that many fails with: too few for the regular ones, or too many.
pub open spec fn bind_error(params: (Seq<Seq<char>>, Option<Seq<char>>), arg_count: int) -> BindError {
    if arg_count < params.0.len() {
        BindError::NotEnoughArguments
    } else {
        BindError::TooManyArguments
    }
}

/// Resolves `symbol` to a var: a qualified symbol in the namespace it
/// names, a bare symbol in the current namespace.
pub fn try_resolve(env: &Environment, symbol: &Symbol) -> (res: Result<PtrVar, ResolveError>)
    ensures
        match res {
            Ok(var) => spec_resolve(env, *symbol) == Some(var),
            Err(e) => resolve_fails_with(env, *symbol, e),
        },
{
    match symbol {
        Symbol::Qualified(sym) => {
            let ns = match env.try_get_namespace(sym.namespace()) {
                Some(ns) => ns,
                None => {
                    return Err(ResolveError::NoSuchNamespace(SymbolUnqualified::new(sym.namespace())));
                },
            };
            proof {
                assert(lookup_namespace(env, *symbol) == Some(ns));
                assert(symbol@.1 == sym@.1);
            }
            match ns.try_get_var(sym.name()) {
                Ok(var) => {
                    assert(spec_resolve(env, *symbol) == Some(var));
                    Ok(var)
                },
                Err(GetVarError::NoSuchVar(fq)) => Err(ResolveError::NoSuchVar(fq)),
            }
        },
        Symbol::Unqualified(sym) => {
            let ns = match env.try_get_current_namespace() {
                Ok(ns) => ns,
                Err(_) => {
                    return Err(ResolveError::UnknownCurrentNamespace);
                },
            };
            proof {
                assert(lookup_namespace(env, *symbol) == Some(ns));
                assert(symbol@.1 == sym@);
            }
            match ns.try_get_var(sym.name()) {
                Ok(var) => {
                    assert(spec_resolve(env, *symbol) == Some(var));
                    Ok(var)
                },
                Err(GetVarError::NoSuchVar(fq)) => Err(ResolveError::NoSuchVar(fq)),
            }
        },
    }
}

/// Resolves `symbol` to a var, which must exist.
pub fn resolve_or_panic(env: &Environment, symbol: &Symbol) -> (res: PtrVar)
    requires
        spec_resolve(env, *symbol) is Some,
    ensures
        spec_resolve(env, *symbol) == Some(res),
{
    match try_resolve(env, symbol) {
        Ok(var) => var,
        Err(_) => vstd::pervasive::unreached(),
    }
}

/// The parameters of one arity of a function literal: the names bound to
/// the leading arguments, and the name bound to the list of the others.
pub struct FnParams {
    pub regular: Vec<String>,
    pub variadic: Option<String>,
}

/// Where the reading of a parameter vector stands: the regular names so
/// far, the rest name so far, and whether `&` was just read.
pub open spec fn params_start() -> (Seq<Seq<char>>, Option<Seq<char>>, bool) {
    (Seq::empty(), None, false)
}

/// The reading of a parameter vector after one more name.
pub open spec fn params_step(state: (Seq<Seq<char>>, Option<Seq<char>>, bool), name: Seq<char>) -> (Seq<Seq<char>>, Option<Seq<char>>, bool) {
    if name == seq!['&'] {
        (state.0, state.1, true)
    } else if state.2 {
        (state.0, Some(name), false)
    } else {
        (state.0.push(name), state.1, false)
    }
}

/// The reading of the first `n` names of `names`.
pub open spec fn params_fold(names: Seq<Seq<char>>, n: int) -> (Seq<Seq<char>>, Option<Seq<char>>, bool)
    decreases n,
{
    if n <= 0 {
        params_start()
    } else {
        params_step(params_fold(names, n - 1), names[n - 1])
    }
}

/// Whether a value is a bare symbol.
pub open spec fn is_bare_symbol(v: Value) -> bool {
    v matches Value::Symbol(Symbol::Unqualified(_), _)
}

/// The name of a bare symbol.
pub open spec fn bare_symbol_name(v: Value) -> Seq<char> {
    match v {
        Value::Symbol(Symbol::Unqualified(s), _) => s@,
        _ => Seq::empty(),
    }
}

/// The names of the bare symbols of `items`.
pub open spec fn symbol_names(items: Seq<PtrValue>) -> Seq<Seq<char>> {
    Seq::new(items.len(), |i: int| bare_symbol_name(*items[i]))
}

/// Whether every element of `items` is a bare symbol.
pub open spec fn all_bare_symbols(items: Seq<PtrValue>) -> bool {
    forall|i: int| 0 <= i < items.len() ==> is_bare_symbol(#[trigger] *items[i])
}

/// The index of the first element of `items` that is not a bare symbol,
/// or the length if there is none.
pub open spec fn first_non_symbol(items: Seq<PtrValue>, i: int) -> int
    decreases items.len() - i,
{
    if i < 0 || i >= items.len() {
        items.len() as int
    } else if !is_bare_symbol(*items[i]) {
        i
    } else {
        first_non_symbol(items, i + 1)
    }
}

impl FnParams {
    /// The regular parameter names and the rest parameter name.
    pub closed spec fn spec_view(&self) -> (Seq<Seq<char>>, Option<Seq<char>>) {
        (
            Seq::new(self.regular@.len(), |i: int| self.regular@[i]@),
            match self.variadic {
                Some(v) => Some(v@),
                None => None,
            },
        )
    }
}

/// Reads a parameter vector: `&` makes the next name the rest parameter,
/// and the other names are the regular parameters; every element must be a
/// bare symbol.
pub fn extract_params(params_vec: &Vector) -> (res: FnParams)
    requires
        all_bare_symbols(params_vec@),
    ensures
        res.spec_view() == ({
            let s = params_fold(symbol_names(params_vec@), params_vec@.len() as int);
            (s.0, s.1)
        }),
{
    let items = params_vec.items();
    let mut regular: Vec<String> = Vec::new();
    let mut variadic: Option<String> = None;
    let mut saw_ampersand = false;
    let ghost names = symbol_names(params_vec@);
    let mut i: usize = 0;
    while i < items.len()
        invariant
            0 <= i <= items@.len(),
            items@ == params_vec@,
            names == symbol_names(params_vec@),
            all_bare_symbols(params_vec@),
            params_fold(names, i as int) == (
                Seq::new(regular@.len(), |j: int| regular@[j]@),
                match variadic {
                    Some(v) => Some(v@),
                    None => None,
                },
                saw_ampersand,
            ),
        decreases items@.len() - i,
    {
        let name: String = match &*items[i] {
            Value::Symbol(Symbol::Unqualified(sym), _) => sym.name_as_string().clone(),
            _ => vstd::pervasive::unreached(),
        };
        proof {
            assert(is_bare_symbol(*params_vec@[i as int]));
            assert(name@ == names[i as int]);
        }
        let ghost before = Seq::new(regular@.len(), |j: int| regular@[j]@);
        let ampersand = "&".to_owned();
        proof {
            reveal_strlit("&");
            assert(ampersand@ =~= seq!['&']);
        }
        if name == ampersand {
            saw_ampersand = true;
        } else if saw_ampersand {
            variadic = Some(name);
            saw_ampersand = false;
        } else {
            regular.push(name);
            saw_ampersand = false;
            assert(Seq::new(regular@.len(), |j: int| regular@[j]@) =~= before.push(names[i as int]));
        }
        i += 1;
    }
    FnParams { regular, variadic }
}

/// The arity a parameter list accepts: at least the regular parameters
/// where there is a rest parameter, exactly them otherwise.
pub open spec fn spec_params_arity(params: (Seq<Seq<char>>, Option<Seq<char>>)) -> FunctionArity {
    if params.1 is Some {
        FunctionArity::AtLeast(params.0.len() as usize)
    } else {
        FunctionArity::Exactly(params.0.len() as usize)
    }
}

/// The arity a parameter list accepts.
pub fn params_arity(params: &FnParams) -> (res: FunctionArity)
    ensures
        res == spec_params_arity(params.spec_view()),
{
    if params.variadic.is_some() {
        FunctionArity::AtLeast(params.regular.len())
    } else {
        FunctionArity::Exactly(params.regular.len())
    }
}

/// Arguments that do not fit the parameters of a function literal.
#[derive(Debug)]
pub enum BindError {
    /// Fewer arguments than regular parameters.
    NotEnoughArguments,
    /// More arguments than parameters, with no rest parameter.
    TooManyArguments,
}


/// The bindings `m` with `names[i]` bound to `args[i]` for each `i < n`,
/// in order.
pub open spec fn bind_regular(m: Map<Seq<char>, PtrValue>, names: Seq<Seq<char>>, args: Seq<PtrValue>, n: int) -> Map<Seq<char>, PtrValue>
    decreases n,
{
    if n <= 0 {
        m
    } else {
        bind_regular(m, names, args, n - 1).insert(names[n - 1], args[n - 1])
    }
}

/// Whether `ctx` is what binding `args` to the parameters `params` gives
/// on top of `captured`: each regular parameter bound to its argument, and
/// the rest parameter, if there is one, to a list of the arguments left
/// over.
pub open spec fn binds(params: (Seq<Seq<char>>, Option<Seq<char>>), captured: Map<Seq<char>, PtrValue>, args: Seq<PtrValue>, ctx: Map<Seq<char>, PtrValue>) -> bool {
    let (names, rest) = params;
    let base = bind_regular(captured, names, args, names.len() as int);
    &&& args.len() >= names.len()
    &&& rest is None ==> args.len() == names.len() && ctx == base
    &&& rest matches Some(r) ==> {
        &&& ctx.dom() == base.dom().insert(r)
        &&& (*ctx[r] matches Value::List(l, None) && l@ == args.subrange(names.len() as int, args.len() as int))
        &&& forall|k: Seq<char>| k != r && #[trigger] base.contains_key(k) ==> ctx[k] == base[k]
    }
}

/// Binding the first `n` names binds the `i`-th of them to the `i`-th
/// argument, where no later name among them repeats it.
proof fn lemma_bind_regular_at(m: Map<Seq<char>, PtrValue>, names: Seq<Seq<char>>, args: Seq<PtrValue>, n: int, i: int)
    requires
        0 <= i < n <= names.len(),
        forall|j: int| i < j < n ==> #[trigger] names[j] != names[i],
    ensures
        bind_regular(m, names, args, n).contains_key(names[i]),
        bind_regular(m, names, args, n)[names[i]] == args[i],
    decreases n,
{
    if i < n - 1 {
        lemma_bind_regular_at(m, names, args, n - 1, i);
        assert(names[n - 1] != names[i]);
    }
}

/// A name that is not among the first `n` names keeps what `m` binds it to.
proof fn lemma_bind_regular_other(m: Map<Seq<char>, PtrValue>, names: Seq<Seq<char>>, args: Seq<PtrValue>, n: int, k: Seq<char>)
    requires
        0 <= n <= names.len(),
        forall|j: int| 0 <= j < n ==> #[trigger] names[j] != k,
    ensures
        bind_regular(m, names, args, n).contains_key(k) == m.contains_key(k),
        m.contains_key(k) ==> bind_regular(m, names, args, n)[k] == m[k],
    decreases n,
{
    if n > 0 {
        lemma_bind_regular_other(m, names, args, n - 1, k);
        assert(names[n - 1] != k);
    }
}

/// What a call binds, parameter by parameter: each regular parameter is
/// bound to the argument at its own position (where no later regular
/// parameter and not the rest parameter has the same name), the rest
/// parameter to a list of the arguments after the regular ones, and every
/// other name keeps what the function captured.
pub proof fn law_parameters_bound_by_position(
    params: (Seq<Seq<char>>, Option<Seq<char>>),
    captured: Map<Seq<char>, PtrValue>,
    args: Seq<PtrValue>,
    ctx: Map<Seq<char>, PtrValue>,
)
    requires
        binds(params, captured, args, ctx),
    ensures
        forall|i: int| #![trigger params.0[i]]
            0 <= i < params.0.len()
            && (forall|j: int| i < j < params.0.len() ==> params.0[j] != params.0[i])
            && params.1 != Some(params.0[i])
            ==> ctx.contains_key(params.0[i]) && ctx[params.0[i]] == args[i],
        params.1 matches Some(r) ==> (ctx.contains_key(r)
            && (*ctx[r] matches Value::List(l, None) && l@ == args.subrange(params.0.len() as int, args.len() as int))),
        forall|k: Seq<char>| #![trigger ctx.contains_key(k)]
            (forall|j: int| 0 <= j < params.0.len() ==> params.0[j] != k) && params.1 != Some(k)
            ==> (ctx.contains_key(k) == captured.contains_key(k)
                && (captured.contains_key(k) ==> ctx[k] == captured[k])),
{
    let (names, rest) = params;
    let base = bind_regular(captured, names, args, names.len() as int);
    assert forall|i: int| #![trigger params.0[i]]
        0 <= i < params.0.len()
        && (forall|j: int| i < j < params.0.len() ==> params.0[j] != params.0[i])
        && params.1 != Some(params.0[i])
        implies ctx.contains_key(params.0[i]) && ctx[params.0[i]] == args[i] by {
        lemma_bind_regular_at(captured, names, args, names.len() as int, i);
    }
    assert forall|k: Seq<char>| #![trigger ctx.contains_key(k)]
        (forall|j: int| 0 <= j < params.0.len() ==> params.0[j] != k) && params.1 != Some(k)
        implies (ctx.contains_key(k) == captured.contains_key(k)
            && (captured.contains_key(k) ==> ctx[k] == captured[k])) by {
        lemma_bind_regular_other(captured, names, args, names.len() as int, k);
    }
}

/// Binds the arguments of a call of a function literal to its parameters,
/// on top of the context the literal was made in: each regular parameter
/// to its argument, and the rest parameter, if there is one, to a list of
/// the arguments left over.
pub fn bind_arguments(params: &FnParams, captured: &EvalContext, args: &Vec<PtrValue>) -> (res: Result<EvalContext, BindError>)
    ensures
        res is Ok <==> spec_params_arity(params.spec_view()).spec_supports(args@.len() as int),
        ({
            let (names, rest) = params.spec_view();
            match res {
                Err(BindError::NotEnoughArguments) => args@.len() < names.len(),
                Err(BindError::TooManyArguments) => args@.len() > names.len() && rest is None,
                Ok(ctx) => binds(params.spec_view(), captured@, args@, ctx@),
            }
        }),
{
    let ghost names = params.spec_view().0;
    let n = params.regular.len();
    if args.len() < n {
        return Err(BindError::NotEnoughArguments);
    }
    if params.variadic.is_none() && args.len() > n {
        return Err(BindError::TooManyArguments);
    }
    let mut ctx = captured.clone();
    let mut i: usize = 0;
    while i < n
        invariant
            0 <= i <= n,
            n == params.regular@.len(),
            n <= args@.len(),
            names == params.spec_view().0,
            names.len() == n,
            forall|j: int| 0 <= j < n ==> #[trigger] names[j] == params.regular@[j]@,
            ctx@ == bind_regular(captured@, names, args@, i as int),
        decreases n - i,
    {
        ctx.insert_local(params.regular[i].clone(), args[i].clone());
        i += 1;
    }
    match &params.variadic {
        Some(name) => {
            let mut rest: Vec<PtrValue> = Vec::new();
            let mut j: usize = n;
            while j < args.len()
                invariant
                    n <= j <= args@.len(),
                    rest@ == args@.subrange(n as int, j as int),
                decreases args@.len() - j,
            {
                rest.push(args[j].clone());
                j += 1;
                assert(rest@ =~= args@.subrange(n as int, j as int));
            }
            let rest_list = Value::list_ptr(List::from_vec(rest));
            ctx.insert_local(name.clone(), rest_list);
            Ok(ctx)
        },
        None => Ok(ctx),
    }
}

/// The special form a list stands for, if its head names one.
pub enum SpecialForm {
    /// `(let* [name init ...] body ...)`
    LetStar,
    /// `(fn* [params] body ...)` or `(fn* ([params] body ...) ...)`
    FnStar,
    /// `(do expr ...)`
    Do,
}

/// The special form a list whose head is a bare symbol named `name` stands
/// for.
pub open spec fn spec_special_form(items: Seq<PtrValue>) -> Option<SpecialForm> {
    if items.len() > 0 && is_bare_symbol(*items[0]) {
        let name = bare_symbol_name(*items[0]);
        if name == seq!['l', 'e', 't', '*'] {
            Some(SpecialForm::LetStar)
        } else if name == seq!['f', 'n', '*'] {
            Some(SpecialForm::FnStar)
        } else if name == seq!['d', 'o'] {
            Some(SpecialForm::Do)
        } else {
            None
        }
    } else {
        None
    }
}

/// The special form `list` stands for, if its head names one.
pub fn special_form(list: &List) -> (res: Option<SpecialForm>)
    ensures
        res == spec_special_form(list@),
{
    let head = match list.get_first_ref() {
        Some(h) => h,
        None => {
            return None;
        },
    };
    match head {
        Value::Symbol(Symbol::Unqualified(sym), _) => {
            let name = sym.name_as_string();
            let let_star = "let*".to_owned();
            let fn_star = "fn*".to_owned();
            let do_name = "do".to_owned();
            proof {
                reveal_strlit("let*");
                reveal_strlit("fn*");
                reveal_strlit("do");
                assert(let_star@ =~= seq!['l', 'e', 't', '*']);
                assert(fn_star@ =~= seq!['f', 'n', '*']);
                assert(do_name@ =~= seq!['d', 'o']);
            }
            if *name == let_star {
                Some(SpecialForm::LetStar)
            } else if *name == fn_star {
                Some(SpecialForm::FnStar)
            } else if *name == do_name {
                Some(SpecialForm::Do)
            } else {
                None
            }
        },
        _ => None,
    }
}

/// The name a binding form binds, if it is a bare symbol.
pub fn binding_name(v: &Value) -> (res: Option<String>)
    ensures
        is_bare_symbol(*v) ==> (res matches Some(s) && s@ == bare_symbol_name(*v)),
        !is_bare_symbol(*v) ==> res is None,
{
    match v {
        Value::Symbol(Symbol::Unqualified(sym), _) => Some(sym.name_as_string().clone()),
        _ => None,
    }
}

/// The body of a `do` form: all its elements after the head.
pub fn do_body(list: &List) -> (res: Vec<PtrValue>)
    ensures
        list@.len() == 0 ==> res@.len() == 0,
        list@.len() > 0 ==> res@ == list@.drop_first(),
{
    list.rest().items()
}

/// A `let*` form that is not well formed.
#[derive(Debug)]
pub enum LetStarError {
    /// The second element is missing or is not a vector.
    NotABindingVector,
    /// The binding vector has an odd number of elements.
    OddBindingCount,
}

/// Splits a `let*` form into its binding vector and its body.
pub fn let_star_form(list: &List) -> (res: Result<(Vector, Vec<PtrValue>), LetStarError>)
    ensures
        match res {
            Ok((bindings, body)) => list@.len() >= 2
                && (*list@[1] matches Value::Vector(v, _) && bindings@ == v@)
                && bindings@.len() % 2 == 0
                && body@ == list@.subrange(2, list@.len() as int),
            Err(LetStarError::NotABindingVector) => list@.len() < 2 || !(*list@[1] is Vector),
            Err(LetStarError::OddBindingCount) => list@.len() >= 2
                && (*list@[1] matches Value::Vector(v, _) && v@.len() % 2 == 1),
        },
{
    let second = match list.get_second_ref() {
        Some(s) => s,
        None => {
            return Err(LetStarError::NotABindingVector);
        },
    };
    match second {
        Value::Vector(bindings, _) => {
            if bindings.len() % 2 != 0 {
                return Err(LetStarError::OddBindingCount);
            }
            let items = list.items();
            let mut body: Vec<PtrValue> = Vec::new();
            let mut i: usize = 2;
            while i < items.len()
                invariant
                    2 <= i <= items@.len(),
                    items@ == list@,
                    body@ == list@.subrange(2, i as int),
                decreases items@.len() - i,
            {
                body.push(items[i].clone());
                i += 1;
                assert(body@ =~= list@.subrange(2, i as int));
            }
            Ok((bindings.clone_exact(), body))
        },
        _ => Err(LetStarError::NotABindingVector),
    }
}


/// The parameter names that a parameter vector of bare symbols gives.
pub open spec fn params_of(items: Seq<PtrValue>) -> (Seq<Seq<char>>, Option<Seq<char>>) {
    let s = params_fold(symbol_names(items), items.len() as int);
    (s.0, s.1)
}

/// Whether every element of a vector is a bare symbol.
pub fn all_symbols(v: &Vector) -> (res: bool)
    ensures
        res == all_bare_symbols(v@),
{
    let mut i: usize = 0;
    while i < v.len()
        invariant
            0 <= i <= v@.len(),
            forall|j: int| 0 <= j < i ==> is_bare_symbol(#[trigger] *v@[j]),
        decreases v@.len() - i,
    {
        match v.get_nth_ref(i) {
            Some(Value::Symbol(Symbol::Unqualified(_), _)) => {},
            _ => {
                return false;
            },
        }
        i += 1;
    }
    true
}

/// A `fn*` form that is not well formed.
#[derive(Debug)]
pub enum FnStarError {
    /// There is nothing after `fn*`.
    MissingParameters,
    /// What follows `fn*` is neither a parameter vector nor a list.
    NotParameters,
    /// In the many-arity form, an arity is not a list.
    FormNotAList,
    /// In the many-arity form, an arity does not start with a parameter vector.
    ParamsNotAVector,
    /// A parameter is not a bare symbol.
    ParamNotASymbol,
}

/// One arity of a function literal, as parameter names and body.
pub type ArityForm = ((Seq<Seq<char>>, Option<Seq<char>>), Seq<PtrValue>);

/// The arity one arity form of a many-arity `fn*` gives: none for an
/// empty form.
pub open spec fn spec_arity_form(form: Value) -> Result<Option<ArityForm>, FnStarError> {
    match form {
        Value::List(fl, _) => if fl@.len() == 0 {
            Ok(None)
        } else {
            match *fl@[0] {
                Value::Vector(pv, _) => if all_bare_symbols(pv@) {
                    Ok(Some((params_of(pv@), fl@.drop_first())))
                } else {
                    Err(FnStarError::ParamNotASymbol)
                },
                _ => Err(FnStarError::ParamsNotAVector),
            }
        },
        _ => Err(FnStarError::FormNotAList),
    }
}

/// The arities that the first `n` arity forms of a many-arity `fn*` give.
pub open spec fn parse_arity_forms(forms: Seq<PtrValue>, n: int) -> Result<Seq<ArityForm>, FnStarError>
    decreases n,
{
    if n <= 0 {
        Ok(Seq::empty())
    } else {
        match parse_arity_forms(forms, n - 1) {
            Err(e) => Err(e),
            Ok(acc) => match spec_arity_form(*forms[n - 1]) {
                Err(e) => Err(e),
                Ok(None) => Ok(acc),
                Ok(Some(a)) => Ok(acc.push(a)),
            },
        }
    }
}

/// Reads one arity form of a many-arity `fn*`.
fn arity_form(form: &Value) -> (res: Result<Option<(FnParams, Vec<PtrValue>)>, FnStarError>)
    ensures
        match res {
            Ok(Some(a)) => spec_arity_form(*form) == Ok::<Option<ArityForm>, FnStarError>(Some((a.0.spec_view(), a.1@))),
            Ok(None) => spec_arity_form(*form) == Ok::<Option<ArityForm>, FnStarError>(None),
            Err(e) => spec_arity_form(*form) == Err::<Option<ArityForm>, FnStarError>(e),
        },
{
    match form {
        Value::List(form_list, _) => match form_list.get_first_ref() {
            Some(Value::Vector(params_vec, _)) => {
                if !all_symbols(params_vec) {
                    return Err(FnStarError::ParamNotASymbol);
                }
                let params = extract_params(params_vec);
                let body = form_list.rest().items();
                Ok(Some((params, body)))
            },
            Some(_) => Err(FnStarError::ParamsNotAVector),
            None => Ok(None),
        },
        _ => Err(FnStarError::FormNotAList),
    }
}

/// Once reading the arity forms has failed, reading more of them fails
/// with the same error.
proof fn lemma_parse_error_sticks(forms: Seq<PtrValue>, m: int, n: int)
    requires
        0 < m <= n,
        parse_arity_forms(forms, m) is Err,
    ensures
        parse_arity_forms(forms, n) == parse_arity_forms(forms, m),
    decreases n - m,
{
    if m < n {
        lemma_parse_error_sticks(forms, m, n - 1);
    }
}

/// The arities a `fn*` form gives: one for `(fn* [params] body ...)`, one
/// per arity form for `(fn* ([params] body ...) ...)`.
pub open spec fn spec_fn_star(items: Seq<PtrValue>) -> Result<Seq<ArityForm>, FnStarError> {
    if items.len() < 2 {
        Err(FnStarError::MissingParameters)
    } else {
        match *items[1] {
            Value::Vector(pv, _) => if all_bare_symbols(pv@) {
                Ok(seq![(params_of(pv@), items.subrange(2, items.len() as int))])
            } else {
                Err(FnStarError::ParamNotASymbol)
            },
            Value::List(_, _) => parse_arity_forms(items.drop_first(), items.len() - 1),
            _ => Err(FnStarError::NotParameters),
        }
    }
}

/// The arity forms that parsed arities stand for.
pub open spec fn arities_view(v: Seq<(FnParams, Vec<PtrValue>)>) -> Seq<ArityForm> {
    Seq::new(v.len(), |i: int| (v[i].0.spec_view(), v[i].1@))
}

/// The part of a list from index `from` on.
fn tail_from(list: &List, from: usize) -> (res: Vec<PtrValue>)
    requires
        from <= list@.len(),
    ensures
        res@ == list@.subrange(from as int, list@.len() as int),
{
    let items = list.items();
    let mut res: Vec<PtrValue> = Vec::new();
    let mut i: usize = from;
    while i < items.len()
        invariant
            from <= i <= items@.len(),
            items@ == list@,
            res@ == list@.subrange(from as int, i as int),
        decreases items@.len() - i,
    {
        res.push(items[i].clone());
        i += 1;
        assert(res@ =~= list@.subrange(from as int, i as int));
    }
    res
}

/// Reads the arities of a `fn*` form.
pub fn fn_star_arities(list: &List) -> (res: Result<Vec<(FnParams, Vec<PtrValue>)>, FnStarError>)
    ensures
        match res {
            Ok(arities) => spec_fn_star(list@) == Ok::<Seq<ArityForm>, FnStarError>(arities_view(arities@)),
            Err(e) => spec_fn_star(list@) == Err::<Seq<ArityForm>, FnStarError>(e),
        },
{
    let second = match list.get_second_ref() {
        Some(s) => s,
        None => {
            return Err(FnStarError::MissingParameters);
        },
    };
    match second {
        Value::Vector(params_vec, _) => {
            if !all_symbols(params_vec) {
                return Err(FnStarError::ParamNotASymbol);
            }
            let params = extract_params(params_vec);
            let body = tail_from(list, 2);
            let mut arities: Vec<(FnParams, Vec<PtrValue>)> = Vec::new();
            arities.push((params, body));
            assert(arities_view(arities@) =~= seq![(params_of(params_vec@), list@.subrange(2, list@.len() as int))]);
            Ok(arities)
        },
        Value::List(_, _) => {
            let forms = tail_from(list, 1);
            let ghost fs = list@.drop_first();
            assert(forms@ =~= fs);
            let mut arities: Vec<(FnParams, Vec<PtrValue>)> = Vec::new();
            assert(arities_view(arities@) =~= Seq::<ArityForm>::empty());
            let mut i: usize = 0;
            while i < forms.len()
                invariant
                    0 <= i <= forms@.len(),
                    forms@ == fs,
                    fs.len() == list@.len() - 1,
                    parse_arity_forms(fs, i as int) == Ok::<Seq<ArityForm>, FnStarError>(arities_view(arities@)),
                    spec_fn_star(list@) == parse_arity_forms(fs, fs.len() as int),
                decreases forms@.len() - i,
            {
                match arity_form(&*forms[i]) {
                    Ok(Some(arity)) => {
                        let ghost before = arities_view(arities@);
                        let ghost av = (arity.0.spec_view(), arity.1@);
                        arities.push(arity);
                        assert(arities_view(arities@) =~= before.push(av));
                    },
                    Ok(None) => {},
                    Err(e) => {
                        proof {
                            assert(*fs[i as int] == *forms@[i as int]);
                            assert(parse_arity_forms(fs, i as int + 1) == Err::<Seq<ArityForm>, FnStarError>(e));
                            lemma_parse_error_sticks(fs, i as int + 1, fs.len() as int);
                        }
                        return Err(e);
                    },
                }
                i += 1;
            }
            Ok(arities)
        },
        _ => Err(FnStarError::NotParameters),
    }
}

} // verus!
