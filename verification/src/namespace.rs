//! Namespaces: named tables of vars, together with the aliases, imports and
//! refers that a namespace declares.
use vstd::prelude::*;
use std::sync::Arc;
use crate::bindings::Bindings;
use crate::function::PtrFunction;
use crate::handle::{Handle, NamespaceHandle};
use crate::symbol::{SymbolQualified, SymbolUnqualified};
use crate::value::{PtrValue, Value};
use crate::var::{PtrVar, Var};

pub mod optics;

verus! {

/// A reference-counted pointer to a [`Namespace`].
pub type PtrNamespace = Arc<Namespace>;

/// The vars of a namespace, by name.
pub type Vars = Bindings<SymbolUnqualified, PtrVar>;

/// The aliases of a namespace: each alias names another namespace.
pub type Aliases = Bindings<SymbolUnqualified, SymbolUnqualified>;

/// The imports of a namespace: each short name stands for a fully
/// qualified name.
pub type Imports = Bindings<SymbolUnqualified, String>;

/// The vars that a namespace refers to from other namespaces, by name.
pub type Refers = Bindings<SymbolUnqualified, PtrVar>;

/// A named table of vars.
pub struct Namespace {
    pub(crate) name: SymbolUnqualified,
    pub(crate) vars: Vars,
    pub(crate) aliases: Aliases,
    pub(crate) imports: Imports,
    pub(crate) refers: Refers,
}

/// No var of the given fully qualified name exists.
pub enum GetVarError {
    NoSuchVar(SymbolQualified),
}

/// The value of a var could not be had.
pub enum GetValueError {
    /// No var of this fully qualified name exists.
    NoSuchVar(SymbolQualified),
    /// The var of this fully qualified name is bound to nothing.
    UnboundVar(SymbolQualified),
}

/// A handle could not be had from a var.
pub enum GetHandleError {
    /// No var of this fully qualified name exists.
    NoSuchVar(SymbolQualified),
    /// The var of this fully qualified name is bound to nothing.
    UnboundVar(SymbolQualified),
    /// The var of this fully qualified name is bound to something that is
    /// not a handle.
    IncorrectValueType(SymbolQualified),
    /// The var of this fully qualified name is bound to a handle of another
    /// kind than the one asked for.
    IncorrectHandleType(SymbolQualified),
}

/// A function could not be had from a var.
pub enum GetFunctionError {
    /// No var of this fully qualified name exists.
    NoSuchVar(SymbolQualified),
    /// The var of this fully qualified name is bound to nothing.
    UnboundVar(SymbolQualified),
    /// The var of this fully qualified name is bound to something that is
    /// not a function.
    IncorrectValueType(SymbolQualified),
}

/// What a namespace is: its name, and its tables of vars, aliases,
/// imports and referred vars.
pub type NamespaceView = (
    Seq<char>,
    Map<Seq<char>, PtrVar>,
    Map<Seq<char>, SymbolUnqualified>,
    Map<Seq<char>, String>,
    Map<Seq<char>, PtrVar>,
);

/// The fully qualified name `(namespace, name)` of a var of a namespace.
pub open spec fn fqn(ns: Seq<char>, name: Seq<char>) -> (Seq<char>, Seq<char>) {
    (ns, name)
}

/// The handle a value holds, if it is a handle; nothing for no value.
pub open spec fn value_handle(v: Option<PtrValue>) -> Option<Handle> {
    match v {
        Some(v) => match *v {
            Value::Handle(h, _) => Some(h),
            _ => None,
        },
        None => None,
    }
}

/// The function a value holds, if it is a function; nothing for no value.
pub open spec fn value_function(v: Option<PtrValue>) -> Option<PtrFunction> {
    match v {
        Some(v) => match *v {
            Value::Function(f, _) => Some(f),
            _ => None,
        },
        None => None,
    }
}

impl Namespace {
    /// What the var `name` of the namespace is bound to; nothing where the
    /// var is missing or unbound.
    pub open spec fn bound_value(&self, name: Seq<char>) -> Option<PtrValue> {
        if self.spec_vars().contains_key(name) {
            self.spec_vars()[name].spec_value()
        } else {
            None
        }
    }

    /// The name of the namespace.
    pub closed spec fn spec_name(&self) -> Seq<char> {
        self.name@
    }

    /// The name of the namespace, as a symbol.
    pub closed spec fn spec_name_symbol(&self) -> SymbolUnqualified {
        self.name
    }

    /// The vars of the namespace, by name.
    pub closed spec fn spec_vars(&self) -> Map<Seq<char>, PtrVar> {
        self.vars@
    }

    /// The aliases of the namespace, by alias.
    pub closed spec fn spec_aliases(&self) -> Map<Seq<char>, SymbolUnqualified> {
        self.aliases@
    }

    /// The imports of the namespace, by short name.
    pub closed spec fn spec_imports(&self) -> Map<Seq<char>, String> {
        self.imports@
    }

    /// The referred vars of the namespace, by name.
    pub closed spec fn spec_refers(&self) -> Map<Seq<char>, PtrVar> {
        self.refers@
    }

    /// The name and the tables of the namespace.
    pub open spec fn spec_view(&self) -> NamespaceView {
        (self.spec_name(), self.spec_vars(), self.spec_aliases(), self.spec_imports(), self.spec_refers())
    }

    /// Whether two namespaces have the same name and the same tables.
    pub open spec fn same_as(&self, other: &Namespace) -> bool {
        &&& self.spec_name() == other.spec_name()
        &&& self.spec_vars() == other.spec_vars()
        &&& self.spec_aliases() == other.spec_aliases()
        &&& self.spec_imports() == other.spec_imports()
        &&& self.spec_refers() == other.spec_refers()
    }

    /// A namespace made of the given name and tables.
    pub fn new(name: SymbolUnqualified, vars: Vars, aliases: Aliases, imports: Imports, refers: Refers) -> (res: Self)
        ensures
            res.spec_name() == name@,
            res.spec_vars() == vars@,
            res.spec_aliases() == aliases@,
            res.spec_imports() == imports@,
            res.spec_refers() == refers@,
    {
        Namespace { name, vars, aliases, imports, refers }
    }

    /// A namespace of the given name with empty tables.
    pub fn new_empty(name: &str) -> (res: Self)
        ensures
            res.spec_name() == name@,
            res.spec_vars() == Map::<Seq<char>, PtrVar>::empty(),
            res.spec_aliases() == Map::<Seq<char>, SymbolUnqualified>::empty(),
            res.spec_imports() == Map::<Seq<char>, String>::empty(),
            res.spec_refers() == Map::<Seq<char>, PtrVar>::empty(),
    {
        Namespace {
            name: SymbolUnqualified::new(name),
            vars: Bindings::new_empty(),
            aliases: Bindings::new_empty(),
            imports: Bindings::new_empty(),
            refers: Bindings::new_empty(),
        }
    }

    /// A pointer to a namespace of the given name with empty tables.
    pub fn new_empty_ptr(name: &str) -> (res: PtrNamespace)
        ensures
            res.spec_name() == name@,
            res.spec_vars() == Map::<Seq<char>, PtrVar>::empty(),
            res.spec_aliases() == Map::<Seq<char>, SymbolUnqualified>::empty(),
            res.spec_imports() == Map::<Seq<char>, String>::empty(),
            res.spec_refers() == Map::<Seq<char>, PtrVar>::empty(),
    {
        Arc::new(Self::new_empty(name))
    }

    /// The name of the namespace.
    pub fn name_str(&self) -> (res: &str)
        ensures
            res@ == self.spec_name(),
    {
        self.name.name()
    }

    /// The name of the namespace, as a symbol.
    pub fn name_symbol(&self) -> (res: SymbolUnqualified)
        ensures
            res@ == self.spec_name(),
            res == self.spec_name_symbol(),
    {
        self.name.clone()
    }

    /// A copy of the vars of the namespace.
    pub fn vars(&self) -> (res: Vars)
        ensures
            res@ == self.spec_vars(),
    {
        self.vars.clone()
    }

    /// A copy of the aliases of the namespace.
    pub fn aliases(&self) -> (res: Aliases)
        ensures
            res@ == self.spec_aliases(),
    {
        self.aliases.clone()
    }

    /// A copy of the imports of the namespace.
    pub fn imports(&self) -> (res: Imports)
        ensures
            res@ == self.spec_imports(),
    {
        self.imports.clone()
    }

    /// A copy of the referred vars of the namespace.
    pub fn refers(&self) -> (res: Refers)
        ensures
            res@ == self.spec_refers(),
    {
        self.refers.clone()
    }

    /// The vars of the namespace as pairs of name and var, each name once.
    pub fn entries(&self) -> (res: Vec<(String, PtrVar)>)
        ensures
            res@.len() == self.spec_vars().dom().len(),
            forall|i: int| 0 <= i < res@.len() ==> #[trigger] self.spec_vars().contains_key(res@[i].0@)
                && self.spec_vars()[res@[i].0@] == res@[i].1,
            forall|k: Seq<char>| #[trigger] self.spec_vars().contains_key(k)
                ==> exists|i: int| 0 <= i < res@.len() && res@[i].0@ == k,
            forall|i: int, j: int| 0 <= i < res@.len() && 0 <= j < res@.len() && i != j
                ==> #[trigger] res@[i].0@ != #[trigger] res@[j].0@,
    {
        self.vars.entries_list()
    }

    /// Whether a var of the given name exists in the namespace.
    pub fn contains_var(&self, name: &str) -> (res: bool)
        ensures
            res == self.spec_vars().contains_key(name@),
    {
        self.vars.contains(name)
    }

    /// The var of the given name.
    pub fn try_get_var(&self, name: &str) -> (res: Result<PtrVar, GetVarError>)
        ensures
            match res {
                Ok(var) => self.spec_vars().contains_key(name@) && var == self.spec_vars()[name@],
                Err(GetVarError::NoSuchVar(fq)) => !self.spec_vars().contains_key(name@)
                    && fq@ == fqn(self.spec_name(), name@),
            },
    {
        match self.vars.get(name) {
            Some(var) => Ok(var.clone()),
            None => Err(GetVarError::NoSuchVar(SymbolQualified::new(self.name.name(), name))),
        }
    }

    /// Binds `name` to `var`, replacing any var of that name.
    pub fn insert_var(&mut self, name: &str, var: PtrVar)
        ensures
            final(self).spec_vars() == old(self).spec_vars().insert(name@, var),
            final(self).spec_name() == old(self).spec_name(),
            final(self).spec_aliases() == old(self).spec_aliases(),
            final(self).spec_imports() == old(self).spec_imports(),
            final(self).spec_refers() == old(self).spec_refers(),
    {
        self.vars.insert(SymbolUnqualified::new(name), var);
    }

    /// Removes the var of the given name, if there is one.
    pub fn remove_var(&mut self, name: &str)
        ensures
            final(self).spec_vars() == old(self).spec_vars().remove(name@),
            final(self).spec_name() == old(self).spec_name(),
            final(self).spec_aliases() == old(self).spec_aliases(),
            final(self).spec_imports() == old(self).spec_imports(),
            final(self).spec_refers() == old(self).spec_refers(),
    {
        let _ = self.vars.remove(name);
    }

    /// The value the var of the given name is bound to.
    pub fn try_get_value(&self, name: &str) -> (res: Result<PtrValue, GetValueError>)
        ensures
            match res {
                Ok(v) => self.spec_vars().contains_key(name@)
                    && self.spec_vars()[name@].spec_value() == Some(v),
                Err(GetValueError::NoSuchVar(fq)) => !self.spec_vars().contains_key(name@)
                    && fq@ == fqn(self.spec_name(), name@),
                Err(GetValueError::UnboundVar(fq)) => self.spec_vars().contains_key(name@)
                    && self.spec_vars()[name@].spec_value() is None
                    && fq@ == fqn(self.spec_name(), name@),
            },
    {
        match self.vars.get(name) {
            Some(var) => match var.deref() {
                Some(v) => Ok(v),
                None => Err(GetValueError::UnboundVar(SymbolQualified::new(self.name.name(), name))),
            },
            None => Err(GetValueError::NoSuchVar(SymbolQualified::new(self.name.name(), name))),
        }
    }

    /// The value the var of the given name is bound to; the var must exist
    /// and be bound.
    pub fn get_value_or_panic(&self, name: &str) -> (res: PtrValue)
        requires
            self.spec_vars().contains_key(name@),
            self.spec_vars()[name@].spec_value() is Some,
        ensures
            Some(res) == self.spec_vars()[name@].spec_value(),
    {
        match self.try_get_value(name) {
            Ok(v) => v,
            Err(_) => {
                proof {
                    assert(false);
                }
                Value::nil_ptr()
            },
        }
    }

    /// Binds the var of the given name to `value`: an existing var keeps its
    /// metadata, and a missing var is created.
    pub fn bind_value_ptr(&mut self, name: &str, value: PtrValue)
        ensures
            final(self).spec_vars().dom() == old(self).spec_vars().dom().insert(name@),
            final(self).spec_vars()[name@].spec_value() == Some(value),
            old(self).spec_vars().contains_key(name@) ==> final(self).spec_vars()[name@].spec_meta()
                == old(self).spec_vars()[name@].spec_meta(),
            !old(self).spec_vars().contains_key(name@) ==> final(self).spec_vars()[name@].spec_meta() is None,
            forall|k: Seq<char>| k != name@ && #[trigger] old(self).spec_vars().contains_key(k)
                ==> final(self).spec_vars()[k] == old(self).spec_vars()[k],
            final(self).spec_name() == old(self).spec_name(),
            final(self).spec_aliases() == old(self).spec_aliases(),
            final(self).spec_imports() == old(self).spec_imports(),
            final(self).spec_refers() == old(self).spec_refers(),
    {
        let meta = match self.vars.get(name) {
            Some(var) => var.meta(),
            None => None,
        };
        let new_var = Var::new_bound_ptr(value).with_meta(meta);
        self.vars.insert(SymbolUnqualified::new(name), Arc::new(new_var));
    }

    /// Binds the var of the given name to `value`, as [`Namespace::bind_value_ptr`] does.
    pub fn bind_value(&mut self, name: &str, value: Value)
        ensures
            final(self).spec_vars().dom() == old(self).spec_vars().dom().insert(name@),
            final(self).spec_vars()[name@].spec_value() == Some(Arc::new(value)),
            old(self).spec_vars().contains_key(name@) ==> final(self).spec_vars()[name@].spec_meta()
                == old(self).spec_vars()[name@].spec_meta(),
            !old(self).spec_vars().contains_key(name@) ==> final(self).spec_vars()[name@].spec_meta() is None,
            forall|k: Seq<char>| k != name@ && #[trigger] old(self).spec_vars().contains_key(k)
                ==> final(self).spec_vars()[k] == old(self).spec_vars()[k],
            final(self).spec_name() == old(self).spec_name(),
            final(self).spec_aliases() == old(self).spec_aliases(),
            final(self).spec_imports() == old(self).spec_imports(),
            final(self).spec_refers() == old(self).spec_refers(),
    {
        self.bind_value_ptr(name, Arc::new(value));
    }

    /// Binds the var of the given name to a value holding `handle`.
    pub fn bind_handle(&mut self, name: &str, handle: Handle)
        ensures
            final(self).spec_vars().dom() == old(self).spec_vars().dom().insert(name@),
            final(self).spec_vars()[name@].spec_value() == Some(Arc::new(Value::Handle(handle, None))),
            forall|k: Seq<char>| k != name@ && #[trigger] old(self).spec_vars().contains_key(k)
                ==> final(self).spec_vars()[k] == old(self).spec_vars()[k],
            final(self).spec_name() == old(self).spec_name(),
            final(self).spec_aliases() == old(self).spec_aliases(),
            final(self).spec_imports() == old(self).spec_imports(),
            final(self).spec_refers() == old(self).spec_refers(),
    {
        self.bind_value(name, Value::Handle(handle, None));
    }

    /// The handle the var of the given name is bound to.
    pub fn try_get_handle(&self, name: &str) -> (res: Result<Handle, GetHandleError>)
        ensures
            match res {
                Ok(h) => self.spec_vars().contains_key(name@)
                    && value_handle(self.bound_value(name@)) == Some(h),
                Err(GetHandleError::NoSuchVar(fq)) => !self.spec_vars().contains_key(name@)
                    && fq@ == fqn(self.spec_name(), name@),
                Err(GetHandleError::UnboundVar(fq)) => self.spec_vars().contains_key(name@)
                    && self.spec_vars()[name@].spec_value() is None
                    && fq@ == fqn(self.spec_name(), name@),
                Err(GetHandleError::IncorrectValueType(fq)) => self.spec_vars().contains_key(name@)
                    && self.bound_value(name@) is Some
                    && value_handle(self.bound_value(name@)) is None
                    && fq@ == fqn(self.spec_name(), name@),
                Err(GetHandleError::IncorrectHandleType(_)) => false,
            },
    {
        match self.try_get_value(name) {
            Ok(v) => match &*v {
                Value::Handle(h, _) => Ok(h.clone_exact()),
                _ => Err(GetHandleError::IncorrectValueType(SymbolQualified::new(self.name.name(), name))),
            },
            Err(GetValueError::NoSuchVar(fq)) => Err(GetHandleError::NoSuchVar(fq)),
            Err(GetValueError::UnboundVar(fq)) => Err(GetHandleError::UnboundVar(fq)),
        }
    }

    /// The namespace handle the var of the given name is bound to.
    pub fn try_get_namespace_handle(&self, name: &str) -> (res: Result<NamespaceHandle, GetHandleError>)
        ensures
            match res {
                Ok(n) => self.spec_vars().contains_key(name@)
                    && value_handle(self.bound_value(name@)) == Some(Handle::Namespace(n)),
                Err(GetHandleError::NoSuchVar(fq)) => !self.spec_vars().contains_key(name@)
                    && fq@ == fqn(self.spec_name(), name@),
                Err(GetHandleError::UnboundVar(fq)) => self.spec_vars().contains_key(name@)
                    && self.spec_vars()[name@].spec_value() is None
                    && fq@ == fqn(self.spec_name(), name@),
                Err(GetHandleError::IncorrectValueType(fq)) => self.spec_vars().contains_key(name@)
                    && self.bound_value(name@) is Some
                    && value_handle(self.bound_value(name@)) is None
                    && fq@ == fqn(self.spec_name(), name@),
                Err(GetHandleError::IncorrectHandleType(fq)) => self.spec_vars().contains_key(name@)
                    && value_handle(self.bound_value(name@)) is Some
                    && !(value_handle(self.bound_value(name@)).unwrap() is Namespace)
                    && fq@ == fqn(self.spec_name(), name@),
            },
    {
        match self.try_get_handle(name) {
            Ok(Handle::Namespace(n)) => Ok(n),
            Ok(_) => Err(GetHandleError::IncorrectHandleType(SymbolQualified::new(self.name.name(), name))),
            Err(e) => Err(e),
        }
    }

    /// The function the var of the given name is bound to.
    pub fn try_get_function(&self, name: &str) -> (res: Result<PtrFunction, GetFunctionError>)
        ensures
            match res {
                Ok(f) => self.spec_vars().contains_key(name@)
                    && value_function(self.bound_value(name@)) == Some(f),
                Err(GetFunctionError::NoSuchVar(fq)) => !self.spec_vars().contains_key(name@)
                    && fq@ == fqn(self.spec_name(), name@),
                Err(GetFunctionError::UnboundVar(fq)) => self.spec_vars().contains_key(name@)
                    && self.spec_vars()[name@].spec_value() is None
                    && fq@ == fqn(self.spec_name(), name@),
                Err(GetFunctionError::IncorrectValueType(fq)) => self.spec_vars().contains_key(name@)
                    && self.bound_value(name@) is Some
                    && value_function(self.bound_value(name@)) is None
                    && fq@ == fqn(self.spec_name(), name@),
            },
    {
        match self.try_get_value(name) {
            Ok(v) => match &*v {
                Value::Function(f, _) => Ok(f.clone()),
                _ => Err(GetFunctionError::IncorrectValueType(SymbolQualified::new(self.name.name(), name))),
            },
            Err(GetValueError::NoSuchVar(fq)) => Err(GetFunctionError::NoSuchVar(fq)),
            Err(GetValueError::UnboundVar(fq)) => Err(GetFunctionError::UnboundVar(fq)),
        }
    }

    /// Makes `alias` stand for the namespace named `ns_name`.
    pub fn add_alias(&mut self, alias: &str, ns_name: &str)
        ensures
            final(self).spec_aliases().dom() == old(self).spec_aliases().dom().insert(alias@),
            final(self).spec_aliases()[alias@]@ == ns_name@,
            forall|k: Seq<char>| k != alias@ && #[trigger] old(self).spec_aliases().contains_key(k)
                ==> final(self).spec_aliases()[k] == old(self).spec_aliases()[k],
            final(self).spec_name() == old(self).spec_name(),
            final(self).spec_vars() == old(self).spec_vars(),
            final(self).spec_imports() == old(self).spec_imports(),
            final(self).spec_refers() == old(self).spec_refers(),
    {
        self.aliases.insert(SymbolUnqualified::new(alias), SymbolUnqualified::new(ns_name));
    }

    /// Removes the alias `alias`, if there is one.
    pub fn remove_alias(&mut self, alias: &str)
        ensures
            final(self).spec_aliases() == old(self).spec_aliases().remove(alias@),
            final(self).spec_name() == old(self).spec_name(),
            final(self).spec_vars() == old(self).spec_vars(),
            final(self).spec_imports() == old(self).spec_imports(),
            final(self).spec_refers() == old(self).spec_refers(),
    {
        let _ = self.aliases.remove(alias);
    }

    /// Makes the short name `name` stand for the fully qualified name `fqn`.
    pub fn add_import(&mut self, name: &str, fqn: String)
        ensures
            final(self).spec_imports() == old(self).spec_imports().insert(name@, fqn),
            final(self).spec_name() == old(self).spec_name(),
            final(self).spec_vars() == old(self).spec_vars(),
            final(self).spec_aliases() == old(self).spec_aliases(),
            final(self).spec_refers() == old(self).spec_refers(),
    {
        self.imports.insert(SymbolUnqualified::new(name), fqn);
    }

    /// Refers to `var` under `name`.
    pub fn add_refer(&mut self, name: &str, var: PtrVar)
        ensures
            final(self).spec_refers() == old(self).spec_refers().insert(name@, var),
            final(self).spec_name() == old(self).spec_name(),
            final(self).spec_vars() == old(self).spec_vars(),
            final(self).spec_aliases() == old(self).spec_aliases(),
            final(self).spec_imports() == old(self).spec_imports(),
    {
        self.refers.insert(SymbolUnqualified::new(name), var);
    }
}

impl Clone for Namespace {
    fn clone(&self) -> (res: Self)
        ensures
            res.same_as(self),
    {
        Namespace {
            name: self.name.clone(),
            vars: self.vars.clone(),
            aliases: self.aliases.clone(),
            imports: self.imports.clone(),
            refers: self.refers.clone(),
        }
    }
}

} // verus!
