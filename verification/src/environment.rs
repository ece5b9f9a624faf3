//! The environment: all namespaces, and where the current one is recorded.
use vstd::prelude::*;
use std::sync::Arc;
use crate::bindings::Bindings;
use crate::handle::{handle_same, Handle, NamespaceHandle};
use crate::namespace::{fqn, value_handle, GetHandleError, Namespace, PtrNamespace};
use crate::symbol::{SymbolQualified, SymbolUnqualified};
use crate::value::{PtrValue, Value};

verus! {

/// A reference-counted pointer to an [`Environment`].
pub type PtrEnvironment = Arc<Environment>;

/// The namespaces of an environment, by name.
pub type Namespaces = Bindings<SymbolUnqualified, PtrNamespace>;

/// Every namespace is held under its own name.
pub open spec fn keyed_by_name(m: Map<Seq<char>, PtrNamespace>) -> bool {
    forall|k: Seq<char>| #[trigger] m.contains_key(k) ==> m[k].spec_name() == k
}

/// All namespaces of the program, and the var that records which of them
/// is the current one.
pub struct Environment {
    pub(crate) table: Vec<PtrNamespace>,
    pub(crate) ids: Bindings<SymbolUnqualified, usize>,
    pub(crate) current_namespace_var: SymbolQualified,
    pub(crate) next_serial: u64,
}

/// Gathers what an [`Environment`] is made of before it is built.
pub struct EnvironmentBuilder {
    pub(crate) namespaces: Namespaces,
    pub(crate) current_namespace_var: Option<SymbolQualified>,
}

/// The current namespace could not be had.
pub enum GetCurrentNamespaceError {
    /// No namespace of this name exists.
    NoSuchNamespace(SymbolUnqualified),
    /// The var that records the current namespace does not exist.
    NoSuchVar(SymbolQualified),
    /// The var that records the current namespace is bound to nothing.
    UnboundVar(SymbolQualified),
    /// The var that records the current namespace is not bound to a handle.
    IncorrectValueType(SymbolQualified),
    /// The var that records the current namespace is bound to a handle that
    /// does not stand for a namespace.
    IncorrectHandleType(SymbolQualified),
}

/// The error of the current namespace that a handle error stands for.
pub open spec fn current_namespace_error_of(e: GetHandleError) -> GetCurrentNamespaceError {
    match e {
        GetHandleError::NoSuchVar(fq) => GetCurrentNamespaceError::NoSuchVar(fq),
        GetHandleError::UnboundVar(fq) => GetCurrentNamespaceError::UnboundVar(fq),
        GetHandleError::IncorrectValueType(fq) => GetCurrentNamespaceError::IncorrectValueType(fq),
        GetHandleError::IncorrectHandleType(fq) => GetCurrentNamespaceError::IncorrectHandleType(fq),
    }
}

impl From<GetHandleError> for GetCurrentNamespaceError {
    fn from(e: GetHandleError) -> (res: Self) {
        match e {
            GetHandleError::NoSuchVar(fq) => GetCurrentNamespaceError::NoSuchVar(fq),
            GetHandleError::UnboundVar(fq) => GetCurrentNamespaceError::UnboundVar(fq),
            GetHandleError::IncorrectValueType(fq) => GetCurrentNamespaceError::IncorrectValueType(fq),
            GetHandleError::IncorrectHandleType(fq) => GetCurrentNamespaceError::IncorrectHandleType(fq),
        }
    }
}

impl vstd::std_specs::convert::FromSpecImpl<GetHandleError> for GetCurrentNamespaceError {
    open spec fn obeys_from_spec() -> bool {
        true
    }

    open spec fn from_spec(e: GetHandleError) -> Self {
        current_namespace_error_of(e)
    }
}

/// Every name is given the number of a namespace of that name.
pub open spec fn namespace_table_ok(table: Seq<PtrNamespace>, ids: Map<Seq<char>, usize>) -> bool {
    forall|k: Seq<char>| #[trigger] ids.contains_key(k) ==> ids[k] < table.len() && table[ids[k] as int].spec_name() == k
}

/// The number the next handle gets after one numbered `s`.
pub open spec fn next_serial_after(s: u64) -> u64 {
    if s == u64::MAX {
        0
    } else {
        (s + 1) as u64
    }
}

/// Whether `a` and `b` hold the same namespaces under the same numbers and
/// names, and record the current namespace in the same var.
pub open spec fn same_namespaces(a: Environment, b: Environment) -> bool {
    &&& a.spec_table() == b.spec_table()
    &&& a.spec_ids() == b.spec_ids()
    &&& a.spec_current_namespace_var() == b.spec_current_namespace_var()
}

impl Environment {
    #[verifier::type_invariant]
    closed spec fn well_formed(self) -> bool {
        namespace_table_ok(self.table@, self.ids@)
    }

    /// Every namespace the environment has taken in, by number, including
    /// those since removed, each as it was last written.
    pub closed spec fn spec_table(&self) -> Seq<PtrNamespace> {
        self.table@
    }

    /// The number of the namespace each name stands for now.
    pub closed spec fn spec_ids(&self) -> Map<Seq<char>, usize> {
        self.ids@
    }

    /// The number the next handle will get.
    pub closed spec fn spec_next_serial(&self) -> u64 {
        self.next_serial
    }

    /// The namespaces of the environment, by name.
    pub open spec fn spec_namespaces(&self) -> Map<Seq<char>, PtrNamespace> {
        self.spec_ids().map_values(|i: usize| self.spec_table()[i as int])
    }

    /// The fully qualified name of the var that records the current namespace.
    pub closed spec fn spec_current_namespace_var(&self) -> (Seq<char>, Seq<char>) {
        self.current_namespace_var@
    }

    /// The namespace a handle reaches: the one the environment gave its
    /// number, even if it has since been removed.
    pub open spec fn spec_resolve(&self, h: NamespaceHandle) -> Option<PtrNamespace> {
        if h.id < self.spec_table().len() {
            Some(self.spec_table()[h.id as int])
        } else {
            None
        }
    }

    /// The namespace handle the current-namespace var holds, if it holds one.
    pub open spec fn spec_current_handle(&self) -> Option<NamespaceHandle> {
        let (ns, var) = self.spec_current_namespace_var();
        if self.spec_namespaces().contains_key(ns) {
            match value_handle(self.spec_namespaces()[ns].bound_value(var)) {
                Some(Handle::Namespace(h)) => Some(h),
                _ => None,
            }
        } else {
            None
        }
    }

    /// The current namespace: the one the handle in the current-namespace
    /// var reaches.
    pub open spec fn spec_current(&self) -> Option<PtrNamespace> {
        match self.spec_current_handle() {
            Some(h) => self.spec_resolve(h),
            None => None,
        }
    }

    /// Whether the current namespace can be had.
    pub open spec fn has_current_namespace(&self) -> bool {
        self.spec_current() is Some
    }

    /// A builder of an environment, with no namespaces and no
    /// current-namespace var yet.
    pub fn builder() -> (res: EnvironmentBuilder)
        ensures
            res.spec_namespaces() == Map::<Seq<char>, PtrNamespace>::empty(),
            res.spec_current_namespace_var() is None,
    {
        EnvironmentBuilder { namespaces: Bindings::new_empty(), current_namespace_var: None }
    }

    /// The var that records the current namespace.
    pub fn current_namespace_var(&self) -> (res: &SymbolQualified)
        ensures
            res@ == self.spec_current_namespace_var(),
    {
        &self.current_namespace_var
    }

    /// What looking up the current namespace gives, case by case: the
    /// namespace that holds the current-namespace var must exist, the var
    /// must exist in it and be bound to a handle that stands for a
    /// namespace, and the handle must reach a namespace of this environment;
    /// each failure has its own error, naming the namespace or the var.
    pub open spec fn current_namespace_outcome(&self, res: Result<PtrNamespace, GetCurrentNamespaceError>) -> bool {
        let (holder_name, var_name) = self.spec_current_namespace_var();
        let namespaces = self.spec_namespaces();
        if !namespaces.contains_key(holder_name) {
            res matches Err(GetCurrentNamespaceError::NoSuchNamespace(n)) && n@ == holder_name
        } else {
            let holder = namespaces[holder_name];
            let fq = fqn(holder_name, var_name);
            let bound = holder.bound_value(var_name);
            if !holder.spec_vars().contains_key(var_name) {
                res matches Err(GetCurrentNamespaceError::NoSuchVar(q)) && q@ == fq
            } else if bound is None {
                res matches Err(GetCurrentNamespaceError::UnboundVar(q)) && q@ == fq
            } else if value_handle(bound) is None {
                res matches Err(GetCurrentNamespaceError::IncorrectValueType(q)) && q@ == fq
            } else if !(value_handle(bound).unwrap() is Namespace) {
                res matches Err(GetCurrentNamespaceError::IncorrectHandleType(q)) && q@ == fq
            } else {
                let h = value_handle(bound).unwrap()->Namespace_0;
                match self.spec_resolve(h) {
                    Some(ns) => res == Ok::<PtrNamespace, GetCurrentNamespaceError>(ns),
                    None => res matches Err(GetCurrentNamespaceError::NoSuchNamespace(n)) && n@ == h.name@,
                }
            }
        }
    }

    /// The current namespace: the one the handle that the current-namespace
    /// var is bound to reaches.
    pub fn try_get_current_namespace(&self) -> (res: Result<PtrNamespace, GetCurrentNamespaceError>)
        ensures
            match res {
                Ok(ns) => self.spec_current() == Some(ns),
                Err(_) => self.spec_current() is None,
            },
            self.current_namespace_outcome(res),
    {
        let ns_name = self.current_namespace_var.namespace();
        let var_name = self.current_namespace_var.name();
        let ns = match self.try_get_namespace(ns_name) {
            Some(ns) => ns,
            None => {
                return Err(GetCurrentNamespaceError::NoSuchNamespace(SymbolUnqualified::new(ns_name)));
            },
        };
        match ns.try_get_namespace_handle(var_name) {
            Ok(h) => match self.resolve_namespace_handle(&h) {
                Some(current) => Ok(current),
                None => Err(GetCurrentNamespaceError::NoSuchNamespace(h.name.clone())),
            },
            Err(e) => Err(GetCurrentNamespaceError::from(e)),
        }
    }

    /// The current namespace, which must be had.
    pub fn get_current_namespace_or_panic(&self) -> (res: PtrNamespace)
        requires
            self.has_current_namespace(),
        ensures
            self.spec_current() == Some(res),
    {
        match self.try_get_current_namespace() {
            Ok(ns) => ns,
            Err(_) => vstd::pervasive::unreached(),
        }
    }

    /// The namespace a handle reaches, if it reaches one of this
    /// environment.
    pub fn resolve_namespace_handle(&self, h: &NamespaceHandle) -> (res: Option<PtrNamespace>)
        ensures
            res == self.spec_resolve(*h),
    {
        if h.id < self.table.len() {
            Some(self.table[h.id].clone())
        } else {
            None
        }
    }

    /// The namespace numbered `id`.
    pub fn namespace_at(&self, id: usize) -> (res: PtrNamespace)
        requires
            id < self.spec_table().len(),
        ensures
            res == self.spec_table()[id as int],
    {
        self.table[id].clone()
    }

    /// All namespaces of the environment, each once.
    pub fn all_namespaces(&self) -> (res: Vec<PtrNamespace>)
        ensures
            res@.len() == self.spec_namespaces().dom().len(),
            forall|ns: PtrNamespace| #[trigger] res@.contains(ns) <==> exists|k: Seq<char>|
                self.spec_namespaces().contains_key(k) && self.spec_namespaces()[k] == ns,
            forall|i: int| 0 <= i < res@.len() ==> self.spec_namespaces().contains_key((#[trigger] res@[i]).spec_name())
                && self.spec_namespaces()[res@[i].spec_name()] == res@[i],
            forall|k: Seq<char>| #[trigger] self.spec_namespaces().contains_key(k)
                ==> exists|i: int| 0 <= i < res@.len() && res@[i].spec_name() == k,
    {
        proof {
            use_type_invariant(self);
        }
        let ids = self.ids.values();
        let ghost m = self.spec_namespaces();
        assert(m.dom() =~= self.ids@.dom());
        let mut res: Vec<PtrNamespace> = Vec::new();
        let mut i: usize = 0;
        while i < ids.len()
            invariant
                0 <= i <= ids@.len(),
                res@.len() == i,
                namespace_table_ok(self.table@, self.ids@),
                forall|v: usize| #[trigger] ids@.contains(v) <==> exists|k: Seq<char>| self.ids@.contains_key(k) && self.ids@[k] == v,
                forall|j: int| 0 <= j < i ==> #[trigger] res@[j] == self.table@[ids@[j] as int],
            decreases ids@.len() - i,
        {
            assert(ids@.contains(ids@[i as int]));
            let id = ids[i];
            res.push(self.table[id].clone());
            i += 1;
        }
        proof {
            assert forall|j: int| 0 <= j < res@.len() implies m.contains_key((#[trigger] res@[j]).spec_name())
                && m[res@[j].spec_name()] == res@[j] by {
                assert(ids@.contains(ids@[j]));
                let k = choose|k: Seq<char>| self.ids@.contains_key(k) && self.ids@[k] == ids@[j];
                assert(self.table@[self.ids@[k] as int].spec_name() == k);
            }
            assert forall|ns: PtrNamespace| #[trigger] res@.contains(ns) <==> exists|k: Seq<char>|
                m.contains_key(k) && m[k] == ns by {
                if res@.contains(ns) {
                    let j = choose|j: int| 0 <= j < res@.len() && res@[j] == ns;
                    assert(m.contains_key(res@[j].spec_name()));
                }
                if exists|k: Seq<char>| m.contains_key(k) && m[k] == ns {
                    let k = choose|k: Seq<char>| m.contains_key(k) && m[k] == ns;
                    assert(exists|k2: Seq<char>| self.ids@.contains_key(k2) && self.ids@[k2] == self.ids@[k]);
                    assert(ids@.contains(self.ids@[k]));
                    let j = choose|j: int| 0 <= j < ids@.len() && ids@[j] == self.ids@[k];
                    assert(res@[j] == ns);
                }
            }
            assert forall|k: Seq<char>| #[trigger] m.contains_key(k)
                implies exists|i: int| 0 <= i < res@.len() && res@[i].spec_name() == k by {
                assert(exists|k2: Seq<char>| self.ids@.contains_key(k2) && self.ids@[k2] == self.ids@[k]);
                assert(ids@.contains(self.ids@[k]));
                let j = choose|j: int| 0 <= j < ids@.len() && ids@[j] == self.ids@[k];
                assert(self.table@[self.ids@[k] as int].spec_name() == k);
                assert(res@[j].spec_name() == k);
            }
        }
        res
    }

    /// Whether a namespace of the given name exists.
    pub fn has_namespace(&self, name: &str) -> (res: bool)
        ensures
            res == self.spec_namespaces().contains_key(name@),
    {
        self.ids.contains(name)
    }

    /// The number of the namespace of the given name, if it exists.
    pub fn namespace_id(&self, name: &str) -> (res: Option<usize>)
        ensures
            match res {
                Some(id) => self.spec_ids().contains_key(name@) && id == self.spec_ids()[name@]
                    && id < self.spec_table().len(),
                None => !self.spec_ids().contains_key(name@),
            },
    {
        proof {
            use_type_invariant(self);
        }
        match self.ids.get(name) {
            Some(id) => Some(*id),
            None => None,
        }
    }

    /// The namespace of the given name, if it exists.
    pub fn try_get_namespace(&self, name: &str) -> (res: Option<PtrNamespace>)
        ensures
            match res {
                Some(ns) => self.spec_namespaces().contains_key(name@)
                    && ns == self.spec_namespaces()[name@] && ns.spec_name() == name@,
                None => !self.spec_namespaces().contains_key(name@),
            },
    {
        proof {
            use_type_invariant(self);
        }
        match self.ids.get(name) {
            Some(id) => Some(self.table[*id].clone()),
            None => None,
        }
    }

    /// A new handle to the namespace of the given name, if it exists: it
    /// reaches that namespace, and it has a number no handle made just
    /// before it has.
    pub fn try_get_namespace_handle(&mut self, name: &str) -> (res: Option<Handle>)
        ensures
            match res {
                Some(h) => {
                    &&& old(self).spec_namespaces().contains_key(name@)
                    &&& h matches Handle::Namespace(n)
                    &&& n.name@ == name@
                    &&& n.id == old(self).spec_ids()[name@]
                    &&& n.serial == old(self).spec_next_serial()
                    &&& final(self).spec_resolve(n) == Some(old(self).spec_namespaces()[name@])
                    &&& final(self).spec_next_serial() == next_serial_after(old(self).spec_next_serial())
                },
                None => !old(self).spec_namespaces().contains_key(name@)
                    && final(self).spec_next_serial() == old(self).spec_next_serial(),
            },
            same_namespaces(*final(self), *old(self)),
            namespace_table_ok(final(self).spec_table(), final(self).spec_ids()),
    {
        proof {
            use_type_invariant(&*self);
        }
        let found = match self.ids.get(name) {
            Some(id) => Some(*id),
            None => None,
        };
        match found {
            Some(id) => {
                let h = NamespaceHandle { id, serial: self.next_serial, name: self.table[id].name_symbol() };
                self.next_serial = if self.next_serial == u64::MAX { 0 } else { self.next_serial + 1 };
                Some(Handle::Namespace(h))
            },
            None => None,
        }
    }

    /// A value holding a new handle to the namespace of the given name, if
    /// it exists.
    pub fn try_get_namespace_handle_value(&mut self, name: &str) -> (res: Option<PtrValue>)
        ensures
            match res {
                Some(v) => {
                    &&& old(self).spec_namespaces().contains_key(name@)
                    &&& *v matches Value::Handle(Handle::Namespace(n), None)
                    &&& n.name@ == name@
                    &&& n.serial == old(self).spec_next_serial()
                    &&& final(self).spec_resolve(n) == Some(old(self).spec_namespaces()[name@])
                    &&& final(self).spec_next_serial() == next_serial_after(old(self).spec_next_serial())
                },
                None => !old(self).spec_namespaces().contains_key(name@)
                    && final(self).spec_next_serial() == old(self).spec_next_serial(),
            },
            same_namespaces(*final(self), *old(self)),
    {
        match self.try_get_namespace_handle(name) {
            Some(h) => Some(Arc::new(Value::Handle(h, None))),
            None => None,
        }
    }

    /// The namespace of the given name, which must exist.
    pub fn get_namespace_or_panic(&self, name: &str) -> (res: PtrNamespace)
        requires
            self.spec_namespaces().contains_key(name@),
        ensures
            res == self.spec_namespaces()[name@],
            res.spec_name() == name@,
    {
        match self.try_get_namespace(name) {
            Some(ns) => ns,
            None => vstd::pervasive::unreached(),
        }
    }

    /// A new handle to the namespace of the given name, which must exist.
    pub fn get_namespace_handle_or_panic(&mut self, name: &str) -> (res: Handle)
        requires
            old(self).spec_namespaces().contains_key(name@),
        ensures
            res matches Handle::Namespace(n) && n.name@ == name@ && n.serial == old(self).spec_next_serial()
                && final(self).spec_resolve(n) == Some(old(self).spec_namespaces()[name@]),
            final(self).spec_next_serial() == next_serial_after(old(self).spec_next_serial()),
            same_namespaces(*final(self), *old(self)),
    {
        match self.try_get_namespace_handle(name) {
            Some(h) => h,
            None => vstd::pervasive::unreached(),
        }
    }

    /// A value holding a new handle to the namespace of the given name,
    /// which must exist.
    pub fn get_namespace_handle_value_or_panic(&mut self, name: &str) -> (res: PtrValue)
        requires
            old(self).spec_namespaces().contains_key(name@),
        ensures
            *res matches Value::Handle(Handle::Namespace(n), None) && n.name@ == name@
                && n.serial == old(self).spec_next_serial()
                && final(self).spec_resolve(n) == Some(old(self).spec_namespaces()[name@]),
            final(self).spec_next_serial() == next_serial_after(old(self).spec_next_serial()),
            same_namespaces(*final(self), *old(self)),
    {
        match self.try_get_namespace_handle_value(name) {
            Some(v) => v,
            None => vstd::pervasive::unreached(),
        }
    }

    /// The namespace of the given name, created empty if it does not exist;
    /// an existing namespace is left as it is.
    pub fn create_namespace(&mut self, name: &str) -> (res: PtrNamespace)
        ensures
            old(self).spec_namespaces().contains_key(name@) ==> {
                &&& final(self).spec_namespaces() == old(self).spec_namespaces()
                &&& same_namespaces(*final(self), *old(self))
                &&& res == old(self).spec_namespaces()[name@]
            },
            !old(self).spec_namespaces().contains_key(name@) ==> {
                &&& final(self).spec_namespaces() == old(self).spec_namespaces().insert(name@, res)
                &&& final(self).spec_table() == old(self).spec_table().push(res)
                &&& final(self).spec_ids() == old(self).spec_ids().insert(name@, old(self).spec_table().len() as usize)
                &&& res.spec_name() == name@
                &&& res.spec_vars() == Map::<Seq<char>, crate::var::PtrVar>::empty()
                &&& res.spec_aliases() == Map::<Seq<char>, SymbolUnqualified>::empty()
                &&& res.spec_imports() == Map::<Seq<char>, String>::empty()
                &&& res.spec_refers() == Map::<Seq<char>, crate::var::PtrVar>::empty()
            },
            final(self).spec_current_namespace_var() == old(self).spec_current_namespace_var(),
            final(self).spec_next_serial() == old(self).spec_next_serial(),
            final(self).spec_namespaces().contains_key(name@),
            final(self).spec_namespaces()[name@] == res,
    {
        match self.try_get_namespace(name) {
            Some(ns) => ns,
            None => {
                let ns = Namespace::new_empty_ptr(name);
                self.insert_namespace(ns.clone());
                ns
            },
        }
    }

    /// Adds `ns` under its name. A namespace of the same name is replaced,
    /// and `ns` takes its number, so that handles to it reach `ns`; a new
    /// name gets the next number.
    pub fn insert_namespace(&mut self, ns: PtrNamespace)
        ensures
            final(self).spec_namespaces() == old(self).spec_namespaces().insert(ns.spec_name(), ns),
            old(self).spec_ids().contains_key(ns.spec_name()) ==> {
                &&& final(self).spec_ids() == old(self).spec_ids()
                &&& final(self).spec_table() == old(self).spec_table().update(old(self).spec_ids()[ns.spec_name()] as int, ns)
            },
            !old(self).spec_ids().contains_key(ns.spec_name()) ==> {
                &&& final(self).spec_ids() == old(self).spec_ids().insert(ns.spec_name(), old(self).spec_table().len() as usize)
                &&& final(self).spec_table() == old(self).spec_table().push(ns)
            },
            final(self).spec_current_namespace_var() == old(self).spec_current_namespace_var(),
            final(self).spec_next_serial() == old(self).spec_next_serial(),
            namespace_table_ok(old(self).spec_table(), old(self).spec_ids()),
            namespace_table_ok(final(self).spec_table(), final(self).spec_ids()),
    {
        proof {
            use_type_invariant(&*self);
        }
        let ghost old_table = self.table@;
        let ghost old_ids = self.ids@;
        let name = ns.name_symbol();
        let found = match self.ids.get(name.name()) {
            Some(id) => Some(*id),
            None => None,
        };
        let mut ids = Bindings::new_empty();
        std::mem::swap(&mut ids, &mut self.ids);
        let mut table: Vec<PtrNamespace> = Vec::new();
        std::mem::swap(&mut table, &mut self.table);
        match found {
            Some(id) => {
                table.set(id, ns);
                proof {
                    assert forall|k: Seq<char>| #[trigger] ids@.contains_key(k) implies ids@[k] < table@.len()
                        && table@[ids@[k] as int].spec_name() == k by {
                        if ids@[k] == id {
                            assert(old_table[id as int].spec_name() == k);
                        }
                    }
                }
            },
            None => {
                let id = table.len();
                table.push(ns);
                ids.insert(name, id);
                proof {
                    assert forall|k: Seq<char>| #[trigger] ids@.contains_key(k) implies ids@[k] < table@.len()
                        && table@[ids@[k] as int].spec_name() == k by {
                        if k != name@ {
                            assert(old_ids.contains_key(k));
                        }
                    }
                }
            },
        }
        self.table = table;
        self.ids = ids;
        proof {
            let key = ns.spec_name();
            assert(self.spec_namespaces() =~= old_ids.map_values(|i: usize| old_table[i as int]).insert(key, ns)) by {
                assert forall|k: Seq<char>| #[trigger] self.spec_namespaces().contains_key(k) implies
                    self.spec_namespaces()[k] == old_ids.map_values(|i: usize| old_table[i as int]).insert(key, ns)[k] by {
                    if k != key {
                        assert(old_table[old_ids[k] as int].spec_name() == k);
                    }
                }
            }
        }
    }

    /// Writes `ns` over the namespace numbered `id`, which must have the
    /// same name: the names stay with their numbers, so `ns` is seen under
    /// its name only if that name still stands for that number.
    pub fn replace_namespace_at(&mut self, id: usize, ns: PtrNamespace)
        requires
            id < old(self).spec_table().len(),
            ns.spec_name() == old(self).spec_table()[id as int].spec_name(),
        ensures
            final(self).spec_table() == old(self).spec_table().update(id as int, ns),
            final(self).spec_ids() == old(self).spec_ids(),
            final(self).spec_current_namespace_var() == old(self).spec_current_namespace_var(),
            final(self).spec_next_serial() == old(self).spec_next_serial(),
    {
        proof {
            use_type_invariant(&*self);
        }
        let ghost old_table = self.table@;
        let mut ids = Bindings::new_empty();
        std::mem::swap(&mut ids, &mut self.ids);
        let mut table: Vec<PtrNamespace> = Vec::new();
        std::mem::swap(&mut table, &mut self.table);
        table.set(id, ns);
        proof {
            assert forall|k: Seq<char>| #[trigger] ids@.contains_key(k) implies ids@[k] < table@.len()
                && table@[ids@[k] as int].spec_name() == k by {
                if ids@[k] == id {
                    assert(old_table[id as int].spec_name() == k);
                }
            }
        }
        self.table = table;
        self.ids = ids;
    }

    /// Removes the namespace of the given name, if there is one. Handles to
    /// it still reach it.
    pub fn remove_namespace(&mut self, name: &str)
        ensures
            final(self).spec_namespaces() == old(self).spec_namespaces().remove(name@),
            final(self).spec_table() == old(self).spec_table(),
            final(self).spec_ids() == old(self).spec_ids().remove(name@),
            final(self).spec_current_namespace_var() == old(self).spec_current_namespace_var(),
            final(self).spec_next_serial() == old(self).spec_next_serial(),
    {
        proof {
            use_type_invariant(&*self);
        }
        let ghost old_ids = self.ids@;
        let mut ids = Bindings::new_empty();
        std::mem::swap(&mut ids, &mut self.ids);
        let _ = ids.remove(name);
        proof {
            assert forall|k: Seq<char>| #[trigger] ids@.contains_key(k) implies ids@[k] < self.table@.len()
                && self.table@[ids@[k] as int].spec_name() == k by {
                assert(old_ids.contains_key(k));
            }
        }
        self.ids = ids;
        assert(self.spec_namespaces() =~= old(self).spec_namespaces().remove(name@));
    }
}

/// Handles made one after the other are different handles, even to the
/// same namespace.
pub proof fn law_consecutive_handles_differ(a: NamespaceHandle, b: NamespaceHandle)
    requires
        b.serial == next_serial_after(a.serial),
    ensures
        !handle_same(Handle::Namespace(a), Handle::Namespace(b)),
{
}

impl EnvironmentBuilder {
    #[verifier::type_invariant]
    closed spec fn well_formed(self) -> bool {
        keyed_by_name(self.namespaces@)
    }

    /// The namespaces gathered so far, by name.
    pub closed spec fn spec_namespaces(&self) -> Map<Seq<char>, PtrNamespace> {
        self.namespaces@
    }

    /// The current-namespace var set so far, if any.
    pub closed spec fn spec_current_namespace_var(&self) -> Option<(Seq<char>, Seq<char>)> {
        match self.current_namespace_var {
            Some(s) => Some(s@),
            None => None,
        }
    }

    /// Adds `ns` under its name, replacing a namespace of the same name.
    pub fn insert_namespace(&mut self, ns: PtrNamespace)
        ensures
            final(self).spec_namespaces() == old(self).spec_namespaces().insert(ns.spec_name(), ns),
            final(self).spec_current_namespace_var() == old(self).spec_current_namespace_var(),
    {
        proof {
            use_type_invariant(&*self);
        }
        let name = ns.name_symbol();
        let mut namespaces = Bindings::new_empty();
        std::mem::swap(&mut namespaces, &mut self.namespaces);
        namespaces.insert(name, ns);
        self.namespaces = namespaces;
    }

    /// Records that the var `name` of namespace `ns_name` holds the current
    /// namespace.
    pub fn set_current_namespace_var(&mut self, ns_name: &str, name: &str)
        ensures
            final(self).spec_namespaces() == old(self).spec_namespaces(),
            final(self).spec_current_namespace_var() == Some((ns_name@, name@)),
    {
        proof {
            use_type_invariant(&*self);
        }
        self.current_namespace_var = Some(SymbolQualified::new(ns_name, name));
    }

    /// What still keeps the environment from being built: the
    /// current-namespace var must be set.
    pub fn build_blockers(&self) -> (res: Vec<String>)
        ensures
            self.spec_current_namespace_var() is Some ==> res@.len() == 0,
            self.spec_current_namespace_var() is None ==> res@.len() == 1
                && res@[0]@ == "current_namespace_var is not set"@,
    {
        let mut blockers: Vec<String> = Vec::new();
        if self.current_namespace_var.is_none() {
            blockers.push("current_namespace_var is not set".to_string());
        }
        blockers
    }

    /// Whether the environment can be built.
    pub fn can_build(&self) -> (res: bool)
        ensures
            res == self.spec_current_namespace_var() is Some,
    {
        self.build_blockers().len() == 0
    }

    /// The environment gathered; the current-namespace var must be set.
    pub fn build(self) -> (res: Environment)
        requires
            self.spec_current_namespace_var() is Some,
        ensures
            res.spec_namespaces() == self.spec_namespaces(),
            Some(res.spec_current_namespace_var()) == self.spec_current_namespace_var(),
    {
        proof {
            use_type_invariant(&self);
        }
        let EnvironmentBuilder { namespaces, current_namespace_var } = self;
        let current_namespace_var = match current_namespace_var {
            Some(v) => v,
            None => vstd::pervasive::unreached(),
        };
        let ghost m = namespaces@;
        let entries = namespaces.entries_list();
        let mut env = Environment { table: Vec::new(), ids: Bindings::new_empty(), current_namespace_var, next_serial: 0 };
        assert(env.spec_namespaces() =~= Map::<Seq<char>, PtrNamespace>::empty());
        let mut i: usize = 0;
        while i < entries.len()
            invariant
                0 <= i <= entries@.len(),
                keyed_by_name(m),
                forall|j: int| 0 <= j < entries@.len() ==> #[trigger] m.contains_key(entries@[j].0@)
                    && m[entries@[j].0@] == entries@[j].1,
                forall|k: Seq<char>| #[trigger] env.spec_namespaces().contains_key(k)
                    <==> exists|j: int| 0 <= j < i && entries@[j].0@ == k,
                forall|k: Seq<char>| #[trigger] env.spec_namespaces().contains_key(k) ==> env.spec_namespaces()[k] == m[k],
                env.spec_current_namespace_var() == current_namespace_var@,
            decreases entries@.len() - i,
        {
            let ns = entries[i].1.clone();
            proof {
                assert(m.contains_key(entries@[i as int].0@));
            }
            env.insert_namespace(ns);
            proof {
                assert forall|k: Seq<char>| #[trigger] env.spec_namespaces().contains_key(k)
                    <==> exists|j: int| 0 <= j < i + 1 && entries@[j].0@ == k by {
                    if k == entries@[i as int].0@ {
                        assert(0 <= i < i + 1 && entries@[i as int].0@ == k);
                    }
                }
            }
            i += 1;
        }
        proof {
            assert(env.spec_namespaces() =~= m) by {
                assert forall|k: Seq<char>| m.contains_key(k) implies #[trigger] env.spec_namespaces().contains_key(k) by {
                    let j = choose|j: int| 0 <= j < entries@.len() && entries@[j].0@ == k;
                }
                assert forall|k: Seq<char>| #[trigger] env.spec_namespaces().contains_key(k) implies m.contains_key(k) by {
                    let j = choose|j: int| 0 <= j < i && entries@[j].0@ == k;
                }
            }
        }
        env
    }

    /// A pointer to the environment gathered; the current-namespace var must
    /// be set.
    pub fn build_ptr(self) -> (res: PtrEnvironment)
        requires
            self.spec_current_namespace_var() is Some,
        ensures
            res.spec_namespaces() == self.spec_namespaces(),
            Some(res.spec_current_namespace_var()) == self.spec_current_namespace_var(),
    {
        Arc::new(self.build())
    }
}

} // verus!
