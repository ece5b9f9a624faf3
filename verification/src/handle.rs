//! Handles: values that stand for namespaces, functions and outside resources.
use vstd::prelude::*;
use crate::function::PtrFunction;
use crate::symbol::SymbolUnqualified;

verus! {

/// Things a [`Handle`] can be made from.
pub trait IHandle {
    /// The handle this thing gives.
    spec fn spec_handle(&self) -> Handle;

    /// Turns this thing into a handle.
    fn into_handle(self) -> (res: Handle)
        ensures
            res == self.spec_handle(),
    ;
}

/// A handle to a namespace of an environment: the number the environment
/// gave the namespace when it took it in, the number of this handle among
/// all the handles the environment made, and the namespace's name when the
/// handle was made.
///
/// A namespace keeps its number while the environment holds it, and the
/// environment keeps it after it is removed, so a handle reaches its
/// namespace as long as the environment lives. Each handle the environment
/// makes has a number of its own, so handles made by different calls are
/// different handles.
#[derive(Debug)]
pub struct NamespaceHandle {
    /// The number of the namespace in its environment.
    pub id: usize,
    /// The number of this handle.
    pub serial: u64,
    /// The name of the namespace when the handle was made.
    pub name: SymbolUnqualified,
}

impl NamespaceHandle {
    /// A copy of the handle, equal to it.
    pub fn clone_exact(&self) -> (res: Self)
        ensures
            res == *self,
    {
        NamespaceHandle { id: self.id, serial: self.serial, name: self.name.clone() }
    }
}

impl Clone for NamespaceHandle {
    fn clone(&self) -> (res: Self)
        ensures
            res == *self,
    {
        self.clone_exact()
    }
}

/// A handle to something that is not itself a plain value.
#[derive(Debug)]
pub enum Handle {
    /// A namespace of an environment.
    Namespace(NamespaceHandle),
    /// A function.
    Function(PtrFunction),
    /// An outside resource (a reader or a writer) that the program around
    /// the library keeps, known by its number.
    Resource(u64),
}

/// Whether two handles are the same: namespace handles when they are the
/// same handle (the same namespace and the same handle number), functions
/// as functions, resources by number.
pub open spec fn handle_same(a: Handle, b: Handle) -> bool {
    match (a, b) {
        (Handle::Namespace(x), Handle::Namespace(y)) => x.id == y.id && x.serial == y.serial,
        (Handle::Function(x), Handle::Function(y)) => (*x)@ == (*y)@,
        (Handle::Resource(x), Handle::Resource(y)) => x == y,
        _ => false,
    }
}

impl Clone for Handle {
    fn clone(&self) -> (res: Self)
        ensures
            res == *self,
    {
        self.clone_exact()
    }
}

impl Handle {
    /// A copy of the handle, equal to it.
    pub fn clone_exact(&self) -> (res: Self)
        ensures
            res == *self,
    {
        match self {
            Handle::Namespace(n) => Handle::Namespace(n.clone_exact()),
            Handle::Function(f) => Handle::Function(f.clone()),
            Handle::Resource(r) => Handle::Resource(*r),
        }
    }
}

impl PartialEq for Handle {
    fn eq(&self, other: &Self) -> (res: bool) {
        match (self, other) {
            (Handle::Namespace(x), Handle::Namespace(y)) => x.id == y.id && x.serial == y.serial,
            (Handle::Function(x), Handle::Function(y)) => **x == **y,
            (Handle::Resource(x), Handle::Resource(y)) => *x == *y,
            _ => false,
        }
    }
}

impl vstd::std_specs::cmp::PartialEqSpecImpl for Handle {
    open spec fn obeys_eq_spec() -> bool {
        true
    }

    open spec fn eq_spec(&self, other: &Self) -> bool {
        handle_same(*self, *other)
    }
}

impl IHandle for PtrFunction {
    open spec fn spec_handle(&self) -> Handle {
        Handle::Function(*self)
    }

    fn into_handle(self) -> (res: Handle) {
        Handle::Function(self)
    }
}

impl Handle {
    /// Creates a new handle from something a handle can be made from.
    pub fn new<T: IHandle>(value: T) -> (res: Self)
        ensures
            res == value.spec_handle(),
    {
        value.into_handle()
    }

    /// A handle for the outside resource known by `id`.
    pub fn resource(id: u64) -> (res: Self)
        ensures
            res == Handle::Resource(id),
    {
        Handle::Resource(id)
    }

    /// The namespace handle this is, if it is one.
    pub fn namespace_handle(&self) -> (res: Option<&NamespaceHandle>)
        ensures
            match self {
                Handle::Namespace(n) => res == Some(n),
                _ => res is None,
            },
    {
        match self {
            Handle::Namespace(n) => Some(n),
            _ => None,
        }
    }

    /// The function this handle stands for, if it stands for one.
    pub fn function(&self) -> (res: Option<&PtrFunction>)
        ensures
            match self {
                Handle::Function(f) => res == Some(f),
                _ => res is None,
            },
    {
        match self {
            Handle::Function(f) => Some(f),
            _ => None,
        }
    }

    /// The number of the outside resource this handle stands for, if it
    /// stands for one.
    pub fn resource_id(&self) -> (res: Option<u64>)
        ensures
            match self {
                Handle::Resource(id) => res == Some(*id),
                _ => res is None,
            },
    {
        match self {
            Handle::Resource(id) => Some(*id),
            _ => None,
        }
    }
}

} // verus!
