//! Vars: the cells that namespaces bind names to.
use vstd::prelude::*;
use std::sync::Arc;
use crate::map::ValueMap;
use crate::value::{PtrValue, Value};

verus! {

/// A reference-counted pointer to a [`Var`].
pub type PtrVar = Arc<Var>;

/// A variable, bound to a value or unbound, with optional metadata.
#[derive(Debug)]
pub struct Var {
    pub(crate) value: Option<PtrValue>,
    pub(crate) meta: Option<Arc<ValueMap>>,
}

impl Var {
    /// What the var is bound to, if it is bound.
    pub closed spec fn spec_value(&self) -> Option<PtrValue> {
        self.value
    }

    /// The metadata of the var.
    pub closed spec fn spec_meta(&self) -> Option<Arc<ValueMap>> {
        self.meta
    }

    /// A var bound to nothing.
    pub fn new_unbound() -> (res: Self)
        ensures
            res.spec_value() is None,
            res.spec_meta() is None,
    {
        Var { value: None, meta: None }
    }

    /// A var bound to `value`.
    pub fn new_bound(value: Value) -> (res: Self)
        ensures
            res.spec_value() == Some(Arc::new(value)),
            res.spec_meta() is None,
    {
        Var { value: Some(Arc::new(value)), meta: None }
    }

    /// A var bound to the value `value` points to.
    pub fn new_bound_ptr(value: PtrValue) -> (res: Self)
        ensures
            res.spec_value() == Some(value),
            res.spec_meta() is None,
    {
        Var { value: Some(value), meta: None }
    }

    /// What the var is bound to, if it is bound.
    pub fn deref(&self) -> (res: Option<PtrValue>)
        ensures
            res == self.spec_value(),
    {
        match &self.value {
            Some(v) => Some(v.clone()),
            None => None,
        }
    }

    /// Whether the var is bound to a value.
    pub fn is_bound(&self) -> (res: bool)
        ensures
            res == self.spec_value() is Some,
    {
        self.value.is_some()
    }

    /// Whether the var is bound to nothing.
    pub fn is_unbound(&self) -> (res: bool)
        ensures
            res == self.spec_value() is None,
    {
        self.value.is_none()
    }

    /// Binds the var to `value`, keeping its metadata.
    pub fn bind(&mut self, value: PtrValue)
        ensures
            final(self).spec_value() == Some(value),
            final(self).spec_meta() == old(self).spec_meta(),
    {
        self.value = Some(value);
    }

    /// The metadata of the var.
    pub fn meta(&self) -> (res: Option<Arc<ValueMap>>)
        ensures
            res == self.spec_meta(),
    {
        match &self.meta {
            Some(m) => Some(m.clone()),
            None => None,
        }
    }

    /// The same var with its metadata replaced by `meta`.
    pub fn with_meta(&self, meta: Option<Arc<ValueMap>>) -> (res: Self)
        ensures
            res.spec_value() == self.spec_value(),
            res.spec_meta() == meta,
    {
        Var { value: self.deref(), meta }
    }
}

} // verus!
