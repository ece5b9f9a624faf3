//! Local bindings for evaluation.
use vstd::prelude::*;
use crate::bindings::Bindings;
use crate::value::PtrValue;

verus! {

/// Evaluation context holding local variable bindings, as made by `let*`
/// and by the parameters of `fn*`; binding a name again replaces its value.
pub struct EvalContext {
    pub(crate) locals: Bindings<String, PtrValue>,
}

impl View for EvalContext {
    type V = Map<Seq<char>, PtrValue>;

    closed spec fn view(&self) -> Map<Seq<char>, PtrValue> {
        self.locals@
    }
}

/// The bindings `m` with those of `bindings` added in order.
pub open spec fn bind_all(m: Map<Seq<char>, PtrValue>, bindings: Seq<(String, PtrValue)>) -> Map<Seq<char>, PtrValue>
    decreases bindings.len(),
{
    if bindings.len() == 0 {
        m
    } else {
        bind_all(m, bindings.drop_last()).insert(bindings.last().0@, bindings.last().1)
    }
}

impl EvalContext {
    /// A context with no local bindings.
    pub fn new_empty() -> (res: Self)
        ensures
            res@ == Map::<Seq<char>, PtrValue>::empty(),
    {
        EvalContext { locals: Bindings::new_empty() }
    }

    /// Binds `name` to `value` in this context.
    pub fn insert_local(&mut self, name: String, value: PtrValue)
        ensures
            final(self)@ == old(self)@.insert(name@, value),
            final(self)@.dom().len() == old(self)@.dom().len() + (if old(self)@.contains_key(name@) { 0int } else { 1int }),
    {
        self.locals.insert(name, value);
    }

    /// Binds each name of `bindings` to its value in this context, in order.
    pub fn insert_locals(&mut self, bindings: Vec<(String, PtrValue)>)
        ensures
            final(self)@ == bind_all(old(self)@, bindings@),
    {
        let ghost start = self@;
        let mut i: usize = 0;
        while i < bindings.len()
            invariant
                0 <= i <= bindings@.len(),
                self@ == bind_all(start, bindings@.take(i as int)),
            decreases bindings@.len() - i,
        {
            let name = bindings[i].0.clone();
            let value = bindings[i].1.clone();
            self.insert_local(name, value);
            proof {
                assert(bindings@.take(i as int + 1).drop_last() =~= bindings@.take(i as int));
            }
            i += 1;
        }
        assert(bindings@.take(bindings@.len() as int) =~= bindings@);
    }

    /// A new context with `name` bound to `value`; this one is unchanged.
    pub fn with_local(&self, name: String, value: PtrValue) -> (res: Self)
        ensures
            res@ == self@.insert(name@, value),
            res@.dom().len() == self@.dom().len() + (if self@.contains_key(name@) { 0int } else { 1int }),
    {
        let mut res = self.clone();
        res.insert_local(name, value);
        res
    }

    /// A new context with each name of `bindings` bound to its value, in
    /// order; this one is unchanged.
    pub fn with_locals(&self, bindings: Vec<(String, PtrValue)>) -> (res: Self)
        ensures
            res@ == bind_all(self@, bindings@),
    {
        let mut res = self.clone();
        res.insert_locals(bindings);
        res
    }

    /// What `name` is bound to, if it is bound.
    pub fn resolve_local(&self, name: &str) -> (res: Option<PtrValue>)
        ensures
            match res {
                Some(v) => self@.contains_key(name@) && v == self@[name@],
                None => !self@.contains_key(name@),
            },
    {
        match self.locals.get(name) {
            Some(v) => Some(v.clone()),
            None => None,
        }
    }

    /// Whether `name` is bound.
    pub fn has_local(&self, name: &str) -> (res: bool)
        ensures
            res == self@.contains_key(name@),
    {
        self.locals.contains(name)
    }

    /// The number of names bound.
    pub fn len(&self) -> (res: usize)
        ensures
            res == self@.dom().len(),
    {
        self.locals.len()
    }

    /// Whether no name is bound.
    pub fn is_empty(&self) -> (res: bool)
        ensures
            res == (self@.dom().len() == 0),
    {
        self.locals.is_empty()
    }
}

impl Clone for EvalContext {
    fn clone(&self) -> (res: Self)
        ensures
            res@ == self@,
    {
        EvalContext { locals: self.locals.clone() }
    }
}

impl Default for EvalContext {
    fn default() -> (res: Self)
        ensures
            res@ == Map::<Seq<char>, PtrValue>::empty(),
    {
        EvalContext::new_empty()
    }
}

/// A lookup after a binding gives the value bound; the context the binding
/// was made from is left as it was.
pub proof fn lemma_with_local_then_resolve(ctx: Map<Seq<char>, PtrValue>, name: Seq<char>, value: PtrValue, other: Seq<char>)
    ensures
        ctx.insert(name, value)[name] == value,
        other != name ==> (ctx.insert(name, value).contains_key(other) == ctx.contains_key(other)),
        other != name && ctx.contains_key(other) ==> ctx.insert(name, value)[other] == ctx[other],
{
}

} // verus!
