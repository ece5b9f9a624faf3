//! The `modify_*` functions of the value optics with the transformation given
//! first: each returns a function that transforms a value.
use vstd::prelude::*;
use std::sync::Arc;
use crate::float::Float;
use crate::function::PtrFunction;
use crate::handle::Handle;
use crate::keyword::Keyword;
use crate::list::List;
use crate::map::ValueMap;
use crate::set::ValueSet;
use crate::symbol::Symbol;
use crate::value::{PtrValue, Value, same_contents, spec_meta};
use crate::value::optics;
use crate::value::optics::modified_by;
use crate::var::PtrVar;
use crate::vector::Vector;

verus! {

/// A function that applies `f` to the integer a value holds, and leaves
/// values of other kinds as they are.
pub fn modify_integer<F: Fn(i64) -> i64>(f: F) -> (res: impl Fn(PtrValue) -> PtrValue)
    requires
        forall|a: i64| #[trigger] f.requires((a,)),
    ensures
        forall|v: PtrValue| #[trigger] res.requires((v,)),
        forall|v: PtrValue, r: PtrValue| res.ensures((v,), r) ==> match *v {
            Value::Integer(x, _) => *r matches Value::Integer(y, None) && f.ensures((x,), y),
            _ => r == v,
        },
{
    move |value: PtrValue| -> (r: PtrValue)
        requires
            forall|a: i64| #[trigger] f.requires((a,)),
        ensures
            match *value {
                Value::Integer(x, _) => *r matches Value::Integer(y, None) && f.ensures((x,), y),
                _ => r == value,
            },
        {
            let r = optics::modify_integer(value, &f);
            r
        }
}

/// A function that applies `f` to the boolean a value holds, and leaves
/// values of other kinds as they are.
pub fn modify_boolean<F: Fn(bool) -> bool>(f: F) -> (res: impl Fn(PtrValue) -> PtrValue)
    requires
        forall|a: bool| #[trigger] f.requires((a,)),
    ensures
        forall|v: PtrValue| #[trigger] res.requires((v,)),
        forall|v: PtrValue, r: PtrValue| res.ensures((v,), r) ==> match *v {
            Value::Boolean(x, _) => *r matches Value::Boolean(y, None) && f.ensures((x,), y),
            _ => r == v,
        },
{
    move |value: PtrValue| -> (r: PtrValue)
        requires
            forall|a: bool| #[trigger] f.requires((a,)),
        ensures
            match *value {
                Value::Boolean(x, _) => *r matches Value::Boolean(y, None) && f.ensures((x,), y),
                _ => r == value,
            },
        {
            let r = optics::modify_boolean(value, &f);
            r
        }
}

/// A function that applies `f` to the float a value holds, and leaves
/// values of other kinds as they are.
pub fn modify_float<F: Fn(Float) -> Float>(f: F) -> (res: impl Fn(PtrValue) -> PtrValue)
    requires
        forall|a: Float| #[trigger] f.requires((a,)),
    ensures
        forall|v: PtrValue| #[trigger] res.requires((v,)),
        forall|v: PtrValue, r: PtrValue| res.ensures((v,), r) ==> match *v {
            Value::Float(x, _) => *r matches Value::Float(y, None) && f.ensures((x,), y),
            _ => r == v,
        },
{
    move |value: PtrValue| -> (r: PtrValue)
        requires
            forall|a: Float| #[trigger] f.requires((a,)),
        ensures
            match *value {
                Value::Float(x, _) => *r matches Value::Float(y, None) && f.ensures((x,), y),
                _ => r == value,
            },
        {
            let r = optics::modify_float(value, &f);
            r
        }
}

/// A function that applies `f` to the string a value holds, and leaves
/// values of other kinds as they are.
pub fn modify_string<F: Fn(String) -> String>(f: F) -> (res: impl Fn(PtrValue) -> PtrValue)
    requires
        forall|a: String| #[trigger] f.requires((a,)),
    ensures
        forall|v: PtrValue| #[trigger] res.requires((v,)),
        forall|v: PtrValue, r: PtrValue| res.ensures((v,), r) ==> match *v {
            Value::String(x, _) => *r matches Value::String(y, None) && f.ensures((x,), y),
            _ => r == v,
        },
{
    move |value: PtrValue| -> (r: PtrValue)
        requires
            forall|a: String| #[trigger] f.requires((a,)),
        ensures
            match *value {
                Value::String(x, _) => *r matches Value::String(y, None) && f.ensures((x,), y),
                _ => r == value,
            },
        {
            let r = optics::modify_string(value, &f);
            r
        }
}

/// A function that applies `f` to the symbol a value holds, and leaves
/// values of other kinds as they are.
pub fn modify_symbol<F: Fn(Symbol) -> Symbol>(f: F) -> (res: impl Fn(PtrValue) -> PtrValue)
    requires
        forall|a: Symbol| #[trigger] f.requires((a,)),
    ensures
        forall|v: PtrValue| #[trigger] res.requires((v,)),
        forall|v: PtrValue, r: PtrValue| res.ensures((v,), r) ==> match *v {
            Value::Symbol(x, _) => *r matches Value::Symbol(y, None) && f.ensures((x,), y),
            _ => r == v,
        },
{
    move |value: PtrValue| -> (r: PtrValue)
        requires
            forall|a: Symbol| #[trigger] f.requires((a,)),
        ensures
            match *value {
                Value::Symbol(x, _) => *r matches Value::Symbol(y, None) && f.ensures((x,), y),
                _ => r == value,
            },
        {
            let r = optics::modify_symbol(value, &f);
            r
        }
}

/// A function that applies `f` to the keyword a value holds, and leaves
/// values of other kinds as they are.
pub fn modify_keyword<F: Fn(Keyword) -> Keyword>(f: F) -> (res: impl Fn(PtrValue) -> PtrValue)
    requires
        forall|a: Keyword| #[trigger] f.requires((a,)),
    ensures
        forall|v: PtrValue| #[trigger] res.requires((v,)),
        forall|v: PtrValue, r: PtrValue| res.ensures((v,), r) ==> match *v {
            Value::Keyword(x, _) => *r matches Value::Keyword(y, None) && f.ensures((x,), y),
            _ => r == v,
        },
{
    move |value: PtrValue| -> (r: PtrValue)
        requires
            forall|a: Keyword| #[trigger] f.requires((a,)),
        ensures
            match *value {
                Value::Keyword(x, _) => *r matches Value::Keyword(y, None) && f.ensures((x,), y),
                _ => r == value,
            },
        {
            let r = optics::modify_keyword(value, &f);
            r
        }
}

/// A function that applies `f` to the list a value holds, and leaves
/// values of other kinds as they are.
pub fn modify_list<F: Fn(List) -> List>(f: F) -> (res: impl Fn(PtrValue) -> PtrValue)
    requires
        forall|a: List| #[trigger] f.requires((a,)),
    ensures
        forall|v: PtrValue| #[trigger] res.requires((v,)),
        forall|v: PtrValue, r: PtrValue| res.ensures((v,), r) ==> match *v {
            Value::List(x, _) => *r matches Value::List(y, None) && modified_by(f, x, y),
            _ => r == v,
        },
{
    move |value: PtrValue| -> (r: PtrValue)
        requires
            forall|a: List| #[trigger] f.requires((a,)),
        ensures
            match *value {
                Value::List(x, _) => *r matches Value::List(y, None) && modified_by(f, x, y),
                _ => r == value,
            },
        {
            let r = optics::modify_list(value, &f);
            proof {
                assert forall|x: List, y: List| #[trigger] modified_by(&f, x, y) implies modified_by(f, x, y) by {
                    let c = choose|c: List| c@ == x@ && #[trigger] (&f).ensures((c,), y);
                    assert(f.ensures((c,), y));
                }
            }
            r
        }
}

/// A function that applies `f` to the vector a value holds, and leaves
/// values of other kinds as they are.
pub fn modify_vector<F: Fn(Vector) -> Vector>(f: F) -> (res: impl Fn(PtrValue) -> PtrValue)
    requires
        forall|a: Vector| #[trigger] f.requires((a,)),
    ensures
        forall|v: PtrValue| #[trigger] res.requires((v,)),
        forall|v: PtrValue, r: PtrValue| res.ensures((v,), r) ==> match *v {
            Value::Vector(x, _) => *r matches Value::Vector(y, None) && modified_by(f, x, y),
            _ => r == v,
        },
{
    move |value: PtrValue| -> (r: PtrValue)
        requires
            forall|a: Vector| #[trigger] f.requires((a,)),
        ensures
            match *value {
                Value::Vector(x, _) => *r matches Value::Vector(y, None) && modified_by(f, x, y),
                _ => r == value,
            },
        {
            let r = optics::modify_vector(value, &f);
            proof {
                assert forall|x: Vector, y: Vector| #[trigger] modified_by(&f, x, y) implies modified_by(f, x, y) by {
                    let c = choose|c: Vector| c@ == x@ && #[trigger] (&f).ensures((c,), y);
                    assert(f.ensures((c,), y));
                }
            }
            r
        }
}

/// A function that applies `f` to the set a value holds, and leaves
/// values of other kinds as they are.
pub fn modify_set<F: Fn(ValueSet) -> ValueSet>(f: F) -> (res: impl Fn(PtrValue) -> PtrValue)
    requires
        forall|a: ValueSet| #[trigger] f.requires((a,)),
    ensures
        forall|v: PtrValue| #[trigger] res.requires((v,)),
        forall|v: PtrValue, r: PtrValue| res.ensures((v,), r) ==> match *v {
            Value::ValueSet(x, _) => *r matches Value::ValueSet(y, None) && modified_by(f, x, y),
            _ => r == v,
        },
{
    move |value: PtrValue| -> (r: PtrValue)
        requires
            forall|a: ValueSet| #[trigger] f.requires((a,)),
        ensures
            match *value {
                Value::ValueSet(x, _) => *r matches Value::ValueSet(y, None) && modified_by(f, x, y),
                _ => r == value,
            },
        {
            let r = optics::modify_set(value, &f);
            proof {
                assert forall|x: ValueSet, y: ValueSet| #[trigger] modified_by(&f, x, y) implies modified_by(f, x, y) by {
                    let c = choose|c: ValueSet| c@ == x@ && #[trigger] (&f).ensures((c,), y);
                    assert(f.ensures((c,), y));
                }
            }
            r
        }
}

/// A function that applies `f` to the map a value holds, and leaves
/// values of other kinds as they are.
pub fn modify_map<F: Fn(ValueMap) -> ValueMap>(f: F) -> (res: impl Fn(PtrValue) -> PtrValue)
    requires
        forall|a: ValueMap| #[trigger] f.requires((a,)),
    ensures
        forall|v: PtrValue| #[trigger] res.requires((v,)),
        forall|v: PtrValue, r: PtrValue| res.ensures((v,), r) ==> match *v {
            Value::ValueMap(x, _) => *r matches Value::ValueMap(y, None) && modified_by(f, x, y),
            _ => r == v,
        },
{
    move |value: PtrValue| -> (r: PtrValue)
        requires
            forall|a: ValueMap| #[trigger] f.requires((a,)),
        ensures
            match *value {
                Value::ValueMap(x, _) => *r matches Value::ValueMap(y, None) && modified_by(f, x, y),
                _ => r == value,
            },
        {
            let r = optics::modify_map(value, &f);
            proof {
                assert forall|x: ValueMap, y: ValueMap| #[trigger] modified_by(&f, x, y) implies modified_by(f, x, y) by {
                    let c = choose|c: ValueMap| c@ == x@ && #[trigger] (&f).ensures((c,), y);
                    assert(f.ensures((c,), y));
                }
            }
            r
        }
}

/// A function that applies `f` to the var a value holds, and leaves
/// values of other kinds as they are.
pub fn modify_var<F: Fn(PtrVar) -> PtrVar>(f: F) -> (res: impl Fn(PtrValue) -> PtrValue)
    requires
        forall|a: PtrVar| #[trigger] f.requires((a,)),
    ensures
        forall|v: PtrValue| #[trigger] res.requires((v,)),
        forall|v: PtrValue, r: PtrValue| res.ensures((v,), r) ==> match *v {
            Value::Var(x, _) => *r matches Value::Var(y, None) && f.ensures((x,), y),
            _ => r == v,
        },
{
    move |value: PtrValue| -> (r: PtrValue)
        requires
            forall|a: PtrVar| #[trigger] f.requires((a,)),
        ensures
            match *value {
                Value::Var(x, _) => *r matches Value::Var(y, None) && f.ensures((x,), y),
                _ => r == value,
            },
        {
            let r = optics::modify_var(value, &f);
            r
        }
}

/// A function that applies `f` to the function a value holds, and leaves
/// values of other kinds as they are.
pub fn modify_function<F: Fn(PtrFunction) -> PtrFunction>(f: F) -> (res: impl Fn(PtrValue) -> PtrValue)
    requires
        forall|a: PtrFunction| #[trigger] f.requires((a,)),
    ensures
        forall|v: PtrValue| #[trigger] res.requires((v,)),
        forall|v: PtrValue, r: PtrValue| res.ensures((v,), r) ==> match *v {
            Value::Function(x, _) => *r matches Value::Function(y, None) && f.ensures((x,), y),
            _ => r == v,
        },
{
    move |value: PtrValue| -> (r: PtrValue)
        requires
            forall|a: PtrFunction| #[trigger] f.requires((a,)),
        ensures
            match *value {
                Value::Function(x, _) => *r matches Value::Function(y, None) && f.ensures((x,), y),
                _ => r == value,
            },
        {
            let r = optics::modify_function(value, &f);
            r
        }
}

/// A function that applies `f` to the handle a value holds, and leaves
/// values of other kinds as they are.
pub fn modify_handle<F: Fn(Handle) -> Handle>(f: F) -> (res: impl Fn(PtrValue) -> PtrValue)
    requires
        forall|a: Handle| #[trigger] f.requires((a,)),
    ensures
        forall|v: PtrValue| #[trigger] res.requires((v,)),
        forall|v: PtrValue, r: PtrValue| res.ensures((v,), r) ==> match *v {
            Value::Handle(x, _) => *r matches Value::Handle(y, None) && f.ensures((x,), y),
            _ => r == v,
        },
{
    move |value: PtrValue| -> (r: PtrValue)
        requires
            forall|a: Handle| #[trigger] f.requires((a,)),
        ensures
            match *value {
                Value::Handle(x, _) => *r matches Value::Handle(y, None) && f.ensures((x,), y),
                _ => r == value,
            },
        {
            let r = optics::modify_handle(value, &f);
            r
        }
}

/// A function that applies `f` to the metadata of a value, keeping what the
/// value holds.
pub fn modify_meta<F: Fn(Option<Arc<ValueMap>>) -> Option<Arc<ValueMap>>>(f: F) -> (res: impl Fn(PtrValue) -> PtrValue)
    requires
        forall|m: Option<Arc<ValueMap>>| #[trigger] f.requires((m,)),
    ensures
        forall|v: PtrValue| #[trigger] res.requires((v,)),
        forall|v: PtrValue, r: PtrValue| res.ensures((v,), r) ==> {
            &&& same_contents(*r, *v)
            &&& f.ensures((spec_meta(*v),), spec_meta(*r))
        },
{
    move |value: PtrValue| -> (r: PtrValue)
        requires
            forall|m: Option<Arc<ValueMap>>| #[trigger] f.requires((m,)),
        ensures
            same_contents(*r, *value),
            f.ensures((spec_meta(*value),), spec_meta(*r)),
        {
            optics::modify_meta(value, &f)
        }
}

} // verus!
