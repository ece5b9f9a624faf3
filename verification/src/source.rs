//! Running a whole source text: its forms are read one after another, and
//! each is evaluated as soon as it is read.
use vstd::prelude::*;
use vstd::string::StrSliceExecFns;
use crate::eval_context::EvalContext;
use crate::interpreter::{eval, evals, EvalError, Interpreter, NativeFunctions};
use crate::reader::{denotes, parse_form, read, skip_space, space_end, ReadError};
use crate::value::{PtrValue, Value};

verus! {

/// How running a source text ended.
#[derive(Debug)]
pub enum SourceOutcome {
    /// Every form was read and evaluated: the value of the last one, or nil
    /// where the text holds no form.
    Done(PtrValue),
    /// A form could not be read: the value of the last form before it (nil
    /// if there was none), the index of the character where the unreadable
    /// form starts, and why it could not be read.
    ReadFailed { last: PtrValue, offset: usize, error: ReadError },
    /// A form was read, and evaluating it failed.
    EvalFailed(EvalError),
}

/// The text from index `pos` on.
pub open spec fn rest_of(text: Seq<char>, pos: int) -> Seq<char> {
    text.subrange(pos, text.len() as int)
}

/// Whether the text from `pos` on starts, after whitespace and comments,
/// with a form that ends at `next` and reads as a value whose evaluation,
/// with no locals and `fuel`, may go from `pre` to `post` and give `res`.
pub open spec fn source_step(
    text: Seq<char>,
    pos: int,
    pre: Interpreter,
    fuel: int,
    next: int,
    post: Interpreter,
    res: Result<PtrValue, EvalError>,
) -> bool {
    let rest = rest_of(text, pos);
    let start = skip_space(rest, 0);
    &&& start < rest.len()
    &&& parse_form(rest, start) matches Ok((f, j))
    &&& next == pos + j
    &&& exists|v: PtrValue| denotes(f, *v) && #[trigger] evals(pre, Map::empty(), v, fuel, post, res)
}

/// Whether the first forms of `text` were read from the positions `ps`,
/// one after another from the start, and evaluated to `vs`, the
/// interpreter going through the states `ss` from `pre` on.
pub open spec fn source_prefix(
    text: Seq<char>,
    pre: Interpreter,
    fuel: int,
    ps: Seq<int>,
    ss: Seq<Interpreter>,
    vs: Seq<PtrValue>,
) -> bool {
    &&& ps.len() == vs.len() + 1
    &&& ss.len() == vs.len() + 1
    &&& ps[0] == 0
    &&& ss[0] == pre
    &&& forall|i: int| 0 <= i < vs.len()
        ==> #[trigger] source_step(text, ps[i], ss[i], fuel, ps[i + 1], ss[i + 1], Ok::<PtrValue, EvalError>(vs[i]))
}

/// The value of the last of `vs`, or nil if there is none.
pub open spec fn last_or_nil(vs: Seq<PtrValue>) -> Value {
    if vs.len() == 0 {
        Value::Nil(None)
    } else {
        *vs.last()
    }
}

/// How running the text ends from position `pos`, with the interpreter in
/// `state` and `last` the value of the last form evaluated: with that value
/// where only whitespace and comments are left; with it, the index where
/// the next form starts and the reader's error where that form cannot be
/// read; with the evaluator's error where it can be read and its
/// evaluation fails.
pub open spec fn source_end(
    text: Seq<char>,
    pos: int,
    state: Interpreter,
    fuel: int,
    last: Value,
    post: Interpreter,
    res: SourceOutcome,
) -> bool {
    let rest = rest_of(text, pos);
    let start = skip_space(rest, 0);
    if start >= rest.len() {
        &&& post == state
        &&& res matches SourceOutcome::Done(v)
        &&& *v == last
    } else {
        match parse_form(rest, start) {
            Err(e) => {
                &&& post == state
                &&& res matches SourceOutcome::ReadFailed { last: v, offset, error }
                &&& *v == last
                &&& offset == pos + start
                &&& error == e
            },
            Ok(_) => exists|next: int, e: EvalError| {
                &&& res == SourceOutcome::EvalFailed(e)
                &&& #[trigger] source_step(text, pos, state, fuel, next, post, Err::<PtrValue, EvalError>(e))
            },
        }
    }
}

/// Whether running `text` with `fuel` for each form may go from `pre` to
/// `post` and end with `res`: its forms are read one after another from
/// the start, each evaluated with no locals once it is read, until only
/// whitespace and comments are left, a form cannot be read, or an
/// evaluation fails.
pub open spec fn runs_source(pre: Interpreter, text: Seq<char>, fuel: int, post: Interpreter, res: SourceOutcome) -> bool {
    exists|ps: Seq<int>, ss: Seq<Interpreter>, vs: Seq<PtrValue>| {
        &&& #[trigger] source_prefix(text, pre, fuel, ps, ss, vs)
        &&& source_end(text, ps.last(), ss.last(), fuel, last_or_nil(vs), post, res)
    }
}

/// Reads the forms of `text` one after another and evaluates each, with
/// no locals and `fuel`, as soon as it is read; stops at the end of the
/// text, at the first form that cannot be read, or at the first evaluation
/// that fails.
pub fn eval_source<H: NativeFunctions>(interp: &mut Interpreter, host: &mut H, text: &str, fuel: u64) -> (res: SourceOutcome)
    ensures
        runs_source(*old(interp), text@, fuel as int, *final(interp), res),
{
    let ghost pre = *interp;
    let len = text.unicode_len();
    let mut pos: usize = 0;
    let mut last: PtrValue = Value::nil_ptr();
    let ghost mut ps: Seq<int> = seq![0int];
    let ghost mut ss: Seq<Interpreter> = seq![pre];
    let ghost mut vs: Seq<PtrValue> = Seq::empty();
    loop
        invariant
            len == text@.len(),
            pos <= len,
            pre == *old(interp),
            source_prefix(text@, pre, fuel as int, ps, ss, vs),
            ps.last() == pos as int,
            ss.last() == *interp,
            *last == last_or_nil(vs),
        decreases len - pos,
    {
        let rest = text.substring_char(pos, len);
        assert(rest@ == rest_of(text@, pos as int));
        match read(rest) {
            Ok((n, Some(v))) => {
                let ghost before = *interp;
                let ghost gv = v;
                let ghost next = pos + n;
                let r = eval(interp, host, &EvalContext::new_empty(), v, fuel);
                match r {
                    Ok(value) => {
                        proof {
                            assert(denotes(parse_form(rest@, skip_space(rest@, 0))->Ok_0.0, *gv)
                                && evals(before, Map::empty(), gv, fuel as int, *interp, Ok::<PtrValue, EvalError>(value)));
                            assert(source_step(text@, pos as int, before, fuel as int, next, *interp, Ok::<PtrValue, EvalError>(value)));
                            let ps0 = ps;
                            let ss0 = ss;
                            let vs0 = vs;
                            ps = ps.push(next);
                            ss = ss.push(*interp);
                            vs = vs.push(value);
                            assert forall|i: int| 0 <= i < vs.len() implies #[trigger] source_step(
                                text@, ps[i], ss[i], fuel as int, ps[i + 1], ss[i + 1], Ok::<PtrValue, EvalError>(vs[i]),
                            ) by {
                                if i < vs0.len() {
                                    assert(ps[i] == ps0[i] && ps[i + 1] == ps0[i + 1]);
                                    assert(ss[i] == ss0[i] && ss[i + 1] == ss0[i + 1]);
                                    assert(vs[i] == vs0[i]);
                                }
                            }
                        }
                        last = value;
                        pos = pos + n;
                    },
                    Err(e) => {
                        proof {
                            assert(denotes(parse_form(rest@, skip_space(rest@, 0))->Ok_0.0, *gv)
                                && evals(before, Map::empty(), gv, fuel as int, *interp, Err::<PtrValue, EvalError>(e)));
                            assert(source_step(text@, pos as int, before, fuel as int, next, *interp, Err::<PtrValue, EvalError>(e)));
                        }
                        let res = SourceOutcome::EvalFailed(e);
                        assert(source_end(text@, pos as int, before, fuel as int, last_or_nil(vs), *interp, res));
                        assert(source_prefix(text@, pre, fuel as int, ps, ss, vs));
                        assert(runs_source(pre, text@, fuel as int, *interp, res));
                        return res;
                    },
                }
            },
            Ok((_, None)) => {
                let res = SourceOutcome::Done(last);
                assert(source_end(text@, pos as int, *interp, fuel as int, last_or_nil(vs), *interp, res));
                assert(source_prefix(text@, pre, fuel as int, ps, ss, vs));
                assert(runs_source(pre, text@, fuel as int, *interp, res));
                return res;
            },
            Err(error) => {
                let start = space_end(rest);
                let res = SourceOutcome::ReadFailed { last, offset: pos + start, error };
                assert(source_end(text@, pos as int, *interp, fuel as int, last_or_nil(vs), *interp, res));
                assert(source_prefix(text@, pre, fuel as int, ps, ss, vs));
                assert(runs_source(pre, text@, fuel as int, *interp, res));
                return res;
            },
        }
    }
}

} // verus!
