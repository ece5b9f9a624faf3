//! The total order on functions: by name (no name first, then by
//! characters), then by number of bodies, then by implementation numbers in
//! body order.
use vstd::prelude::*;
use std::cmp::Ordering;
use crate::function::{Function, FunctionArity, ImplementationId};

verus! {

/// How `a` and `b` order from index `i` on, character by character, a
/// prefix before what it is a prefix of: negative, zero or positive.
pub open spec fn text_order_from(a: Seq<char>, b: Seq<char>, i: int) -> int
    decreases a.len() - i,
{
    if i < 0 {
        0
    } else if i >= a.len() && i >= b.len() {
        0
    } else if i >= a.len() {
        -1
    } else if i >= b.len() {
        1
    } else if (a[i] as u32) < (b[i] as u32) {
        -1
    } else if (a[i] as u32) > (b[i] as u32) {
        1
    } else {
        text_order_from(a, b, i + 1)
    }
}

/// How the implementation numbers of two equally long body sequences order
/// from index `i` on.
pub open spec fn ids_order_from(a: Seq<(FunctionArity, ImplementationId)>, b: Seq<(FunctionArity, ImplementationId)>, i: int) -> int
    decreases a.len() - i,
{
    if i < 0 || i >= a.len() || i >= b.len() {
        0
    } else if a[i].1 < b[i].1 {
        -1
    } else if a[i].1 > b[i].1 {
        1
    } else {
        ids_order_from(a, b, i + 1)
    }
}

/// How two functions order: negative, zero or positive.
pub open spec fn function_order(a: (Option<Seq<char>>, Seq<(FunctionArity, ImplementationId)>), b: (Option<Seq<char>>, Seq<(FunctionArity, ImplementationId)>)) -> int {
    let by_name = match (a.0, b.0) {
        (Some(x), Some(y)) => text_order_from(x, y, 0),
        (None, Some(_)) => -1,
        (Some(_), None) => 1,
        (None, None) => 0,
    };
    if by_name != 0 {
        by_name
    } else if a.1.len() < b.1.len() {
        -1
    } else if a.1.len() > b.1.len() {
        1
    } else {
        ids_order_from(a.1, b.1, 0)
    }
}

/// How two texts order, character by character.
fn text_order(a: &str, b: &str) -> (res: i8)
    ensures
        res as int == text_order_from(a@, b@, 0),
        -1 <= res <= 1,
{
    let la = a.unicode_len();
    let lb = b.unicode_len();
    let mut i: usize = 0;
    while i < la && i < lb
        invariant
            la == a@.len(),
            lb == b@.len(),
            0 <= i <= la,
            i <= lb,
            text_order_from(a@, b@, 0) == text_order_from(a@, b@, i as int),
        decreases la - i,
    {
        let ca = a.get_char(i) as u32;
        let cb = b.get_char(i) as u32;
        if ca < cb {
            return -1;
        }
        if ca > cb {
            return 1;
        }
        i += 1;
    }
    if la == lb {
        0
    } else if la < lb {
        -1
    } else {
        1
    }
}

/// How two functions order, as [`function_order`] says: negative, zero or
/// positive.
pub fn function_order_sign(a: &Function, b: &Function) -> (res: i8)
    ensures
        res as int == function_order(a@, b@),
        -1 <= res <= 1,
{
    let by_name: i8 = match (&a.name, &b.name) {
        (Some(x), Some(y)) => text_order(x.as_str(), y.as_str()),
        (None, Some(_)) => -1,
        (Some(_), None) => 1,
        (None, None) => 0,
    };
    if by_name != 0 {
        return by_name;
    }
    let n = a.bodies.len();
    let m = b.bodies.len();
    if n < m {
        return -1;
    }
    if n > m {
        return 1;
    }
    let mut i: usize = 0;
    while i < n
        invariant
            n == a@.1.len(),
            n == b@.1.len(),
            n == a.bodies@.len(),
            n == b.bodies@.len(),
            0 <= i <= n,
            ids_order_from(a@.1, b@.1, 0) == ids_order_from(a@.1, b@.1, i as int),
            function_order(a@, b@) == ids_order_from(a@.1, b@.1, 0),
        decreases n - i,
    {
        let x = a.bodies[i].func;
        let y = b.bodies[i].func;
        assert(a@.1[i as int].1 == x && b@.1[i as int].1 == y);
        if x < y {
            return -1;
        }
        if x > y {
            return 1;
        }
        i += 1;
    }
    0
}


impl Function {
    /// How this function orders against `other`, as [`function_order`] says.
    pub fn compare_to(&self, other: &Function) -> (res: Ordering)
        ensures
            (res == Ordering::Less) == (function_order(self@, other@) < 0),
            (res == Ordering::Equal) == (function_order(self@, other@) == 0),
            (res == Ordering::Greater) == (function_order(self@, other@) > 0),
    {
        let s = function_order_sign(self, other);
        if s < 0 {
            Ordering::Less
        } else if s == 0 {
            Ordering::Equal
        } else {
            Ordering::Greater
        }
    }
}


/// Comparing texts the other way round flips the sign.
proof fn lemma_text_order_flip(a: Seq<char>, b: Seq<char>, i: int)
    ensures
        text_order_from(a, b, i) == -text_order_from(b, a, i),
    decreases a.len() - i,
{
    if 0 <= i < a.len() && i < b.len() && (a[i] as u32) == (b[i] as u32) {
        lemma_text_order_flip(a, b, i + 1);
    }
}

/// A text orders the same as itself.
proof fn lemma_text_order_same(a: Seq<char>, i: int)
    ensures
        text_order_from(a, a, i) == 0,
    decreases a.len() - i,
{
    if 0 <= i < a.len() {
        lemma_text_order_same(a, i + 1);
    }
}

/// Comparing implementation numbers the other way round flips the sign.
proof fn lemma_ids_order_flip(a: Seq<(FunctionArity, ImplementationId)>, b: Seq<(FunctionArity, ImplementationId)>, i: int)
    ensures
        ids_order_from(a, b, i) == -ids_order_from(b, a, i),
    decreases a.len() - i,
{
    if 0 <= i < a.len() && i < b.len() && a[i].1 == b[i].1 {
        lemma_ids_order_flip(a, b, i + 1);
    }
}

/// Implementation numbers order the same as themselves.
proof fn lemma_ids_order_same(a: Seq<(FunctionArity, ImplementationId)>, i: int)
    ensures
        ids_order_from(a, a, i) == 0,
    decreases a.len() - i,
{
    if 0 <= i < a.len() {
        lemma_ids_order_same(a, i + 1);
    }
}

/// The order on functions is antisymmetric and reflexive: comparing the
/// other way round flips the sign, and a function orders equal to itself.
pub proof fn law_function_order(a: (Option<Seq<char>>, Seq<(FunctionArity, ImplementationId)>), b: (Option<Seq<char>>, Seq<(FunctionArity, ImplementationId)>))
    ensures
        function_order(a, b) == -function_order(b, a),
        function_order(a, a) == 0,
{
    if let (Some(x), Some(y)) = (a.0, b.0) {
        lemma_text_order_flip(x, y, 0);
    }
    if let Some(x) = a.0 {
        lemma_text_order_same(x, 0);
    }
    lemma_ids_order_flip(a.1, b.1, 0);
    lemma_ids_order_same(a.1, 0);
}


/// Text order is transitive, and strictly so where either step is strict.
proof fn lemma_text_order_transitive(a: Seq<char>, b: Seq<char>, c: Seq<char>, i: int)
    requires
        0 <= i,
    ensures
        (text_order_from(a, b, i) <= 0 && text_order_from(b, c, i) <= 0) ==> text_order_from(a, c, i) <= 0,
        (text_order_from(a, b, i) < 0 && text_order_from(b, c, i) <= 0) ==> text_order_from(a, c, i) < 0,
        (text_order_from(a, b, i) <= 0 && text_order_from(b, c, i) < 0) ==> text_order_from(a, c, i) < 0,
    decreases a.len() - i,
{
    if i < a.len() && i < b.len() && i < c.len() && (a[i] as u32) == (b[i] as u32) && (b[i] as u32) == (c[i] as u32) {
        lemma_text_order_transitive(a, b, c, i + 1);
    }
}

/// The order of implementation numbers is transitive on equally long body
/// sequences, and strictly so where either step is strict.
proof fn lemma_ids_order_transitive(a: Seq<(FunctionArity, ImplementationId)>, b: Seq<(FunctionArity, ImplementationId)>, c: Seq<(FunctionArity, ImplementationId)>, i: int)
    requires
        0 <= i,
        a.len() == b.len(),
        b.len() == c.len(),
    ensures
        (ids_order_from(a, b, i) <= 0 && ids_order_from(b, c, i) <= 0) ==> ids_order_from(a, c, i) <= 0,
        (ids_order_from(a, b, i) < 0 && ids_order_from(b, c, i) <= 0) ==> ids_order_from(a, c, i) < 0,
        (ids_order_from(a, b, i) <= 0 && ids_order_from(b, c, i) < 0) ==> ids_order_from(a, c, i) < 0,
    decreases a.len() - i,
{
    if i < a.len() && a[i].1 == b[i].1 && b[i].1 == c[i].1 {
        lemma_ids_order_transitive(a, b, c, i + 1);
    }
}

/// The order on functions is transitive: a function ordered at or before a
/// second that is ordered at or before a third is ordered at or before the
/// third, and strictly before it where either step is strict.
pub proof fn law_function_order_transitive(
    a: (Option<Seq<char>>, Seq<(FunctionArity, ImplementationId)>),
    b: (Option<Seq<char>>, Seq<(FunctionArity, ImplementationId)>),
    c: (Option<Seq<char>>, Seq<(FunctionArity, ImplementationId)>),
)
    requires
        function_order(a, b) <= 0,
        function_order(b, c) <= 0,
    ensures
        function_order(a, c) <= 0,
        (function_order(a, b) < 0 || function_order(b, c) < 0) ==> function_order(a, c) < 0,
{
    if let (Some(x), Some(y), Some(z)) = (a.0, b.0, c.0) {
        lemma_text_order_transitive(x, y, z, 0);
        lemma_text_order_flip(x, y, 0);
        lemma_text_order_flip(y, z, 0);
        lemma_text_order_flip(x, z, 0);
        lemma_text_order_transitive(z, y, x, 0);
    }
    if a.1.len() == b.1.len() && b.1.len() == c.1.len() {
        lemma_ids_order_transitive(a.1, b.1, c.1, 0);
    }
}

} // verus!
