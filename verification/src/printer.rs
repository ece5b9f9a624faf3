//! The printed form of values, as read back by the reader: `nil`, numbers,
//! `"strings"`, symbols, `:keywords`, `(lists)`, `[vectors]`, `#{sets}`,
//! `{maps}`, and `#var[..]`, `#fn[..]`, `#handle[..]` for what has no
//! literal.
//!
//! Printing gives a sequence of pieces. Most are text; floats, and the
//! addresses by which vars, functions and resources are told apart, are left
//! as pieces of their own for the embedding program to write.
use vstd::prelude::*;
use std::sync::Arc;
use crate::float::Float;
use crate::function::{FunctionArity, ImplementationId, PtrFunction, arity_text, decimal_digits, decimal_string};
use crate::handle::Handle;
use crate::map::ValueMap;
use crate::value::{PtrValue, Value};
use crate::var::PtrVar;

verus! {

/// A piece of the printed form of a value.
pub enum Piece {
    /// Text, as it stands.
    Text(String),
    /// A float, written as a decimal number with a fractional part.
    Float(Float),
    /// The address of a var.
    VarAddress(PtrVar),
    /// The address of a function.
    FunctionAddress(PtrFunction),
    /// A whole handle on an outside resource, known by its number.
    Resource(u64),
}

/// A piece, with its text as characters.
pub enum PieceView {
    Text(Seq<char>),
    Float(Float),
    VarAddress(PtrVar),
    FunctionAddress(PtrFunction),
    Resource(u64),
}

/// What a piece stands for.
pub open spec fn piece_view(p: Piece) -> PieceView {
    match p {
        Piece::Text(s) => PieceView::Text(s@),
        Piece::Float(f) => PieceView::Float(f),
        Piece::VarAddress(v) => PieceView::VarAddress(v),
        Piece::FunctionAddress(f) => PieceView::FunctionAddress(f),
        Piece::Resource(n) => PieceView::Resource(n),
    }
}

/// What a sequence of pieces stands for.
pub open spec fn pieces_view(s: Seq<Piece>) -> Seq<PieceView> {
    s.map_values(|p: Piece| piece_view(p))
}

/// One piece of text.
pub open spec fn text(s: Seq<char>) -> Seq<PieceView> {
    seq![PieceView::Text(s)]
}

/// How an integer is written: its decimal digits, after `-` if it is
/// negative.
pub open spec fn int_text(i: int) -> Seq<char> {
    if i < 0 {
        seq!['-'] + decimal_digits((-i) as nat)
    } else {
        decimal_digits(i as nat)
    }
}

/// How a name with an optional namespace is written: `ns/name` or `name`.
pub open spec fn qualified_text(s: (Option<Seq<char>>, Seq<char>)) -> Seq<char> {
    match s.0 {
        Some(ns) => ns + seq!['/'] + s.1,
        None => s.1,
    }
}

/// How a function's name is written inside `#fn[..]`: in quotes, or
/// `<unnamed>`.
pub open spec fn quoted_name_text(name: Option<Seq<char>>) -> Seq<char> {
    match name {
        Some(n) => seq!['"'] + n + seq!['"'],
        None => "<unnamed>"@,
    }
}

/// How a function's name is written inside `#handle[..]`: as it is, or
/// `<unnamed>`.
pub open spec fn plain_name_text(name: Option<Seq<char>>) -> Seq<char> {
    match name {
        Some(n) => n,
        None => "<unnamed>"@,
    }
}

/// The first `n` arities of `bodies` written as a vector of strings, without
/// the brackets: `"1" "2+"`.
pub open spec fn arities_text(bodies: Seq<(FunctionArity, ImplementationId)>, n: int) -> Seq<char>
    decreases n,
{
    if n <= 0 || n > bodies.len() {
        Seq::empty()
    } else if n == 1 {
        seq!['"'] + arity_text(bodies[0].0) + seq!['"']
    } else {
        arities_text(bodies, n - 1) + seq![' ', '"'] + arity_text(bodies[n - 1].0) + seq!['"']
    }
}

/// The printed form of a handle.
pub open spec fn handle_pieces(h: Handle) -> Seq<PieceView> {
    match h {
        Handle::Namespace(n) => text("#handle[jinme.Namespace \""@ + n.name@ + seq!['"', ']']),
        Handle::Function(f) => text("#handle[jinme.Function "@) + seq![PieceView::FunctionAddress(f)]
            + text(seq![' '] + plain_name_text(f@.0) + seq![']']),
        Handle::Resource(n) => seq![PieceView::Resource(n)],
    }
}

/// The printed form of a value.
pub closed spec fn value_pieces(v: Value) -> Seq<PieceView>
    decreases v, 0int, 0int,
{
    match v {
        Value::Nil(_) => text("nil"@),
        Value::Boolean(b, _) => text(if b { "true"@ } else { "false"@ }),
        Value::Integer(i, _) => text(int_text(i as int)),
        Value::Float(f, _) => seq![PieceView::Float(f)],
        Value::String(s, _) => text(seq!['"'] + s@ + seq!['"']),
        Value::Symbol(s, _) => text(qualified_text(s@)),
        Value::Keyword(k, _) => text(seq![':'] + qualified_text(k@)),
        Value::List(l, _) => text(seq!['(']) + items_pieces(l.0@, seq![' '], l.0@.len() as int) + text(seq![')']),
        Value::Vector(l, _) => text(seq!['[']) + items_pieces(l.0@, seq![' '], l.0@.len() as int) + text(seq![']']),
        Value::ValueSet(s, _) => text(seq!['#', '{']) + items_pieces(s.0@, seq![',', ' '], s.0@.len() as int) + text(seq!['}']),
        Value::ValueMap(m, _) => text(seq!['{']) + entries_pieces(m.0@, m.0@.len() as int) + text(seq!['}']),
        Value::Var(var, _) => text("#var["@) + seq![PieceView::VarAddress(var)] + text(seq![']']),
        Value::Function(f, _) => text("#fn["@) + seq![PieceView::FunctionAddress(f)]
            + text(seq![' '] + quoted_name_text(f@.0) + seq![' ', '['] + arities_text(f@.1, f@.1.len() as int) + seq![']', ']']),
        Value::Handle(h, _) => handle_pieces(h),
    }
}

/// What [`value_pieces`] gives for each kind of value, over the views of
/// the collections.
pub proof fn lemma_value_pieces(v: Value)
    ensures
        value_pieces(v) == match v {
            Value::Nil(_) => text("nil"@),
            Value::Boolean(b, _) => text(if b { "true"@ } else { "false"@ }),
            Value::Integer(i, _) => text(int_text(i as int)),
            Value::Float(f, _) => seq![PieceView::Float(f)],
            Value::String(s, _) => text(seq!['"'] + s@ + seq!['"']),
            Value::Symbol(s, _) => text(qualified_text(s@)),
            Value::Keyword(k, _) => text(seq![':'] + qualified_text(k@)),
            Value::List(l, _) => text(seq!['(']) + items_pieces(l@, seq![' '], l@.len() as int) + text(seq![')']),
            Value::Vector(l, _) => text(seq!['[']) + items_pieces(l@, seq![' '], l@.len() as int) + text(seq![']']),
            Value::ValueSet(s, _) => text(seq!['#', '{']) + items_pieces(s@, seq![',', ' '], s@.len() as int) + text(seq!['}']),
            Value::ValueMap(m, _) => text(seq!['{']) + entries_pieces(m@, m@.len() as int) + text(seq!['}']),
            Value::Var(var, _) => text("#var["@) + seq![PieceView::VarAddress(var)] + text(seq![']']),
            Value::Function(f, _) => text("#fn["@) + seq![PieceView::FunctionAddress(f)]
                + text(seq![' '] + quoted_name_text(f@.0) + seq![' ', '['] + arities_text(f@.1, f@.1.len() as int) + seq![']', ']']),
            Value::Handle(h, _) => handle_pieces(h),
        },
{
    match v {
        Value::List(l, _) => crate::list::lemma_list_view(l),
        Value::Vector(l, _) => crate::vector::lemma_vector_view(l),
        Value::ValueSet(s, _) => crate::set::lemma_set_view(s),
        Value::ValueMap(m, _) => crate::map::lemma_map_view(m),
        _ => {},
    }
}

/// What [`map_pieces`] gives, over the view of the map.
pub proof fn lemma_map_pieces(m: ValueMap)
    ensures
        map_pieces(m) == text(seq!['{']) + entries_pieces(m@, m@.len() as int) + text(seq!['}']),
{
    crate::map::lemma_map_view(m);
}

/// The printed forms of the first `n` values of `xs`, with `sep` between
/// them.
pub open spec fn items_pieces(xs: Seq<PtrValue>, sep: Seq<char>, n: int) -> Seq<PieceView>
    decreases xs, 1int, n,
{
    if n <= 0 || n > xs.len() {
        Seq::empty()
    } else if n == 1 {
        value_pieces(*xs[0])
    } else {
        items_pieces(xs, sep, n - 1) + text(sep) + value_pieces(*xs[n - 1])
    }
}

/// The printed forms of the first `n` entries of a map, key and value apart
/// by a space, entries apart by `, `.
pub open spec fn entries_pieces(es: Seq<(PtrValue, PtrValue)>, n: int) -> Seq<PieceView>
    decreases es, 1int, n,
{
    if n <= 0 || n > es.len() {
        Seq::empty()
    } else if n == 1 {
        value_pieces(*es[0].0) + text(seq![' ']) + value_pieces(*es[0].1)
    } else {
        entries_pieces(es, n - 1) + text(seq![',', ' ']) + value_pieces(*es[n - 1].0) + text(seq![' '])
            + value_pieces(*es[n - 1].1)
    }
}

/// The printed form of a map.
pub closed spec fn map_pieces(m: ValueMap) -> Seq<PieceView> {
    text(seq!['{']) + entries_pieces(m.0@, m.0@.len() as int) + text(seq!['}'])
}

/// The one- and two-character strings the printer writes, as characters.
proof fn lemma_short_literals()
    ensures
        " "@ == seq![' '],
        ", "@ == seq![',', ' '],
        "("@ == seq!['('],
        ")"@ == seq![')'],
        "["@ == seq!['['],
        "]"@ == seq![']'],
        "#{"@ == seq!['#', '{'],
        "{"@ == seq!['{'],
        "}"@ == seq!['}'],
        "{}"@ == seq!['{', '}'],
        "\""@ == seq!['"'],
        ":"@ == seq![':'],
        "/"@ == seq!['/'],
        "-"@ == seq!['-'],
        " ["@ == seq![' ', '['],
        "]]"@ == seq![']', ']'],
        "\"]"@ == seq!['"', ']'],
        " \""@ == seq![' ', '"'],
        "\n"@ == seq!['\n'],
{
    reveal_strlit(" ");
    reveal_strlit(", ");
    reveal_strlit("(");
    reveal_strlit(")");
    reveal_strlit("[");
    reveal_strlit("]");
    reveal_strlit("#{");
    reveal_strlit("{");
    reveal_strlit("}");
    reveal_strlit("{}");
    reveal_strlit("\"");
    reveal_strlit(":");
    reveal_strlit("/");
    reveal_strlit("-");
    reveal_strlit(" [");
    reveal_strlit("]]");
    reveal_strlit("\"]");
    reveal_strlit(" \"");
    reveal_strlit("\n");
    assert(" "@ =~= seq![' ']);
    assert(", "@ =~= seq![',', ' ']);
    assert("("@ =~= seq!['(']);
    assert(")"@ =~= seq![')']);
    assert("["@ =~= seq!['[']);
    assert("]"@ =~= seq![']']);
    assert("#{"@ =~= seq!['#', '{']);
    assert("{"@ =~= seq!['{']);
    assert("}"@ =~= seq!['}']);
    assert("{}"@ =~= seq!['{', '}']);
    assert("\""@ =~= seq!['"']);
    assert(":"@ =~= seq![':']);
    assert("/"@ =~= seq!['/']);
    assert("-"@ =~= seq!['-']);
    assert(" ["@ =~= seq![' ', '[']);
    assert("]]"@ =~= seq![']', ']']);
    assert("\"]"@ =~= seq!['"', ']']);
    assert(" \""@ =~= seq![' ', '"']);
    assert("\n"@ =~= seq!['\n']);
}

/// Adds a piece of text.
fn push_text(out: &mut Vec<Piece>, s: String)
    ensures
        pieces_view(final(out)@) == pieces_view(old(out)@) + text(s@),
{
    let ghost before = out@;
    out.push(Piece::Text(s));
    assert(pieces_view(out@) =~= pieces_view(before) + text(s@));
}

/// Adds a piece that is no text.
fn push_piece(out: &mut Vec<Piece>, p: Piece)
    ensures
        pieces_view(final(out)@) == pieces_view(old(out)@) + seq![piece_view(p)],
{
    let ghost before = out@;
    out.push(p);
    assert(pieces_view(out@) =~= pieces_view(before) + seq![piece_view(p)]);
}

/// Writes an integer in decimal.
pub fn int_string(i: i64) -> (res: String)
    ensures
        res@ == int_text(i as int),
{
    if i < 0 {
        let magnitude: u64 = if i == i64::MIN {
            9223372036854775808u64
        } else {
            (-i) as u64
        };
        let mut s = String::from_str("-");
        proof {
            lemma_short_literals();
        }
        s.append(decimal_string(magnitude).as_str());
        s
    } else {
        decimal_string(i as u64)
    }
}

/// Writes a name with an optional namespace: `ns/name` or `name`.
fn qualified_string(namespace: Option<&str>, name: &str) -> (res: String)
    ensures
        res@ == qualified_text((match namespace {
            Some(ns) => Some(ns@),
            None => None,
        }, name@)),
{
    match namespace {
        Some(ns) => {
            let mut s = String::from_str(ns);
            proof {
                lemma_short_literals();
            }
            s.append("/");
            s.append(name);
            s
        },
        None => String::from_str(name),
    }
}

/// Writes the arities of a function as the inside of a vector of strings.
fn arities_string(f: &PtrFunction) -> (res: String)
    ensures
        res@ == arities_text((**f)@.1, (**f)@.1.len() as int),
{
    let strings = f.arity_strings();
    let mut s = String::new();
    let mut i: usize = 0;
    while i < strings.len()
        invariant
            0 <= i <= strings@.len(),
            strings@.len() == (**f)@.1.len(),
            forall|k: int| 0 <= k < strings@.len() ==> #[trigger] strings@[k]@ == arity_text((**f)@.1[k].0),
            s@ == arities_text((**f)@.1, i as int),
        decreases strings@.len() - i,
    {
        proof {
            lemma_short_literals();
        }
        if i > 0 {
            s.append(" \"");
        } else {
            s.append("\"");
        }
        s.append(strings[i].as_str());
        s.append("\"");
        i += 1;
    }
    s
}

/// Writes a function's name for `#fn[..]`: in quotes, or `<unnamed>`.
fn quoted_name_string(f: &PtrFunction) -> (res: String)
    ensures
        res@ == quoted_name_text((**f)@.0),
{
    match f.name() {
        Some(n) => {
            let mut s = String::from_str("\"");
            proof {
                lemma_short_literals();
            }
            s.append(n);
            s.append("\"");
            s
        },
        None => String::from_str("<unnamed>"),
    }
}

/// Writes a function's name for `#handle[..]`: as it is, or `<unnamed>`.
fn plain_name_string(f: &PtrFunction) -> (res: String)
    ensures
        res@ == plain_name_text((**f)@.0),
{
    match f.name() {
        Some(n) => String::from_str(n),
        None => String::from_str("<unnamed>"),
    }
}

/// Adds the printed form of a handle.
fn push_handle_pieces(out: &mut Vec<Piece>, h: &Handle)
    ensures
        pieces_view(final(out)@) == pieces_view(old(out)@) + handle_pieces(*h),
{
    proof {
        lemma_short_literals();
    }
    match h {
        Handle::Namespace(n) => {
            let mut s = String::from_str("#handle[jinme.Namespace \"");
            s.append(n.name.name());
            s.append("\"]");
            push_text(out, s);
        },
        Handle::Function(f) => {
            push_text(out, String::from_str("#handle[jinme.Function "));
            push_piece(out, Piece::FunctionAddress(f.clone()));
            let mut s = String::from_str(" ");
            s.append(plain_name_string(f).as_str());
            s.append("]");
            push_text(out, s);
            assert(pieces_view(out@) =~= pieces_view(old(out)@) + handle_pieces(*h));
        },
        Handle::Resource(n) => {
            push_piece(out, Piece::Resource(*n));
        },
    }
}

/// Adds the printed forms of `xs`, with `sep` between them.
fn push_items_pieces(out: &mut Vec<Piece>, xs: &Vec<PtrValue>, sep: &str)
    ensures
        pieces_view(final(out)@) == pieces_view(old(out)@) + items_pieces(xs@, sep@, xs@.len() as int),
    decreases xs@, 1int, 0int,
{
    let ghost start = pieces_view(out@);
    let mut i: usize = 0;
    while i < xs.len()
        invariant
            0 <= i <= xs@.len(),
            pieces_view(out@) == start + items_pieces(xs@, sep@, i as int),
        decreases xs@.len() - i,
    {
        let ghost mid = pieces_view(out@);
        if i > 0 {
            push_text(out, String::from_str(sep));
        }
        push_value_pieces(out, &*xs[i]);
        proof {
            if i == 0 {
                assert(pieces_view(out@) =~= start + items_pieces(xs@, sep@, 1));
            } else {
                assert(pieces_view(out@) =~= start + items_pieces(xs@, sep@, i as int + 1));
            }
        }
        i += 1;
    }
}

/// Adds the printed forms of the entries of a map.
fn push_entries_pieces(out: &mut Vec<Piece>, es: &Vec<(PtrValue, PtrValue)>)
    ensures
        pieces_view(final(out)@) == pieces_view(old(out)@) + entries_pieces(es@, es@.len() as int),
    decreases es@, 1int, 0int,
{
    let ghost start = pieces_view(out@);
    let mut i: usize = 0;
    while i < es.len()
        invariant
            0 <= i <= es@.len(),
            pieces_view(out@) == start + entries_pieces(es@, i as int),
        decreases es@.len() - i,
    {
        proof {
            lemma_short_literals();
        }
        if i > 0 {
            push_text(out, String::from_str(", "));
        }
        push_value_pieces(out, &*es[i].0);
        push_text(out, String::from_str(" "));
        push_value_pieces(out, &*es[i].1);
        proof {
            if i == 0 {
                assert(pieces_view(out@) =~= start + entries_pieces(es@, 1));
            } else {
                assert(pieces_view(out@) =~= start + entries_pieces(es@, i as int + 1));
            }
        }
        i += 1;
    }
}

/// Adds the printed form of a value.
fn push_value_pieces(out: &mut Vec<Piece>, v: &Value)
    ensures
        pieces_view(final(out)@) == pieces_view(old(out)@) + value_pieces(*v),
    decreases *v, 0int, 0int,
{
    proof {
        lemma_short_literals();
    }
    let ghost start = pieces_view(out@);
    match v {
        Value::Nil(_) => push_text(out, String::from_str("nil")),
        Value::Boolean(b, _) => {
            if *b {
                push_text(out, String::from_str("true"));
            } else {
                push_text(out, String::from_str("false"));
            }
        },
        Value::Integer(i, _) => push_text(out, int_string(*i)),
        Value::Float(f, _) => push_piece(out, Piece::Float(*f)),
        Value::String(s, _) => {
            let mut t = String::from_str("\"");
            t.append(s.as_str());
            t.append("\"");
            push_text(out, t);
        },
        Value::Symbol(s, _) => push_text(out, qualified_string(s.namespace(), s.name())),
        Value::Keyword(k, _) => {
            let mut t = String::from_str(":");
            t.append(qualified_string(k.namespace(), k.name()).as_str());
            push_text(out, t);
        },
        Value::List(l, _) => {
            push_text(out, String::from_str("("));
            push_items_pieces(out, &l.0, " ");
            push_text(out, String::from_str(")"));
            assert(pieces_view(out@) =~= start + value_pieces(*v));
        },
        Value::Vector(l, _) => {
            push_text(out, String::from_str("["));
            push_items_pieces(out, &l.0, " ");
            push_text(out, String::from_str("]"));
            assert(pieces_view(out@) =~= start + value_pieces(*v));
        },
        Value::ValueSet(s, _) => {
            push_text(out, String::from_str("#{"));
            push_items_pieces(out, &s.0, ", ");
            push_text(out, String::from_str("}"));
            assert(pieces_view(out@) =~= start + value_pieces(*v));
        },
        Value::ValueMap(m, _) => {
            push_text(out, String::from_str("{"));
            push_entries_pieces(out, &m.0);
            push_text(out, String::from_str("}"));
            assert(pieces_view(out@) =~= start + value_pieces(*v));
        },
        Value::Var(var, _) => {
            push_text(out, String::from_str("#var["));
            push_piece(out, Piece::VarAddress(var.clone()));
            push_text(out, String::from_str("]"));
            assert(pieces_view(out@) =~= start + value_pieces(*v));
        },
        Value::Function(f, _) => {
            push_text(out, String::from_str("#fn["));
            push_piece(out, Piece::FunctionAddress(f.clone()));
            let mut t = String::from_str(" ");
            t.append(quoted_name_string(f).as_str());
            t.append(" [");
            t.append(arities_string(f).as_str());
            t.append("]]");
            push_text(out, t);
            assert(pieces_view(out@) =~= start + value_pieces(*v));
        },
        Value::Handle(h, _) => push_handle_pieces(out, h),
    }
}

/// The printed form of a value.
pub fn display_pieces(v: &Value) -> (res: Vec<Piece>)
    ensures
        pieces_view(res@) == value_pieces(*v),
{
    let mut out: Vec<Piece> = Vec::new();
    assert(pieces_view(out@) =~= Seq::<PieceView>::empty());
    push_value_pieces(&mut out, v);
    assert(Seq::<PieceView>::empty() + value_pieces(*v) =~= value_pieces(*v));
    out
}

/// Whether every piece is text.
pub open spec fn all_text(s: Seq<PieceView>) -> bool {
    forall|i: int| 0 <= i < s.len() ==> #[trigger] s[i] is Text
}

/// The text of the first `n` pieces, all of them text.
pub open spec fn joined_text(s: Seq<PieceView>, n: int) -> Seq<char>
    decreases n,
{
    if n <= 0 || n > s.len() {
        Seq::empty()
    } else {
        joined_text(s, n - 1) + s[n - 1]->Text_0
    }
}

/// The text of the pieces, where every piece is text.
pub fn text_of(pieces: &Vec<Piece>) -> (res: Option<String>)
    ensures
        all_text(pieces_view(pieces@)) ==> (res matches Some(s)
            && s@ == joined_text(pieces_view(pieces@), pieces@.len() as int)),
        !all_text(pieces_view(pieces@)) ==> res is None,
{
    let ghost ps = pieces_view(pieces@);
    let mut s = String::new();
    let mut i: usize = 0;
    while i < pieces.len()
        invariant
            0 <= i <= pieces@.len(),
            ps == pieces_view(pieces@),
            forall|k: int| 0 <= k < i ==> #[trigger] ps[k] is Text,
            s@ == joined_text(ps, i as int),
        decreases pieces@.len() - i,
    {
        match &pieces[i] {
            Piece::Text(t) => {
                s.append(t.as_str());
            },
            _ => {
                assert(!(ps[i as int] is Text));
                return None;
            },
        }
        i += 1;
    }
    Some(s)
}

/// The printed form of metadata: `{}` where there is none.
pub(crate) fn meta_pieces(meta: &Option<Arc<ValueMap>>) -> (res: Vec<Piece>)
    ensures
        meta is None ==> pieces_view(res@) == text(seq!['{', '}']),
        meta matches Some(m) ==> pieces_view(res@) == map_pieces(**m),
{
    proof {
        lemma_short_literals();
    }
    let mut out: Vec<Piece> = Vec::new();
    assert(pieces_view(out@) =~= Seq::<PieceView>::empty());
    match meta {
        None => push_text(&mut out, String::from_str("{}")),
        Some(m) => {
            push_text(&mut out, String::from_str("{"));
            push_entries_pieces(&mut out, &m.0);
            push_text(&mut out, String::from_str("}"));
        },
    }
    assert(pieces_view(out@) =~= Seq::<PieceView>::empty() + pieces_view(out@));
    out
}


/// What `prn` writes for `args`: their printed forms apart by spaces, then a
/// newline.
pub fn prn_pieces(args: &Vec<PtrValue>) -> (res: Vec<Piece>)
    ensures
        pieces_view(res@) == items_pieces(args@, seq![' '], args@.len() as int) + text(seq!['\n']),
{
    proof {
        lemma_short_literals();
    }
    let mut out: Vec<Piece> = Vec::new();
    assert(pieces_view(out@) =~= Seq::<PieceView>::empty());
    push_items_pieces(&mut out, args, " ");
    push_text(&mut out, String::from_str("\n"));
    assert(Seq::<PieceView>::empty() + items_pieces(args@, seq![' '], args@.len() as int) =~= items_pieces(args@, seq![' '], args@.len() as int));
    out
}

} // verus!
