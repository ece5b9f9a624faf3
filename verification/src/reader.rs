//! The reader: text to values.
//!
//! Forms are separated by whitespace (commas count as whitespace) and `;`
//! comments. A form is a list `( .. )`, a vector `[ .. ]`, a map `{ .. }`, a
//! set `#{ .. }`, a string `".."` (with the escapes `\"`, `\\`, `\n`, `\t`,
//! `\r`), a keyword `:name` or `:ns/name`, or a token: `nil`, `true`,
//! `false`, an integer, a decimal number with a point, or a symbol (`name`
//! or `ns/name`).
use vstd::prelude::*;
use crate::float::{Float, decimal_double};
use crate::map::{assoc_all, pair_up, value_pairs_of};
use crate::value::{PtrValue, Value};

verus! {

/// Why reading failed.
#[derive(Debug)]
pub enum ReadError {
    /// The text ended inside a form.
    UnexpectedEnd,
    /// A closing delimiter with no form open, or of the wrong kind.
    UnexpectedCloser(char),
    /// A string escape that is not known.
    BadEscape(char),
    /// A token that starts like a number is none, or does not fit in 64 bits.
    BadNumber,
    /// A map literal with an odd number of forms.
    OddMapForms,
    /// A `:` with no name after it, or a `#` not followed by `{`.
    BadToken,
}

/// Whether a character separates forms.
pub open spec fn is_space(c: char) -> bool {
    c == ' ' || c == '\t' || c == '\n' || c == '\r' || c == ','
}

/// Whether a character ends a token.
pub open spec fn is_delimiter(c: char) -> bool {
    is_space(c) || c == '(' || c == ')' || c == '[' || c == ']' || c == '{' || c == '}' || c == '"' || c == ';'
}

/// The index of the end of the line that index `i` is on.
pub open spec fn line_end(s: Seq<char>, i: int) -> int
    decreases s.len() - i,
{
    if i < 0 || i >= s.len() || s[i] == '\n' {
        i
    } else {
        line_end(s, i + 1)
    }
}

/// The end of a line is at or after where the line is entered.
pub proof fn lemma_line_end_after(s: Seq<char>, i: int)
    requires
        0 <= i,
    ensures
        i <= line_end(s, i),
    decreases s.len() - i,
{
    if 0 <= i < s.len() && s[i] != '\n' {
        lemma_line_end_after(s, i + 1);
    }
}

/// The index of the first character at or after `i` that is neither
/// whitespace nor inside a comment.
pub open spec fn skip_space(s: Seq<char>, i: int) -> int
    decreases s.len() - i,
{
    if i < 0 || i >= s.len() {
        i
    } else if is_space(s[i]) {
        skip_space(s, i + 1)
    } else if s[i] == ';' {
        if line_end(s, i) >= s.len() {
            s.len() as int
        } else {
            proof {
                lemma_line_end_after(s, i);
            }
            skip_space(s, line_end(s, i) + 1)
        }
    } else {
        i
    }
}

/// The index of the first delimiter at or after `i`.
pub open spec fn token_end(s: Seq<char>, i: int) -> int
    decreases s.len() - i,
{
    if i < 0 || i >= s.len() || is_delimiter(s[i]) {
        i
    } else {
        token_end(s, i + 1)
    }
}

/// Whether a character is a decimal digit.
pub open spec fn is_digit(c: char) -> bool {
    '0' <= c && c <= '9'
}

/// Whether a text is made of decimal digits, at least one.
pub open spec fn all_digits(t: Seq<char>) -> bool {
    t.len() > 0 && forall|i: int| 0 <= i < t.len() ==> is_digit(#[trigger] t[i])
}

/// The number decimal digits spell.
pub open spec fn digits_value(t: Seq<char>) -> int
    decreases t.len(),
{
    if t.len() == 0 {
        0
    } else {
        digits_value(t.drop_last()) * 10 + (t.last() as int - '0' as int)
    }
}

/// The integer an integer token spells: digits, with `-` or `+` before them
/// or not.
pub open spec fn integer_token(t: Seq<char>) -> Option<int> {
    if all_digits(t) {
        Some(digits_value(t))
    } else if t.len() > 1 && t[0] == '-' && all_digits(t.drop_first()) {
        Some(-digits_value(t.drop_first()))
    } else if t.len() > 1 && t[0] == '+' && all_digits(t.drop_first()) {
        Some(digits_value(t.drop_first()))
    } else {
        None
    }
}

/// A token without the sign it may start with.
pub open spec fn unsigned_part(t: Seq<char>) -> Seq<char> {
    if t.len() > 0 && (t[0] == '-' || t[0] == '+') {
        t.drop_first()
    } else {
        t
    }
}

/// Whether a text is digits, a point, and digits.
pub open spec fn is_point_number(u: Seq<char>) -> bool {
    exists|p: int| #![trigger u[p]] 0 < p < u.len() - 1 && u[p] == '.' && all_digits(u.take(p)) && all_digits(u.skip(p + 1))
}

/// Whether a text is digits, a point, and digits, with a sign before or not.
pub open spec fn is_decimal_token(t: Seq<char>) -> bool {
    is_point_number(unsigned_part(t))
}

/// Whether a token starts like a number: a digit, or a sign and a digit.
pub open spec fn looks_numeric(t: Seq<char>) -> bool {
    (t.len() > 0 && is_digit(t[0])) || (t.len() > 1 && (t[0] == '-' || t[0] == '+') && is_digit(t[1]))
}

/// The index of the first `/` in `t`, or its length.
pub open spec fn first_slash(t: Seq<char>, i: int) -> int
    decreases t.len() - i,
{
    if i < 0 || i >= t.len() || t[i] == '/' {
        i
    } else {
        first_slash(t, i + 1)
    }
}

/// The namespace and the name a symbol or keyword text gives: split at its
/// first `/` where there is text on both sides, whole otherwise.
pub open spec fn name_parts(t: Seq<char>) -> (Option<Seq<char>>, Seq<char>) {
    let p = first_slash(t, 0);
    if 0 < p < t.len() - 1 {
        (Some(t.take(p)), t.skip(p + 1))
    } else {
        (None, t)
    }
}

/// What a token reads as: `nil`, a boolean, an integer, a decimal number or
/// a symbol; `None` where it starts like a number and is none that fits.
pub open spec fn token_value_ok(t: Seq<char>, v: Value) -> bool {
    if t == "nil"@ {
        v == Value::Nil(None)
    } else if t == "true"@ {
        v == Value::Boolean(true, None)
    } else if t == "false"@ {
        v == Value::Boolean(false, None)
    } else if integer_token(t) is Some {
        v matches Value::Integer(k, None) && k == integer_token(t).unwrap()
    } else if is_decimal_token(t) {
        v matches Value::Float(f, None) && decimal_double(t) == Some(f.bits())
    } else {
        v matches Value::Symbol(s, None) && s@ == name_parts(t) && !looks_numeric(t)
    }
}

/// The characters a string literal's body stands for, its escapes
/// replaced; `None` for an unknown escape or a lone `\` at the end.
pub open spec fn unescape(t: Seq<char>) -> Option<Seq<char>>
    decreases t.len(),
{
    if t.len() == 0 {
        Some(Seq::empty())
    } else if t[0] != '\\' {
        match unescape(t.drop_first()) {
            Some(r) => Some(seq![t[0]] + r),
            None => None,
        }
    } else if t.len() < 2 {
        None
    } else {
        let c = t[1];
        let e = if c == 'n' { '\n' } else if c == 't' { '\t' } else if c == 'r' { '\r' } else { c };
        if c == 'n' || c == 't' || c == 'r' || c == '"' || c == '\\' {
            match unescape(t.skip(2)) {
                Some(r) => Some(seq![e] + r),
                None => None,
            }
        } else {
            None
        }
    }
}

/// What reading a string body does, escape by escape: a character other
/// than `\` stands for itself; `\n`, `\t` and `\r` stand for a newline, a
/// tab and a carriage return, `\"` for a quote and `\\` for a backslash;
/// any other escape, or a `\` at the end, cannot be read. In each case the
/// rest of the body is read the same way after it.
pub proof fn law_unescape_escapes(c: char, rest: Seq<char>)
    ensures
        c != '\\' ==> unescape(seq![c] + rest) == match unescape(rest) {
            Some(u) => Some(seq![c] + u),
            None => None::<Seq<char>>,
        },
        unescape(seq!['\\', 'n'] + rest) == match unescape(rest) {
            Some(u) => Some(seq!['\n'] + u),
            None => None::<Seq<char>>,
        },
        unescape(seq!['\\', 't'] + rest) == match unescape(rest) {
            Some(u) => Some(seq!['\t'] + u),
            None => None::<Seq<char>>,
        },
        unescape(seq!['\\', 'r'] + rest) == match unescape(rest) {
            Some(u) => Some(seq!['\r'] + u),
            None => None::<Seq<char>>,
        },
        unescape(seq!['\\', '"'] + rest) == match unescape(rest) {
            Some(u) => Some(seq!['"'] + u),
            None => None::<Seq<char>>,
        },
        unescape(seq!['\\', '\\'] + rest) == match unescape(rest) {
            Some(u) => Some(seq!['\\'] + u),
            None => None::<Seq<char>>,
        },
        !(c == 'n' || c == 't' || c == 'r' || c == '"' || c == '\\') ==> unescape(seq!['\\', c] + rest) is None,
        unescape(seq!['\\']) is None,
{
    assert((seq![c] + rest).drop_first() =~= rest);
    assert((seq!['\\', 'n'] + rest).skip(2) =~= rest);
    assert((seq!['\\', 't'] + rest).skip(2) =~= rest);
    assert((seq!['\\', 'r'] + rest).skip(2) =~= rest);
    assert((seq!['\\', '"'] + rest).skip(2) =~= rest);
    assert((seq!['\\', '\\'] + rest).skip(2) =~= rest);
}

/// Whether a token can be read: a word, an integer that fits in 64 bits, a
/// decimal number, or anything that does not start like a number.
pub open spec fn token_readable(t: Seq<char>) -> bool {
    if t == "nil"@ || t == "true"@ || t == "false"@ {
        true
    } else if integer_token(t) is Some {
        i64::MIN <= integer_token(t).unwrap() <= i64::MAX
    } else if is_decimal_token(t) {
        decimal_double(t) is Some
    } else {
        !looks_numeric(t)
    }
}

/// The index of the `"` that closes a string literal whose body starts at
/// `i`, a `\` escaping the character after it; the length where there is
/// none.
pub open spec fn string_end(s: Seq<char>, i: int) -> int
    decreases s.len() - i,
{
    if i < 0 || i >= s.len() {
        s.len() as int
    } else if s[i] == '"' {
        i
    } else if s[i] == '\\' {
        if i + 1 >= s.len() {
            s.len() as int
        } else {
            string_end(s, i + 2)
        }
    } else {
        string_end(s, i + 1)
    }
}

/// A form as the text spells it: the forms inside a collection, the
/// characters a string stands for (its escapes replaced), the text of a
/// keyword after its `:`, or a token.
pub enum Form {
    List(Seq<Form>),
    Vector(Seq<Form>),
    MapForm(Seq<Form>),
    SetForm(Seq<Form>),
    Str(Seq<char>),
    Keyword(Seq<char>),
    Token(Seq<char>),
}

/// The character that a string literal body that cannot be unescaped is
/// refused for: its first unknown escape, or `\` for a lone `\` at its end.
pub open spec fn escape_error(t: Seq<char>) -> char
    decreases t.len(),
{
    if t.len() == 0 {
        '\\'
    } else if t[0] != '\\' {
        escape_error(t.drop_first())
    } else if t.len() < 2 {
        '\\'
    } else {
        let c = t[1];
        if c == 'n' || c == 't' || c == 'r' || c == '"' || c == '\\' {
            escape_error(t.skip(2))
        } else {
            c
        }
    }
}

/// Whether a character closes a collection.
pub open spec fn is_closer_char(c: char) -> bool {
    c == ')' || c == ']' || c == '}'
}

/// Skipping whitespace and comments never moves back.
pub proof fn lemma_skip_space_after(s: Seq<char>, i: int)
    requires
        0 <= i,
    ensures
        i <= skip_space(s, i),
    decreases s.len() - i,
{
    if 0 <= i < s.len() {
        if is_space(s[i]) {
            lemma_skip_space_after(s, i + 1);
        } else if s[i] == ';' && line_end(s, i) < s.len() {
            lemma_line_end_after(s, i);
            lemma_skip_space_after(s, line_end(s, i) + 1);
        }
    }
}

/// The form that starts at index `i` of `s`, with the index after it, or
/// why it cannot be read.
pub open spec fn parse_form(s: Seq<char>, i: int) -> Result<(Form, int), ReadError>
    decreases s.len() - i, 0int,
{
    if i < 0 || i >= s.len() {
        Err(ReadError::UnexpectedEnd)
    } else {
        let c = s[i];
        if c == '(' {
            match parse_items(s, i + 1, ')') {
                Ok((fs, j)) => Ok((Form::List(fs), j)),
                Err(e) => Err(e),
            }
        } else if c == '[' {
            match parse_items(s, i + 1, ']') {
                Ok((fs, j)) => Ok((Form::Vector(fs), j)),
                Err(e) => Err(e),
            }
        } else if c == '{' {
            match parse_items(s, i + 1, '}') {
                Ok((fs, j)) => if fs.len() % 2 != 0 {
                    Err(ReadError::OddMapForms)
                } else {
                    Ok((Form::MapForm(fs), j))
                },
                Err(e) => Err(e),
            }
        } else if c == '#' {
            if i + 1 < s.len() && s[i + 1] == '{' {
                match parse_items(s, i + 2, '}') {
                    Ok((fs, j)) => Ok((Form::SetForm(fs), j)),
                    Err(e) => Err(e),
                }
            } else {
                Err(ReadError::BadToken)
            }
        } else if is_closer_char(c) {
            Err(ReadError::UnexpectedCloser(c))
        } else if c == '"' {
            let end = string_end(s, i + 1);
            if end >= s.len() {
                Err(ReadError::UnexpectedEnd)
            } else {
                match unescape(s.subrange(i + 1, end)) {
                    Some(t) => Ok((Form::Str(t), end + 1)),
                    None => Err(ReadError::BadEscape(escape_error(s.subrange(i + 1, end)))),
                }
            }
        } else if c == ':' {
            let end = token_end(s, i + 1);
            if end == i + 1 {
                Err(ReadError::BadToken)
            } else {
                Ok((Form::Keyword(s.subrange(i + 1, end)), end))
            }
        } else {
            let end = token_end(s, i);
            if end == i {
                Err(ReadError::BadToken)
            } else if token_readable(s.subrange(i, end)) {
                Ok((Form::Token(s.subrange(i, end)), end))
            } else {
                Err(ReadError::BadNumber)
            }
        }
    }
}

/// The forms from index `p` of `s` on, up to the `closer` that ends them,
/// with the index after the closer, or why they cannot be read.
pub open spec fn parse_items(s: Seq<char>, p: int, closer: char) -> Result<(Seq<Form>, int), ReadError>
    decreases s.len() - p, 1int,
{
    if p < 0 {
        Err(ReadError::UnexpectedEnd)
    } else {
        let q = skip_space(s, p);
        proof {
            lemma_skip_space_after(s, p);
        }
        if q >= s.len() {
            Err(ReadError::UnexpectedEnd)
        } else if s[q] == closer {
            Ok((Seq::empty(), q + 1))
        } else if is_closer_char(s[q]) {
            Err(ReadError::UnexpectedCloser(s[q]))
        } else {
            match parse_form(s, q) {
                Err(e) => Err(e),
                Ok((f, k)) => if k <= q || k > s.len() {
                    Err(ReadError::UnexpectedEnd)
                } else {
                    match parse_items(s, k, closer) {
                        Ok((fs, j)) => Ok((seq![f] + fs, j)),
                        Err(e) => Err(e),
                    }
                },
            }
        }
    }
}

/// Whether each of `items` is the value the form at its index in `fs`
/// reads as.
pub open spec fn all_denote(fs: Seq<Form>, items: Seq<PtrValue>) -> bool
    decreases fs, 0int,
{
    &&& items.len() == fs.len()
    &&& forall|i: int| 0 <= i < fs.len() ==> denotes(fs[i], *#[trigger] items[i])
}

/// Whether `v` is the value that the form `f` reads as: a collection of the
/// values its forms read as (a set without the repeated ones, a map of its
/// forms two by two, a later key replacing an earlier one), a string of its
/// characters, a keyword or a symbol of the names its text gives, or the
/// value of a token.
pub open spec fn denotes(f: Form, v: Value) -> bool
    decreases f, 1int,
{
    match f {
        Form::List(fs) => v matches Value::List(l, None) && all_denote(fs, l@),
        Form::Vector(fs) => v matches Value::Vector(l, None) && all_denote(fs, l@),
        Form::SetForm(fs) => v matches Value::ValueSet(x, None) && exists|items: Seq<PtrValue>|
            #![trigger crate::set::dedup_values(items)]
            all_denote(fs, items) && x@ == crate::set::dedup_values(items),
        Form::MapForm(fs) => v matches Value::ValueMap(m, None) && exists|items: Seq<PtrValue>|
            #![trigger value_pairs_of(items)]
            all_denote(fs, items) && m@ == assoc_all(Seq::empty(), value_pairs_of(items)),
        Form::Str(t) => v matches Value::String(x, None) && x@ == t,
        Form::Keyword(t) => v matches Value::Keyword(k, None) && k@ == name_parts(t),
        Form::Token(t) => token_value_ok(t, v),
    }
}

/// The characters of a text.
pub(crate) fn chars_of(s: &str) -> (res: Vec<char>)
    ensures
        res@ == s@,
{
    broadcast use vstd::string::axiom_spec_iter;
    let mut res: Vec<char> = Vec::new();
    for c in it: s.chars()
        invariant
            it.seq() == s@,
            res@ == it.seq().take(it.index() as int),
    {
        res.push(c);
    }
    res
}

/// Appends a character to a string, with `String::push`.
#[verifier::external_body]
fn push_char(s: &mut String, c: char)
    ensures
        final(s)@ == old(s)@.push(c),
{
    s.push(c)
}

/// A string of the characters `chars[from..to]`.
fn string_of(chars: &Vec<char>, from: usize, to: usize) -> (res: String)
    requires
        from <= to <= chars@.len(),
    ensures
        res@ == chars@.subrange(from as int, to as int),
{
    let mut s = String::new();
    let mut i = from;
    while i < to
        invariant
            from <= i <= to,
            to <= chars@.len(),
            s@ == chars@.subrange(from as int, i as int),
        decreases to - i,
    {
        push_char(&mut s, chars[i]);
        i += 1;
        assert(s@ =~= chars@.subrange(from as int, i as int));
    }
    s
}

/// Skips whitespace and comments from `pos` on.
fn skip_space_exec(chars: &Vec<char>, pos: usize) -> (res: usize)
    requires
        pos <= chars@.len(),
    ensures
        res == skip_space(chars@, pos as int),
        pos <= res <= chars@.len(),
    decreases chars@.len() - pos,
{
    if pos >= chars.len() {
        return pos;
    }
    let c = chars[pos];
    if c == ' ' || c == '\t' || c == '\n' || c == '\r' || c == ',' {
        skip_space_exec(chars, pos + 1)
    } else if c == ';' {
        let mut k = pos;
        while k < chars.len() && chars[k] != '\n'
            invariant
                pos <= k <= chars@.len(),
                line_end(chars@, pos as int) == line_end(chars@, k as int),
            decreases chars@.len() - k,
        {
            k += 1;
        }
        if k >= chars.len() {
            chars.len()
        } else {
            skip_space_exec(chars, k + 1)
        }
    } else {
        pos
    }
}

/// The end of the token that starts at `pos`.
fn token_end_exec(chars: &Vec<char>, pos: usize) -> (res: usize)
    requires
        pos <= chars@.len(),
    ensures
        res == token_end(chars@, pos as int),
        pos <= res <= chars@.len(),
{
    let mut k = pos;
    while k < chars.len() && !is_delimiter_exec(chars[k])
        invariant
            pos <= k <= chars@.len(),
            token_end(chars@, pos as int) == token_end(chars@, k as int),
        decreases chars@.len() - k,
    {
        k += 1;
    }
    k
}

fn is_delimiter_exec(c: char) -> (res: bool)
    ensures
        res == is_delimiter(c),
{
    c == ' ' || c == '\t' || c == '\n' || c == '\r' || c == ',' || c == '(' || c == ')' || c == '['
        || c == ']' || c == '{' || c == '}' || c == '"' || c == ';'
}

fn is_digit_exec(c: char) -> (res: bool)
    ensures
        res == is_digit(c),
{
    '0' <= c && c <= '9'
}

/// Adding digits keeps a number spelt by digits from getting smaller.
proof fn lemma_digits_value_grows(t: Seq<char>, k: int)
    requires
        0 <= k <= t.len(),
        forall|i: int| 0 <= i < t.len() ==> is_digit(#[trigger] t[i]),
    ensures
        digits_value(t.take(k)) <= digits_value(t),
        0 <= digits_value(t.take(k)),
    decreases t.len() - k,
{
    if k < t.len() {
        lemma_digits_value_grows(t, k + 1);
        assert(t.take(k + 1).drop_last() =~= t.take(k));
        assert(t.take(k + 1).last() == t[k]);
    } else {
        assert(t.take(k) =~= t);
        lemma_digits_nonneg(t);
    }
}

/// A number spelt by digits is not negative.
proof fn lemma_digits_nonneg(t: Seq<char>)
    requires
        forall|i: int| 0 <= i < t.len() ==> is_digit(#[trigger] t[i]),
    ensures
        0 <= digits_value(t),
    decreases t.len(),
{
    if t.len() > 0 {
        lemma_digits_nonneg(t.drop_last());
        assert(is_digit(t[t.len() - 1]));
    }
}

/// The magnitude the digits `t[from..to]` spell, where it is at most
/// `2^63`.
fn digits_magnitude(chars: &Vec<char>, from: usize, to: usize) -> (res: Option<u64>)
    requires
        from < to <= chars@.len(),
        all_digits(chars@.subrange(from as int, to as int)),
    ensures
        match res {
            Some(m) => m == digits_value(chars@.subrange(from as int, to as int)) && m <= 9223372036854775808u64,
            None => digits_value(chars@.subrange(from as int, to as int)) > 9223372036854775808u64,
        },
{
    let ghost t = chars@.subrange(from as int, to as int);
    let mut mag: u64 = 0;
    let mut i = from;
    while i < to
        invariant
            from <= i <= to,
            to <= chars@.len(),
            t == chars@.subrange(from as int, to as int),
            all_digits(t),
            mag == digits_value(t.take(i - from)),
            mag <= 9223372036854775808u64,
        decreases to - i,
    {
        proof {
            assert(t[i - from] == chars@[i as int]);
            assert(is_digit(t[i - from]));
            assert(t.take(i - from + 1).drop_last() =~= t.take(i - from));
            assert(t.take(i - from + 1).last() == chars@[i as int]);
        }
        let d = (chars[i] as u32 - '0' as u32) as u64;
        if mag > 922337203685477580u64 {
            proof {
                lemma_digits_value_grows(t, i - from + 1);
            }
            return None;
        }
        let next = mag * 10 + d;
        if next > 9223372036854775808u64 {
            proof {
                lemma_digits_value_grows(t, i - from + 1);
            }
            return None;
        }
        mag = next;
        i += 1;
    }
    proof {
        assert(t.take(to - from) =~= t);
    }
    Some(mag)
}

/// Whether `chars[from..to]` are all digits, at least one.
fn all_digits_exec(chars: &Vec<char>, from: usize, to: usize) -> (res: bool)
    requires
        from <= to <= chars@.len(),
    ensures
        res == all_digits(chars@.subrange(from as int, to as int)),
{
    if from == to {
        return false;
    }
    let mut i = from;
    while i < to
        invariant
            from <= i <= to,
            to <= chars@.len(),
            forall|k: int| from <= k < i ==> is_digit(#[trigger] chars@[k]),
        decreases to - i,
    {
        if !is_digit_exec(chars[i]) {
            assert(!is_digit(chars@.subrange(from as int, to as int)[i - from]));
            return false;
        }
        i += 1;
    }
    assert forall|k: int| 0 <= k < to - from implies is_digit(#[trigger] chars@.subrange(from as int, to as int)[k]) by {
        assert(chars@.subrange(from as int, to as int)[k] == chars@[from + k]);
    }
    true
}

/// Parses a decimal number with `rustc_apfloat`.
fn decimal_bits(chars: &Vec<char>, from: usize, to: usize) -> (res: Option<u64>)
    requires
        from <= to <= chars@.len(),
    ensures
        res == decimal_double(chars@.subrange(from as int, to as int)),
{
    let text = string_of(chars, from, to);
    crate::float::double_from_decimal(text.as_str())
}


/// Whether `chars[from..to]` spells `word`.
fn is_word(chars: &Vec<char>, from: usize, to: usize, word: &str) -> (res: bool)
    requires
        from <= to <= chars@.len(),
    ensures
        res == (chars@.subrange(from as int, to as int) == word@),
{
    let w = chars_of(word);
    if to - from != w.len() {
        return false;
    }
    let mut i: usize = 0;
    while i < w.len()
        invariant
            0 <= i <= w@.len(),
            w@.len() == to - from,
            to <= chars@.len(),
            w@ == word@,
            forall|k: int| 0 <= k < i ==> chars@[from + k] == w@[k],
        decreases w@.len() - i,
    {
        if chars[from + i] != w[i] {
            assert(chars@.subrange(from as int, to as int)[i as int] != word@[i as int]);
            return false;
        }
        i += 1;
    }
    assert(chars@.subrange(from as int, to as int) =~= word@);
    true
}

/// The index of the first `/` in `chars[from..to]`, counted from `from`, or
/// `to - from`.
fn first_slash_exec(chars: &Vec<char>, from: usize, to: usize) -> (res: usize)
    requires
        from <= to <= chars@.len(),
    ensures
        res as int == first_slash(chars@.subrange(from as int, to as int), 0),
        res <= to - from,
{
    let ghost t = chars@.subrange(from as int, to as int);
    let mut k: usize = 0;
    while from + k < to && chars[from + k] != '/'
        invariant
            from + k <= to,
            to <= chars@.len(),
            t == chars@.subrange(from as int, to as int),
            first_slash(t, 0) == first_slash(t, k as int),
        decreases to - from - k,
    {
        assert(t[k as int] == chars@[from + k]);
        k += 1;
    }
    proof {
        if from + k < to {
            assert(t[k as int] == chars@[from + k]);
        }
    }
    k
}

/// A symbol value named by `chars[from..to]`, split at its first `/`.
fn symbol_value(chars: &Vec<char>, from: usize, to: usize) -> (res: PtrValue)
    requires
        from < to <= chars@.len(),
    ensures
        *res matches Value::Symbol(s, None) && s@ == name_parts(chars@.subrange(from as int, to as int)),
{
    let ghost t = chars@.subrange(from as int, to as int);
    let p = first_slash_exec(chars, from, to);
    if 0 < p && p < (to - from) - 1 {
        let ns = string_of(chars, from, from + p);
        let name = string_of(chars, from + p + 1, to);
        assert(ns@ =~= t.take(p as int));
        assert(name@ =~= t.skip(p + 1));
        Value::symbol_qualified_ptr(ns.as_str(), name.as_str())
    } else {
        let name = string_of(chars, from, to);
        Value::symbol_unqualified_ptr(name.as_str())
    }
}

/// A keyword value named by `chars[from..to]`, split at its first `/`.
fn keyword_value(chars: &Vec<char>, from: usize, to: usize) -> (res: PtrValue)
    requires
        from < to <= chars@.len(),
    ensures
        *res matches Value::Keyword(k, None) && k@ == name_parts(chars@.subrange(from as int, to as int)),
{
    let ghost t = chars@.subrange(from as int, to as int);
    let p = first_slash_exec(chars, from, to);
    if 0 < p && p < (to - from) - 1 {
        let ns = string_of(chars, from, from + p);
        let name = string_of(chars, from + p + 1, to);
        assert(ns@ =~= t.take(p as int));
        assert(name@ =~= t.skip(p + 1));
        Value::keyword_qualified_ptr(ns.as_str(), name.as_str())
    } else {
        let name = string_of(chars, from, to);
        Value::keyword_unqualified_ptr(name.as_str())
    }
}

/// The index of the first `.` in `chars[from..to]`, counted from `from`, or
/// `to - from`.
fn first_point(chars: &Vec<char>, from: usize, to: usize) -> (res: usize)
    requires
        from <= to <= chars@.len(),
    ensures
        res <= to - from,
        forall|k: int| from <= k < from + res ==> #[trigger] chars@[k] != '.',
        res < to - from ==> chars@[from + res] == '.',
{
    let mut k: usize = 0;
    while from + k < to && chars[from + k] != '.'
        invariant
            from + k <= to,
            to <= chars@.len(),
            forall|m: int| from <= m < from + k ==> #[trigger] chars@[m] != '.',
        decreases to - from - k,
    {
        k += 1;
    }
    k
}

/// Whether `chars[from..to]` is a decimal number token.
fn is_decimal_exec(chars: &Vec<char>, from: usize, to: usize) -> (res: bool)
    requires
        from <= to <= chars@.len(),
    ensures
        res == is_decimal_token(chars@.subrange(from as int, to as int)),
{
    let ghost t = chars@.subrange(from as int, to as int);
    let start = if from < to && (chars[from] == '-' || chars[from] == '+') { from + 1 } else { from };
    let ghost u = chars@.subrange(start as int, to as int);
    assert(u =~= unsigned_part(t));
    let p = first_point(chars, start, to);
    if p == 0 || to - start < 2 || p >= (to - start) - 1 {
        proof {
            if is_decimal_token(t) {
                let q = choose|q: int| 0 < q < u.len() - 1 && u[q] == '.' && all_digits(u.take(q)) && all_digits(u.skip(q + 1));
                if p < q {
                    assert(u.take(q)[p as int] == u[p as int]);
                    assert(u[p as int] == chars@[start + p]);
                } else if q < p {
                    assert(u[q] == chars@[start + q]);
                }
            }
        }
        return false;
    }
    let before = all_digits_exec(chars, start, start + p);
    let after = all_digits_exec(chars, start + p + 1, to);
    proof {
        assert(u.take(p as int) =~= chars@.subrange(start as int, start + p));
        assert(u.skip(p + 1) =~= chars@.subrange(start + p + 1, to as int));
        assert(u[p as int] == chars@[start + p]);
        if before && after {
            assert(0 < p < u.len() - 1 && u[p as int] == '.' && all_digits(u.take(p as int)) && all_digits(u.skip(p + 1)));
            assert(exists|q: int| 0 < q < u.len() - 1 && u[q] == '.' && all_digits(u.take(q)) && all_digits(u.skip(q + 1)));
            assert(is_point_number(u));
        }
        if is_decimal_token(t) && !(before && after) {
            let q = choose|q: int| 0 < q < u.len() - 1 && u[q] == '.' && all_digits(u.take(q)) && all_digits(u.skip(q + 1));
            if p < q {
                assert(u.take(q)[p as int] == u[p as int]);
                assert(is_digit(u.take(q)[p as int]));
                assert(!is_digit('.'));
                assert(false);
            } else if q < p {
                assert(u[q] == chars@[start + q]);
                assert(false);
            } else {
                assert(q == p);
                assert(before);
                assert(after);
            }
        }
    }
    before && after
}

/// The value a token reads as.
fn token_value(chars: &Vec<char>, from: usize, to: usize) -> (res: Result<PtrValue, ReadError>)
    requires
        from < to <= chars@.len(),
    ensures
        res is Ok <==> token_readable(chars@.subrange(from as int, to as int)),
        res matches Ok(v) ==> token_value_ok(chars@.subrange(from as int, to as int), *v),
        res matches Err(e) ==> e is BadNumber,
{
    let ghost t = chars@.subrange(from as int, to as int);
    if is_word(chars, from, to, "nil") {
        return Ok(Value::nil_ptr());
    }
    if is_word(chars, from, to, "true") {
        return Ok(Value::boolean_ptr(true));
    }
    if is_word(chars, from, to, "false") {
        return Ok(Value::boolean_ptr(false));
    }
    let c = chars[from];
    let signed = (c == '-' || c == '+') && to - from > 1;
    let digits_from = if signed { from + 1 } else { from };
    assert(chars@.subrange(from + 1, to as int) =~= t.drop_first());
    let only_digits = all_digits_exec(chars, digits_from, to);
    proof {
        if !signed {
            assert(chars@.subrange(digits_from as int, to as int) =~= t);
        }
        if signed {
            assert(!is_digit(t[0]));
            assert(!all_digits(t));
        }
    }
    if only_digits {
        let m = digits_magnitude(chars, digits_from, to);
        return match m {
            Some(mag) => {
                if signed && c == '-' {
                    if mag == 9223372036854775808u64 {
                        Ok(Value::integer_ptr(i64::MIN))
                    } else {
                        Ok(Value::integer_ptr(-(mag as i64)))
                    }
                } else if mag > 9223372036854775807u64 {
                    Err(ReadError::BadNumber)
                } else {
                    Ok(Value::integer_ptr(mag as i64))
                }
            },
            None => Err(ReadError::BadNumber),
        };
    }
    if is_decimal_exec(chars, from, to) {
        return match decimal_bits(chars, from, to) {
            Some(bits) => Ok(Value::float_ptr(Float::from_bits(bits))),
            None => Err(ReadError::BadNumber),
        };
    }
    let numeric = is_digit_exec(c) || (to - from > 1 && (c == '-' || c == '+') && is_digit_exec(chars[from + 1]));
    assert(numeric == looks_numeric(t));
    if numeric {
        return Err(ReadError::BadNumber);
    }
    Ok(symbol_value(chars, from, to))
}


/// Where a string literal's closing `"` is found, it is at or after where
/// the body starts.
proof fn lemma_string_end(s: Seq<char>, i: int)
    requires
        0 <= i,
    ensures
        i <= string_end(s, i) <= s.len() || i > s.len(),
        string_end(s, i) < s.len() ==> s[string_end(s, i)] == '"',
    decreases s.len() - i,
{
    if 0 <= i < s.len() && s[i] != '"' {
        if s[i] == '\\' {
            if i + 1 < s.len() {
                lemma_string_end(s, i + 2);
            }
        } else {
            lemma_string_end(s, i + 1);
        }
    }
}

/// The index of the `"` that closes the string literal whose body starts at
/// `from`, or the length.
fn string_end_exec(chars: &Vec<char>, from: usize) -> (res: usize)
    requires
        from <= chars@.len(),
    ensures
        res == string_end(chars@, from as int),
        from <= res <= chars@.len(),
        res < chars@.len() ==> chars@[res as int] == '"',
{
    proof {
        lemma_string_end(chars@, from as int);
    }
    let mut k = from;
    while k < chars.len() && chars[k] != '"'
        invariant
            from <= k <= chars@.len(),
            string_end(chars@, from as int) == string_end(chars@, k as int),
        decreases chars@.len() - k,
    {
        if chars[k] == '\\' {
            if k + 1 >= chars.len() {
                return chars.len();
            }
            k += 2;
        } else {
            k += 1;
        }
    }
    if k >= chars.len() {
        chars.len()
    } else {
        k
    }
}

/// The characters that the string literal body `chars[from..to]` stands
/// for.
fn unescape_exec(chars: &Vec<char>, from: usize, to: usize) -> (res: Result<String, ReadError>)
    requires
        from <= to <= chars@.len(),
    ensures
        match res {
            Ok(x) => unescape(chars@.subrange(from as int, to as int)) == Some(x@),
            Err(e) => unescape(chars@.subrange(from as int, to as int)) is None
                && e == ReadError::BadEscape(escape_error(chars@.subrange(from as int, to as int))),
        },
    decreases to - from,
{
    let ghost t = chars@.subrange(from as int, to as int);
    if from == to {
        return Ok(String::new());
    }
    let c = chars[from];
    if c != '\\' {
        assert(t.drop_first() =~= chars@.subrange(from + 1, to as int));
        let rest = match unescape_exec(chars, from + 1, to) {
            Ok(r) => r,
            Err(e) => {
                return Err(e);
            },
        };
        let mut out = String::new();
        push_char(&mut out, c);
        out.append(rest.as_str());
        assert(out@ =~= seq![c] + rest@);
        return Ok(out);
    }
    if to - from < 2 {
        return Err(ReadError::BadEscape('\\'));
    }
    let e = chars[from + 1];
    let decoded = if e == 'n' {
        '\n'
    } else if e == 't' {
        '\t'
    } else if e == 'r' {
        '\r'
    } else if e == '"' || e == '\\' {
        e
    } else {
        return Err(ReadError::BadEscape(e));
    };
    assert(t.skip(2) =~= chars@.subrange(from + 2, to as int));
    let rest = match unescape_exec(chars, from + 2, to) {
        Ok(r) => r,
        Err(err) => {
            return Err(err);
        },
    };
    let mut out = String::new();
    push_char(&mut out, decoded);
    out.append(rest.as_str());
    assert(out@ =~= seq![decoded] + rest@);
    Ok(out)
}

/// Whether a character closes a collection.
fn is_closer(c: char) -> (res: bool)
    ensures
        res == is_closer_char(c),
{
    c == ')' || c == ']' || c == '}'
}

/// What reading the forms of a collection gives, as read from the text:
/// the values, each the value of its form, and the index after the closer;
/// or the error.
pub open spec fn items_read(parsed: Result<(Seq<Form>, int), ReadError>, res: Result<(Vec<PtrValue>, usize), ReadError>) -> bool {
    match parsed {
        Ok((fs, j)) => res matches Ok((items, k)) && k == j && all_denote(fs, items@),
        Err(e) => res == Err::<(Vec<PtrValue>, usize), ReadError>(e),
    }
}

/// What reading a form gives, as read from the text: its value, the value
/// of its form, and the index after it; or the error.
pub open spec fn form_read(parsed: Result<(Form, int), ReadError>, res: Result<(PtrValue, usize), ReadError>) -> bool {
    match parsed {
        Ok((f, j)) => res matches Ok((v, k)) && k == j && denotes(f, *v),
        Err(e) => res == Err::<(PtrValue, usize), ReadError>(e),
    }
}

/// The forms read so far before a collection's remaining forms.
pub open spec fn prepend(done: Seq<Form>, rest: Result<(Seq<Form>, int), ReadError>) -> Result<(Seq<Form>, int), ReadError> {
    match rest {
        Ok((fs, j)) => Ok((done + fs, j)),
        Err(e) => Err(e),
    }
}

/// Reads the form that starts at `pos`, and gives it with the index after
/// it.
fn read_form(chars: &Vec<char>, pos: usize) -> (res: Result<(PtrValue, usize), ReadError>)
    requires
        pos < chars@.len(),
    ensures
        form_read(parse_form(chars@, pos as int), res),
        res matches Ok((v, j)) ==> pos < j <= chars@.len(),
    decreases chars@.len() - pos, 0int,
{
    let len = chars.len();
    let c = chars[pos];
    if c == '(' {
        return match read_items(chars, pos + 1, ')') {
            Ok((items, j)) => Ok((Value::new_list_ptr(items), j)),
            Err(e) => Err(e),
        };
    }
    if c == '[' {
        return match read_items(chars, pos + 1, ']') {
            Ok((items, j)) => Ok((Value::new_vector_ptr(items), j)),
            Err(e) => Err(e),
        };
    }
    if c == '{' {
        return match read_items(chars, pos + 1, '}') {
            Ok((items, j)) => {
                if items.len() % 2 != 0 {
                    Err(ReadError::OddMapForms)
                } else {
                    let pairs = pair_up(&items);
                    let v = Value::new_map_ptr(pairs);
                    proof {
                        assert(all_denote(parse_items(chars@, pos + 1, '}')->Ok_0.0, items@));
                    }
                    Ok((v, j))
                }
            },
            Err(e) => Err(e),
        };
    }
    if c == '#' {
        if pos + 1 < len && chars[pos + 1] == '{' {
            return match read_items(chars, pos + 2, '}') {
                Ok((items, j)) => {
                    let ghost vals = items@;
                    let v = Value::new_set_ptr(items);
                    proof {
                        assert(all_denote(parse_items(chars@, pos + 2, '}')->Ok_0.0, vals));
                    }
                    Ok((v, j))
                },
                Err(e) => Err(e),
            };
        }
        return Err(ReadError::BadToken);
    }
    if is_closer(c) {
        return Err(ReadError::UnexpectedCloser(c));
    }
    if c == '"' {
        let end = string_end_exec(chars, pos + 1);
        if end >= chars.len() {
            return Err(ReadError::UnexpectedEnd);
        }
        return match unescape_exec(chars, pos + 1, end) {
            Ok(text) => Ok((Value::string_ptr(text), end + 1)),
            Err(e) => Err(e),
        };
    }
    if c == ':' {
        let end = token_end_exec(chars, pos + 1);
        if end == pos + 1 {
            return Err(ReadError::BadToken);
        }
        return Ok((keyword_value(chars, pos + 1, end), end));
    }
    let end = token_end_exec(chars, pos);
    if end == pos {
        return Err(ReadError::BadToken);
    }
    match token_value(chars, pos, end) {
        Ok(v) => Ok((v, end)),
        Err(e) => Err(e),
    }
}

/// Reads the forms from `pos` on up to the `closer` that ends them, and
/// gives them with the index after the closer.
fn read_items(chars: &Vec<char>, pos: usize, closer: char) -> (res: Result<(Vec<PtrValue>, usize), ReadError>)
    requires
        pos <= chars@.len(),
    ensures
        items_read(parse_items(chars@, pos as int, closer), res),
        res matches Ok((items, j)) ==> pos < j <= chars@.len(),
    decreases chars@.len() - pos, 1int,
{
    let ghost s = chars@;
    let ghost mut done: Seq<Form> = Seq::empty();
    let mut items: Vec<PtrValue> = Vec::new();
    let mut i = pos;
    assert(prepend(done, parse_items(s, i as int, closer)) =~= parse_items(s, pos as int, closer)) by {
        match parse_items(s, i as int, closer) {
            Ok((fs, j)) => {
                assert(done + fs =~= fs);
            },
            Err(e) => {},
        }
    }
    loop
        invariant
            pos <= i <= chars@.len(),
            s == chars@,
            all_denote(done, items@),
            parse_items(s, pos as int, closer) == prepend(done, parse_items(s, i as int, closer)),
        decreases chars@.len() - i,
    {
        let q = skip_space_exec(chars, i);
        if q >= chars.len() {
            return Err(ReadError::UnexpectedEnd);
        }
        let c = chars[q];
        if c == closer {
            proof {
                assert(done + Seq::<Form>::empty() =~= done);
            }
            return Ok((items, q + 1));
        }
        if is_closer(c) {
            return Err(ReadError::UnexpectedCloser(c));
        }
        match read_form(chars, q) {
            Err(e) => {
                return Err(e);
            },
            Ok((v, j)) => {
                proof {
                    let f = parse_form(s, q as int)->Ok_0.0;
                    match parse_items(s, j as int, closer) {
                        Ok((fs, jj)) => {
                            assert(done + (seq![f] + fs) =~= done.push(f) + fs);
                        },
                        Err(e) => {},
                    }
                    assert forall|k: int| 0 <= k < done.len() + 1 implies denotes(done.push(f)[k], *#[trigger] items@.push(v)[k]) by {
                        if k < done.len() {
                            assert(denotes(done[k], *items@[k]));
                        }
                    }
                    done = done.push(f);
                }
                items.push(v);
                i = j;
            },
        }
    }
}

/// The index of the first character of `input` that is neither whitespace
/// nor inside a comment: where the next form starts, if there is one.
pub fn space_end(input: &str) -> (res: usize)
    ensures
        res == skip_space(input@, 0),
        res <= input@.len(),
{
    let chars = chars_of(input);
    skip_space_exec(&chars, 0)
}

/// Reads the first form of `input`: the number of characters read, and the
/// form, or no form where there is only whitespace and comments.
pub fn read(input: &str) -> (res: Result<(usize, Option<PtrValue>), ReadError>)
    ensures
        skip_space(input@, 0) >= input@.len()
            ==> res == Ok::<(usize, Option<PtrValue>), ReadError>((input@.len() as usize, None)),
        skip_space(input@, 0) < input@.len() ==> match parse_form(input@, skip_space(input@, 0)) {
            Ok((f, j)) => res matches Ok((n, Some(v))) && n == j && denotes(f, *v),
            Err(e) => res == Err::<(usize, Option<PtrValue>), ReadError>(e),
        },
        res matches Ok((n, o)) ==> n <= input@.len() && (o is Some ==> skip_space(input@, 0) < n),
{
    let chars = chars_of(input);
    let start = skip_space_exec(&chars, 0);
    if start >= chars.len() {
        return Ok((chars.len(), None));
    }
    match read_form(&chars, start) {
        Ok((v, n)) => Ok((n, Some(v))),
        Err(e) => Err(e),
    }
}

} // verus!
