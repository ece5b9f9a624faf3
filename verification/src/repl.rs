//! The decisions of the interactive loop: input gathered line by line
//! until no delimiter is left open, then read form by form, and whether the
//! loop is asked to stop.
use vstd::prelude::*;
use vstd::string::StrSliceExecFns;
use vstd::string::StringExecFns;
use vstd::string::StringSliceAdditionalSpecFns;
use crate::environment::Environment;
use crate::reader::{chars_of, denotes, parse_form, read, skip_space, ReadError};
use crate::value::{PtrValue, Value};

verus! {

/// Input gathered from several lines.
pub struct PendingInput {
    pub(crate) buf: String,
}

impl View for PendingInput {
    type V = Seq<char>;

    closed spec fn view(&self) -> Seq<char> {
        self.buf@
    }
}

impl PendingInput {
    /// No input yet.
    pub fn new_empty() -> (res: Self)
        ensures
            res@ == Seq::<char>::empty(),
    {
        PendingInput { buf: String::new() }
    }

    /// Adds `line` after the input gathered so far.
    pub fn push(&mut self, line: &str)
        ensures
            final(self)@ == old(self)@ + line@,
    {
        self.buf.append(line);
    }

    /// Forgets the input gathered so far.
    pub fn clear(&mut self)
        ensures
            final(self)@ == Seq::<char>::empty(),
    {
        self.buf = String::new();
    }

    /// The input gathered so far.
    pub fn accumulated_input(&self) -> (res: &str)
        ensures
            res@ == self@,
    {
        self.buf.as_str()
    }
}

/// Where the scan for open delimiters stands: the depths of `(`, `[` and
/// `{`, whether it is inside a string, and whether the next character is
/// escaped.
pub type DelimiterState = (int, int, int, bool, bool);

/// The scan after one more byte.
pub open spec fn delimiter_step(state: DelimiterState, b: u8) -> DelimiterState {
    let (paren, bracket, brace, in_string, escape) = state;
    if escape {
        (paren, bracket, brace, in_string, false)
    } else if in_string {
        if b == 0x5c {
            (paren, bracket, brace, true, true)
        } else if b == 0x22 {
            (paren, bracket, brace, false, false)
        } else {
            state
        }
    } else if b == 0x22 {
        (paren, bracket, brace, true, false)
    } else if b == 0x28 {
        (paren + 1, bracket, brace, false, false)
    } else if b == 0x29 {
        (paren - 1, bracket, brace, false, false)
    } else if b == 0x5b {
        (paren, bracket + 1, brace, false, false)
    } else if b == 0x5d {
        (paren, bracket - 1, brace, false, false)
    } else if b == 0x7b {
        (paren, bracket, brace + 1, false, false)
    } else if b == 0x7d {
        (paren, bracket, brace - 1, false, false)
    } else {
        state
    }
}

/// The scan of the first `n` bytes of `bytes`.
pub open spec fn delimiter_scan(bytes: Seq<u8>, n: int) -> DelimiterState
    decreases n,
{
    if n <= 0 {
        (0, 0, 0, false, false)
    } else {
        delimiter_step(delimiter_scan(bytes, n - 1), bytes[n - 1])
    }
}

/// Whether, after the scan, some `(`, `[` or `{` is still open: each opener
/// counts one up and each closer one down, outside strings, where a
/// backslash escapes the next character.
pub open spec fn spec_contains_unclosed_delimiter(bytes: Seq<u8>) -> bool {
    let st = delimiter_scan(bytes, bytes.len() as int);
    st.0 > 0 || st.1 > 0 || st.2 > 0
}

/// Whether `s` leaves some `(`, `[` or `{` open, so that more input is
/// needed before it can be read.
pub fn contains_unclosed_delimiter(s: &str) -> (res: bool)
    ensures
        res == spec_contains_unclosed_delimiter(s.spec_bytes()),
{
    let bytes = s.as_bytes();
    let mut paren: i128 = 0;
    let mut bracket: i128 = 0;
    let mut brace: i128 = 0;
    let mut in_string = false;
    let mut escape = false;
    let mut i: usize = 0;
    while i < bytes.len()
        invariant
            0 <= i <= bytes@.len(),
            bytes@ == s.spec_bytes(),
            -(i as int) <= paren <= i,
            -(i as int) <= bracket <= i,
            -(i as int) <= brace <= i,
            delimiter_scan(bytes@, i as int) == (paren as int, bracket as int, brace as int, in_string, escape),
        decreases bytes@.len() - i,
    {
        let b = bytes[i];
        if escape {
            escape = false;
        } else if in_string {
            if b == 0x5c {
                escape = true;
            } else if b == 0x22 {
                in_string = false;
            }
        } else if b == 0x22 {
            in_string = true;
        } else if b == 0x28 {
            paren = paren + 1;
        } else if b == 0x29 {
            paren = paren - 1;
        } else if b == 0x5b {
            bracket = bracket + 1;
        } else if b == 0x5d {
            bracket = bracket - 1;
        } else if b == 0x7b {
            brace = brace + 1;
        } else if b == 0x7d {
            brace = brace - 1;
        }
        i += 1;
    }
    paren > 0 || bracket > 0 || brace > 0
}

/// Whether `c` is whitespace: a character with the Unicode `White_Space`
/// property.
pub open spec fn is_whitespace(c: char) -> bool {
    let u = c as u32;
    ||| 0x09 <= u <= 0x0d
    ||| u == 0x20
    ||| u == 0x85
    ||| u == 0xa0
    ||| u == 0x1680
    ||| 0x2000 <= u <= 0x200a
    ||| u == 0x2028
    ||| u == 0x2029
    ||| u == 0x202f
    ||| u == 0x205f
    ||| u == 0x3000
}

/// Whether every character of `s` is whitespace.
pub open spec fn all_whitespace(s: Seq<char>) -> bool {
    forall|i: int| 0 <= i < s.len() ==> #[trigger] is_whitespace(s[i])
}

/// Whether `s` holds nothing but whitespace.
pub fn is_blank(s: &str) -> (res: bool)
    ensures
        res == all_whitespace(s@),
{
    let chars = chars_of(s);
    let mut i: usize = 0;
    while i < chars.len()
        invariant
            chars@ == s@,
            0 <= i <= chars@.len(),
            forall|j: int| 0 <= j < i ==> #[trigger] is_whitespace(chars@[j]),
        decreases chars@.len() - i,
    {
        let u = chars[i] as u32;
        let w = (0x09 <= u && u <= 0x0d) || u == 0x20 || u == 0x85 || u == 0xa0 || u == 0x1680
            || (0x2000 <= u && u <= 0x200a) || u == 0x2028 || u == 0x2029 || u == 0x202f || u == 0x205f
            || u == 0x3000;
        if !w {
            assert(!is_whitespace(s@[i as int]));
            return false;
        }
        i += 1;
    }
    true
}

/// What the interactive loop does after a line of input.
#[derive(Debug)]
pub enum ReplStep {
    /// Asks for another line: there is nothing to evaluate yet.
    Prompt,
    /// Evaluates this form, the first one of the gathered input.
    Eval(PtrValue),
    /// Waits for another line without asking for it: the gathered input
    /// held only commas and comments, and was dropped.
    Idle,
    /// Reports that the gathered input could not be read; it was dropped.
    ReadFailed(ReadError),
}

/// What the interactive loop does with the input gathered so far, `acc`,
/// and what is left of it afterwards: nothing if it is blank or holds no
/// form, the text after its first form if that form can be read, nothing
/// if it cannot.
pub open spec fn repl_outcome(acc: Seq<char>, res: ReplStep, left: Seq<char>) -> bool {
    if all_whitespace(acc) {
        res is Prompt && left == Seq::<char>::empty()
    } else if skip_space(acc, 0) >= acc.len() {
        res is Idle && left == Seq::<char>::empty()
    } else {
        match parse_form(acc, skip_space(acc, 0)) {
            Ok((f, j)) => res matches ReplStep::Eval(v) && denotes(f, *v) && left == acc.subrange(j, acc.len() as int),
            Err(e) => res == ReplStep::ReadFailed(e) && left == Seq::<char>::empty(),
        }
    }
}

/// Takes in a line of input. An empty line (the end of the input) only asks
/// for another. Otherwise the line is added to the gathered input; if the
/// line leaves a delimiter open, another line is asked for; otherwise the
/// gathered input is read as [`repl_outcome`] says.
pub fn repl_step(pending: &mut PendingInput, line: &str) -> (res: ReplStep)
    ensures
        line@.len() == 0 ==> res is Prompt && final(pending)@ == old(pending)@,
        line@.len() > 0 && spec_contains_unclosed_delimiter(line.spec_bytes())
            ==> res is Prompt && final(pending)@ == old(pending)@ + line@,
        line@.len() > 0 && !spec_contains_unclosed_delimiter(line.spec_bytes())
            ==> repl_outcome(old(pending)@ + line@, res, final(pending)@),
{
    if line.unicode_len() == 0 {
        return ReplStep::Prompt;
    }
    pending.push(line);
    if contains_unclosed_delimiter(line) {
        return ReplStep::Prompt;
    }
    let acc = String::from_str(pending.accumulated_input());
    if is_blank(acc.as_str()) {
        pending.clear();
        return ReplStep::Prompt;
    }
    match read(acc.as_str()) {
        Ok((n, Some(v))) => {
            let len = acc.as_str().unicode_len();
            let rest = acc.as_str().substring_char(n, len);
            pending.clear();
            pending.push(rest);
            assert(final(pending)@ =~= acc@.subrange(n as int, acc@.len() as int));
            ReplStep::Eval(v)
        },
        Ok((_, None)) => {
            pending.clear();
            ReplStep::Idle
        },
        Err(e) => {
            pending.clear();
            ReplStep::ReadFailed(e)
        },
    }
}

/// Whether the interactive loop is asked to stop: the var `quit?` of the
/// namespace `jinme.repl` is bound to `true`.
pub fn repl_should_quit(env: &Environment) -> (res: bool)
    ensures
        res <==> {
            &&& env.spec_namespaces().contains_key("jinme.repl"@)
            &&& env.spec_namespaces()["jinme.repl"@].spec_vars().contains_key("quit?"@)
            &&& env.spec_namespaces()["jinme.repl"@].spec_vars()["quit?"@].spec_value() matches Some(v)
            &&& *v matches Value::Boolean(true, _)
        },
{
    match env.try_get_namespace("jinme.repl") {
        Some(ns) => match ns.try_get_value("quit?") {
            Ok(v) => match &*v {
                Value::Boolean(b, _) => *b,
                _ => false,
            },
            Err(_) => false,
        },
        None => false,
    }
}

} // verus!
