# jinme

A small Clojure-flavoured reader and interpreter, written in Verus: the
library in `src/` is verified, each public function with a contract over a
mathematical model of the values it works on.

## Layout

- `src/value.rs`, `list.rs`, `vector.rs`, `set.rs`, `map.rs`, `symbol.rs`,
  `keyword.rs`, `var.rs`, `handle.rs`, `function.rs`, `float.rs`: the values
  and their parts. Sets and maps keep their elements in insertion order,
  without repeats; equality ignores metadata and compares sets and maps
  without regard to order. Floats are binary64 numbers kept as their bits.
  The collections are kept in `Vec`s of the library's own: a persistent
  collection of an outside crate can only be declared to Verus with its
  element type rejected from recursion, and a `Value` holds collections of
  `Value`s, so Verus refuses such a declaration here.
- `namespace.rs`, `environment.rs`, `bindings.rs`, `eval_context.rs`: the
  namespaces, the environment that holds them, and the local bindings of an
  evaluation. The environment numbers every namespace it takes in and keeps
  it after it is removed; a namespace handle names that number and has a
  number of its own, so handles compare as the handles they are and reach
  their namespace for as long as the environment lives.
- `evaluation.rs`, `interpreter.rs`: symbol resolution, the special forms
  `let*`, `fn*` and `do`, calls, and the evaluator. `interpreter.rs` states
  what evaluation does as a relation between a form, the state before and
  after, and the result; `eval` is proved to follow it.
- `builtins.rs`: the collection and namespace functions of `clojure.core`
  that work on values alone.
- `reader.rs`: text to values; `printer.rs`: values to text.
- `optics.rs` and the `optics` modules under the value types: lenses and
  prisms on the parts of values and namespaces; `partials.rs`: accessors
  with their arguments fixed ahead.
- `source.rs`: running a whole source text, form after form, as
  `eval-file` does.
- `repl.rs`: the decisions of the read-eval-print loop: the input it
  gathers line by line, what it does with it, and when it stops.

`app/` is the command-line program around the library: it reads files and
standard input, prints, and binds the native functions of `clojure.core`,
running the library's builtins and doing itself what needs input and output
or floating-point formatting.

## Building

`tests/` holds the tests; they run with `cargo test`. The library is verified
with Verus.
