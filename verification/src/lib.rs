//! A Clojure-flavoured reader and interpreter core: symbols, keywords,
//! values, namespaces and the environment that ties them together.
pub mod environment;
pub mod eval_context;
pub mod float;
pub mod function;
pub mod handle;
pub mod keyword;
pub mod list;
pub mod map;
pub mod meta;
pub mod set;
pub mod symbol;
pub mod value;
pub mod var;
pub mod vector;
pub mod bindings;
pub mod builtins;
pub mod evaluation;
pub mod interpreter;
pub mod namespace;
pub mod optics;
pub mod printer;
pub mod reader;
pub mod repl;
pub mod source;
