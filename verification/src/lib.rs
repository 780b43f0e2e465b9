//! A recursive-descent parser that turns Lisp/Scheme-style source text into
//! a symbolic-expression tree. It is a pure library: each parser consumes a
//! prefix of its input and returns the parsed value together with the
//! unconsumed remainder, or an error. No evaluation is performed.
//!
//! Parsing recurses once per level of list, vector, or quote nesting, so
//! stack use grows with the nesting depth of the input; callers feeding it
//! untrusted, pathologically nested text should bound that depth.
pub mod atom;
pub mod chars;
pub mod err;
pub mod expr;
pub mod parse;

pub use err::{FatalKind, ParseErr};
pub use expr::{Atom, Decimal, Num, Quote, Sexp};
pub use parse::{atom, quote, sexp};
