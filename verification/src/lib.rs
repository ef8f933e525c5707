//! A small Lisp interpreter core: reader, printer, value model, environments,
//! built-in functions and an evaluator, with machine-checked contracts.
//!
//! Source text becomes tokens ([`tokenize`]), tokens become a value
//! ([`reader`]), the value is evaluated ([`eval`]) in an environment
//! ([`env`]) with the built-in functions at hand ([`mal_core`]), and the
//! result becomes text again ([`printer`]). The evaluator never touches the
//! outside world: where a program prints, reads a line or a file, or asks
//! for the time, the evaluator stops with a request ([`machine`]) that its
//! host performs.
//!
//! Every function has a contract over a mathematical model of the values it
//! works on ([`value`]). Three modules hold what is proved of several
//! functions together: [`compare`] (a list equals the vector of the same
//! items), [`roundtrip`] (what is printed reads back) and [`tail_calls`]
//! (tail calls run in constant space).

pub mod compare;
pub mod env;
pub mod eval;
pub mod machine;
pub mod mal_core;
pub mod printer;
pub mod quasiquote;
pub mod roundtrip;
pub mod reader;
pub mod runtime_errors;
pub mod tail_calls;
pub mod text;
pub mod tokenize;
pub mod value;
