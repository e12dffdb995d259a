//! A small Lisp: a reader from text to values, an evaluator over a
//! module-scoped environment, and a loader for module sources.
//!
//! - `token`: the lexer, a state machine over grapheme clusters.
//! - `read`: tokens to values, with every error collected.
//! - `value`: the values, their models and their printed form.
//! - `semantics`: what evaluation means, over models, with a depth budget.
//! - `context`: the environment of definitions.
//! - `eval`: the evaluator, proved to compute what `semantics` states.
//! - `module`: module names from file names and symbols, and loading.
//! - `pretty`, `message`: display of values and of errors.
//! - `laws`: properties of reading and evaluation.
pub mod text;
pub mod value;
pub mod token;
pub mod read;
pub mod semantics;
pub mod context;
pub mod eval;
pub mod module;
pub mod pretty;
pub mod message;
pub mod laws;
