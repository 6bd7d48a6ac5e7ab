//! A verified tree-walking interpreter for the Nala scripting language.
//!
//! The crate is organised leaves first: the value domain and the runtime
//! errors, the resolved type language with its assignability relation, the
//! scoped environment, the pattern matcher, and finally the evaluator that
//! drives them all.  Programs are produced either by the parser in
//! [`parser`] or directly as abstract syntax trees.

pub mod ast;
pub mod builtins;
pub mod display;
pub mod errors;
pub mod inference;
pub mod interpreter;
pub mod io_context;
pub mod operations;
pub mod parser;
pub mod patterns;
pub mod scopes;
pub mod types;
pub mod values;

