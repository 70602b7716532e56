//! Execution core of a small stack-based scripting language: a tokenizer, a
//! hierarchical namespace of dotted symbol paths, a tagged value model with
//! first-class quotations, and a non-recursive interpreter engine driven by an
//! explicit continuation stack.

pub mod builtins;
pub mod error;
pub mod interpreter;
pub mod namespace;
pub mod scanner;
pub mod value;
