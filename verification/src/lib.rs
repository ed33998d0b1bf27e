//! An embeddable runtime for a small expression-oriented scripting language:
//! a tokenizer, a recursive-descent parser and a tree-walking evaluator, with
//! a scope chain for variables and a registry of host-provided functions.

pub mod lang;
