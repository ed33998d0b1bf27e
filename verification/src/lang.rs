//! The language pipeline, leaves first.

pub mod panics;
pub mod reg_exp;
pub mod token;
pub mod tokenizer;
pub mod ast;
pub mod parser;
pub mod value;
pub mod env;
pub mod func;
pub mod interpreter;
