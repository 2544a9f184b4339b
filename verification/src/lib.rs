//! A tree-walking interpreter for Lox, a small dynamically typed scripting
//! language with first-class functions, lexical closures, and single
//! inheritance classes.
//!
//! The pipeline: `scanner` turns source text into tokens, `parser` lifts the
//! tokens into a syntax tree, `resolver` annotates every variable reference
//! with a lexical hop distance, and `interpreter` walks the resolved tree
//! against a chain of environment frames.

pub mod text;
pub mod token;
pub mod error;
pub mod number;
pub mod loxtype;
pub mod ast;
pub mod env;
pub mod scanner;
pub mod parser;
pub mod resolver;
pub mod native_fns;
pub mod interpreter;
