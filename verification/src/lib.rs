//! A verified front end for a small imperative toy language: lexical
//! analysis, recursive-descent parsing, static scope analysis, and
//! source-to-source code generation into a host language.
//!
//! Text flows strictly left to right through the stages: source text to
//! tokens, tokens to an abstract syntax tree, the tree through scope
//! analysis, and the validated tree to generated text. Each stage is a pure
//! function of its input, specified against a mathematical model of the
//! data it works on.

pub mod ast;
pub mod laws;
pub mod lexer;
pub mod rust_transpiler;
pub mod semantic_analyzer;
