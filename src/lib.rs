//! A small compiler for a curly-brace, Rust-like language: a lexer, a
//! precedence-climbing parser, lowering of the syntax tree to a control flow
//! graph, and emission of a textual LLVM-style listing.
pub mod types;
pub mod text;
pub mod lexer;
pub mod ast;
pub mod parser;
pub mod precedence;
pub mod hir;
pub mod lowering;
pub mod codegen;
pub mod graph;
pub mod driver;
