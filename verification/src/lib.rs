//! A compiler for a small imperative language with one 64-bit integer type:
//! lexer, recursive-descent parser, and a two-phase code generator that
//! lowers the AST through a stack-machine intermediate instruction list into
//! a binary WebAssembly module.

pub mod ast;
pub mod codegen;
pub mod compiler;
pub mod diagnostics;
pub mod lexer;
pub mod parser;
pub mod runner;
pub mod token;
