//! The backend: the intermediate instruction set, expression and statement
//! lowering, and the binary module generator.

pub mod expr;
pub mod ir;
pub mod module;
pub mod stmt;
pub mod wasm;
