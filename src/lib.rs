//! The back end of a small scripting language: a compiler from syntax trees to instructions,
//! and the stack machine that executes them.
pub mod ast;
pub mod bytecode;
pub mod compiler;
pub mod program;
pub mod text;
pub mod value;
pub mod vm;
