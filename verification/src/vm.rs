//! The bytecode backend: chunks, a compiler for expressions, and a
//! stack machine.

pub mod chunk;
pub mod pratt;
pub mod parser;
pub mod compiler;
pub mod virtualmachine;
