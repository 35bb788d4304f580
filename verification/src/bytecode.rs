//! The bytecode path: scanner, Pratt compiler, chunk and stack machine.

pub mod chunk;
pub mod compiler;
pub mod error;
pub mod listing;
pub mod op;
pub mod scanner;
pub mod value;
pub mod vm;
