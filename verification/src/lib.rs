//! A small indentation-sensitive scripting language: scanner, single-pass
//! compiler to stack bytecode, and a virtual machine that executes it.

pub mod chunk;
pub mod compiler;
pub mod numerics;
pub mod opcode;
pub mod parse;
pub mod scanner;
pub mod token;
pub mod value;
pub mod vm;

pub use token::Token;
pub use token::TokenType;
