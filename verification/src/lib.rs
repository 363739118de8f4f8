//! A small end-to-end language toolchain: a lexer, a recursive-descent parser,
//! a lowering pass to a flat register-machine instruction sequence, and a
//! virtual machine that executes that sequence and streams yielded values
//! back to its host.

pub mod air;
pub mod ast;
pub mod span;
pub mod block;
pub mod error;
pub mod gen;
pub mod lex;
pub mod parse;
pub mod pipeline;
pub mod segment;
pub mod text;
pub mod token;
pub mod vm;
