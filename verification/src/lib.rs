//! A compiler for the small Rem language: source bytes are split into
//! tokens, parsed into an AST with scope and arity checks, and lowered to
//! WebAssembly text.

pub mod ast;
pub mod symbol_table;
pub mod token;
pub mod error;
pub mod lexer;
pub mod grammar;
pub mod functions;
pub mod parser;
pub mod backend;
pub mod toolchain;
pub mod output;
pub mod scoping;
