//! Compilation and execution core for a small indentation-based scripting
//! language: a scanner, a recursive-descent parser, a symbol/type pass, a
//! bytecode compiler and a stack virtual machine, together with the runtime
//! value model and the table of built-in methods.

pub mod ast_compiler;
pub mod builtins;
pub mod bytecode_compiler;
pub mod chunk;
pub mod compiler;
pub mod decimal;
pub mod disassembler;
pub mod errors;
pub mod keywords;
pub mod laws;
pub mod literals;
pub mod registry;
pub mod scanner;
pub mod symbols;
pub mod text;
pub mod tokens;
pub mod value;
pub mod value_ops;
pub mod value_text;
pub mod vm;
