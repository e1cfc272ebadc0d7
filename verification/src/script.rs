//! The mapping script language: values, syntax tree, parser and interpreter.

pub mod value;
pub mod ast;
pub mod host;
pub mod builtins;
pub mod semantics;
pub mod interp;
pub mod lexer;
pub mod grammar;
pub mod parser;
pub mod laws;
