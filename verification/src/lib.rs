//! A small compiler for a C subset: scanners, a recursive-descent parser and an
//! x86-64 code generator, each with its behaviour stated as a specification.
pub mod text;
pub mod lexer;
pub mod tokenizer;
pub mod listing;
pub mod compiler;
pub mod ast;
pub mod grammar;
pub mod parser;
pub mod codegen;
pub mod gen;
