//! A compiler for a small C-like language targeting ARM64 assembly:
//! scanner, parser, semantic analysis and code generation.

pub mod text;
pub mod literal;
pub mod scanner;
pub mod assoc;
pub mod ast;
pub mod code_generator;
pub mod parser;
pub mod render;
pub mod semantic_analyzer;
pub mod diagnostic;
pub mod basic;
