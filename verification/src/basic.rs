//! The basic dialect of the language: integers, booleans, floats and strings,
//! functions, `if`/`else` and assignments, without positions on tokens.

pub mod code_generator;
pub mod parser;
pub mod render;
pub mod semantic_analyzer;
pub mod scanner;
