//! Front end of the Nasko language: source text to an annotated syntax tree.

pub mod ast;
pub mod grammar;
pub mod invariants;
pub mod lex;
pub mod parser;
pub mod semantics;
pub mod text;
pub mod type_check;
