//! Front end of a compiler for a small Pascal-like language: a finite-automaton
//! scanner that turns source text into tokens, and a recursive-descent parser
//! that checks syntax, scopes and types in a single traversal.

pub mod common;
pub mod lexical;
pub mod syntactic;
