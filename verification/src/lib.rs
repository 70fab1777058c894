//! The protosnirk compiler front end: tokens, the abstract syntax tree,
//! scope and symbol checking, usage linting and the bookkeeping tables
//! used by later passes.

pub mod lex;
pub mod ast;
pub mod check;
pub mod parse;
pub mod compile;
pub mod example;
