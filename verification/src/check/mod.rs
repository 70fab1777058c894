//! Checking passes over the AST: scopes, symbols and usage.

pub mod assoc;
pub mod id;
pub mod scope;
pub mod errors;
pub mod collector;
pub mod text;
pub mod types;
pub mod symbol;
pub mod lint;
pub mod program;
pub mod program_checker;
