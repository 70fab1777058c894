//! Support for compiling checked programs.

pub mod lexical_scope_manager;

pub use self::lexical_scope_manager::LexicalScopeManager;
