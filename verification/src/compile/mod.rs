//! Compilation of checked programs.

pub mod llvm;
pub mod compiler;

pub use self::compiler::Compiler;
