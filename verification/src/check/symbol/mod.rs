//! Symbol checking: which names are declared, where, and how they are used.

pub mod symbol;
pub mod table;
pub mod table_builder;
pub mod checking;
pub mod symbol_checker;
pub mod laws;

pub use self::table::SymbolTable;
