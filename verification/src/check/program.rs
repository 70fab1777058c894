//! A checked protosnirk program, ready to be compiled: the `Unit` AST node
//! with its symbol table and the errors, warnings and lints found.

use vstd::prelude::*;

use crate::ast::Unit;
use crate::check::collector::ErrorCollector;
use crate::check::symbol::SymbolTable;

verus! {

/// Represents a parsed and checked program, ready to be compiled.
pub struct Program {
    unit: Unit,
    symbols: SymbolTable,
    errors: ErrorCollector,
}

impl Program {
    /// Create a `Program` from a collection of fields
    pub fn new(unit: Unit, symbol_table: SymbolTable, errors: ErrorCollector) -> (p: Program)
        ensures
            p.spec_unit() == unit,
            p.spec_symbols() == symbol_table,
            p.spec_errors() == errors,
    {
        Program { unit, symbols: symbol_table, errors }
    }

    pub closed spec fn spec_unit(&self) -> Unit {
        self.unit
    }

    pub closed spec fn spec_symbols(&self) -> SymbolTable {
        self.symbols
    }

    pub closed spec fn spec_errors(&self) -> ErrorCollector {
        self.errors
    }

    /// Get the AST `Unit` for this program
    pub fn get_unit(&self) -> (u: &Unit)
        ensures
            *u == self.spec_unit(),
    {
        &self.unit
    }

    /// Get the symbol table of the program
    pub fn get_symbols(&self) -> (t: &SymbolTable)
        ensures
            *t == self.spec_symbols(),
    {
        &self.symbols
    }

    /// Get the errors found in the program
    pub fn get_errors(&self) -> (e: &ErrorCollector)
        ensures
            *e == self.spec_errors(),
    {
        &self.errors
    }

    /// Checks whether this program compiled successfully: true where no
    /// error was found.
    pub fn has_errors(&self) -> (b: bool)
        ensures
            b == (self.spec_errors()@.errors.len() == 0),
    {
        self.errors.get_errors().len() == 0
    }

    /// The unit, symbol table and errors of the program.
    pub fn decompose(self) -> (r: (Unit, SymbolTable, ErrorCollector))
        ensures
            r.0 == self.spec_unit(),
            r.1 == self.spec_symbols(),
            r.2 == self.spec_errors(),
    {
        (self.unit, self.symbols, self.errors)
    }
}

} // verus!
