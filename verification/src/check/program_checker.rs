//! Runs the checks of a unit, producing a checked program.

use vstd::prelude::*;

use crate::ast::Unit;
use crate::check::collector::{CollectorView, ErrorCollector};

use crate::check::lint::UsageChecker;
use crate::check::lint::usage_checker::usage_warnings;
use crate::check::program::Program;
use crate::check::scope::scope::spec_default_index;
use crate::check::symbol::checking::{CheckState, check_unit, unit_annotated, items_weight};
use crate::check::symbol::laws::{checker_inv, law_check_unit_keeps_invariant};
use crate::check::symbol::symbol_checker::SymbolChecker;

verus! {

/// The state the symbol checker starts a unit in: no symbols, one global
/// scope, index `[0]`, and no errors.
pub open spec fn initial_state() -> CheckState {
    CheckState {
        table: Seq::empty(),
        scopes: seq![Seq::empty()],
        index: spec_default_index(),
        collector: CollectorView {
            errors: Seq::empty(),
            warnings: Seq::empty(),
            lints: Seq::empty(),
        },
    }
}

/// Runs verifications against code.
///
/// Brings together the checkers of this module and produces a complete
/// program, with a symbol table and possible compilation errors.
#[derive(Debug, PartialEq, Eq)]
pub struct UnitChecker {}

impl UnitChecker {
    /// Checks a unit. Where the symbol checker finds errors, they are
    /// returned; otherwise the program is returned with warnings for unused
    /// and never-mutated symbols.
    pub fn verify_unit(&mut self, unit: Unit) -> (r: Result<Program, ErrorCollector>)
        requires
            items_weight(unit.items@) <= usize::MAX,
        ensures
            ({
                let s = check_unit(initial_state(), unit);
                match r {
                    Err(c) => s.collector.errors.len() > 0 && c@ == s.collector,
                    Ok(p) => {
                        &&& s.collector.errors.len() == 0
                        &&& p.spec_symbols()@ == s.table
                        &&& p.spec_errors()@ == (CollectorView {
                            warnings: s.collector.warnings + usage_warnings(s.table),
                            ..s.collector
                        })
                        &&& unit_annotated(initial_state(), unit, p.spec_unit())
                    },
                }
            }),
    {
        let mut unit = unit;
        let errors = ErrorCollector::new();
        let mut symbol_builder = SymbolChecker::new(errors);
        assert(symbol_builder@ == initial_state()) by {
            assert(symbol_builder@.collector == initial_state().collector);
        };
        proof {
            assert(checker_inv(initial_state()));
            law_check_unit_keeps_invariant(initial_state(), unit);
        }
        symbol_builder.check_unit(&mut unit);
        let (symbol_table, mut errors) = symbol_builder.decompose();
        if errors.get_errors().len() != 0 {
            return Err(errors);
        }
        UsageChecker {}.warn_for_unsused(&mut errors, &symbol_table);
        Ok(Program::new(unit, symbol_table, errors))
    }
}

} // verus!
