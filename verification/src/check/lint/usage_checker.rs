//! Checks that variables have been used in a symbol table.

use vstd::prelude::*;

use crate::ast::ScopedId;
use crate::check::collector::{CollectorView, ErrorCollector};
use crate::check::errors::{CheckerError, ErrorView, error_view, tokens_view};
use crate::check::symbol::symbol::{DeclaredSymbol, SymbolView, source_name};
use crate::check::symbol::table::{SymbolTable, TableView};
use crate::check::text::concat3;

verus! {

/// `{Source} {name} is declared but never used`, at the declaration.
pub open spec fn unused_warning(sym: SymbolView) -> ErrorView {
    error_view(
        sym.declaration,
        Seq::empty(),
        source_name(sym.source) + " "@ + sym.declaration.text + " is declared but never used"@,
    )
}

/// `{Source} {name} is declared mutable but never mutated`, at the
/// declaration.
pub open spec fn unmutated_warning(sym: SymbolView) -> ErrorView {
    error_view(
        sym.declaration,
        Seq::empty(),
        source_name(sym.source) + " "@ + sym.declaration.text + " is declared mutable but never mutated"@,
    )
}

/// The warnings for one symbol: unused, then mutable but never mutated.
pub open spec fn symbol_warnings(sym: SymbolView) -> Seq<ErrorView> {
    (if !sym.used { seq![unused_warning(sym)] } else { Seq::empty() }) + (if sym.mutable && !sym.mutated {
        seq![unmutated_warning(sym)]
    } else {
        Seq::empty()
    })
}

/// The warnings for a table, symbol by symbol in table order.
pub open spec fn usage_warnings(t: TableView) -> Seq<ErrorView>
    decreases t.len(),
{
    if t.len() == 0 {
        Seq::empty()
    } else {
        usage_warnings(t.drop_last()) + symbol_warnings(t.last().1)
    }
}

/// What `warn_for_unsused` reports for a table: every symbol that is never
/// used has a warning "<Source> <name> is declared but never used", and
/// every mutable symbol that is never mutated, used or not, has a warning
/// "<Source> <name> is declared mutable but never mutated", each at the
/// symbol's declaration.
pub proof fn law_usage_warnings_cover_symbols(t: TableView, i: int)
    requires
        0 <= i < t.len(),
    ensures
        !t[i].1.used ==> usage_warnings(t).contains(
            error_view(
                t[i].1.declaration,
                Seq::empty(),
                source_name(t[i].1.source) + " "@ + t[i].1.declaration.text + " is declared but never used"@,
            ),
        ),
        t[i].1.mutable && !t[i].1.mutated ==> usage_warnings(t).contains(
            error_view(
                t[i].1.declaration,
                Seq::empty(),
                source_name(t[i].1.source) + " "@ + t[i].1.declaration.text
                    + " is declared mutable but never mutated"@,
            ),
        ),
    decreases t.len(),
{
    let sym = t[i].1;
    let before = usage_warnings(t.drop_last());
    let own = symbol_warnings(t.last().1);
    assert(usage_warnings(t) == before + own);
    if i < t.len() - 1 {
        law_usage_warnings_cover_symbols(t.drop_last(), i);
        assert(t.drop_last()[i] == t[i]);
        if !sym.used {
            let w = unused_warning(sym);
            let k = choose|k: int| 0 <= k < before.len() && before[k] == w;
            assert((before + own)[k] == w);
        }
        if sym.mutable && !sym.mutated {
            let w = unmutated_warning(sym);
            let k = choose|k: int| 0 <= k < before.len() && before[k] == w;
            assert((before + own)[k] == w);
        }
    } else {
        assert(t.last().1 == sym);
        if !sym.used {
            assert(own[0] == unused_warning(sym));
            assert((before + own)[before.len() as int] == unused_warning(sym));
        }
        if sym.mutable && !sym.mutated {
            let k = own.len() - 1;
            assert(own[k] == unmutated_warning(sym));
            assert((before + own)[before.len() + k] == unmutated_warning(sym));
        }
    }
}

/// No symbol of the table that is not mutable has been mutated.
pub open spec fn only_mutables_mutated(t: TableView) -> bool {
    forall|i: int| 0 <= i < t.len() ==> (#[trigger] t[i].1.mutated ==> t[i].1.mutable)
}

/// Reports warnings for unused variables and un-mutated mutable variables.
#[derive(Debug)]
pub struct UsageChecker {}

impl UsageChecker {
    /// Adds to `warns`, for each symbol of `table` in order, a warning where
    /// it is never used and one where it is mutable but never mutated.
    pub fn warn_for_unsused(&self, warns: &mut ErrorCollector, table: &SymbolTable)
        requires
            only_mutables_mutated(table@),
        ensures
            final(warns)@ == (CollectorView {
                warnings: old(warns)@.warnings + usage_warnings(table@),
                ..old(warns)@
            }),
    {
        let entries = table.entries();
        let ghost t = table@;
        let n = entries.len();
        let mut i: usize = 0;
        while i < n
            invariant
                n == entries@.len(),
                entries@.map_values(|p: (ScopedId, DeclaredSymbol)| (p.0@, p.1@)) == t,
                i <= n,
                warns@ == (CollectorView {
                    warnings: old(warns)@.warnings + usage_warnings(t.take(i as int)),
                    ..old(warns)@
                }),
            decreases n - i,
        {
            let sym = &entries[i].1;
            assert(t[i as int].1 == sym@);
            let ghost before = warns@.warnings;
            if !sym.is_used() {
                let mut text = concat3(sym.get_source().get_name(), " ", sym.get_declaration().text());
                text.append(" is declared but never used");
                let w = CheckerError::new(sym.get_declaration().clone(), Vec::new(), text);
                assert(w@ == unused_warning(sym@)) by {
                    assert(tokens_view(Seq::<crate::lex::Token>::empty()) =~= Seq::empty());
                };
                warns.add_warning(w);
            }
            if sym.is_mutable() && !sym.is_mutated() {
                let mut text = concat3(sym.get_source().get_name(), " ", sym.get_declaration().text());
                text.append(" is declared mutable but never mutated");
                let w = CheckerError::new(sym.get_declaration().clone(), Vec::new(), text);
                assert(w@ == unmutated_warning(sym@)) by {
                    assert(tokens_view(Seq::<crate::lex::Token>::empty()) =~= Seq::empty());
                };
                warns.add_warning(w);
            }
            assert(warns@.warnings =~= before + symbol_warnings(sym@));
            assert(t.take(i + 1).drop_last() =~= t.take(i as int));
            assert(usage_warnings(t.take(i + 1)) == usage_warnings(t.take(i as int)) + symbol_warnings(sym@));
            assert(warns@.warnings =~= old(warns)@.warnings + usage_warnings(t.take(i + 1)));
            i += 1;
        }
        assert(t.take(n as int) =~= t);
    }
}

} // verus!
