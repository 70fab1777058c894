//! Scope checking: giving identifiers unique scope indices.
//!
//! Identifiers of functions and their parameters are given `ScopedId`s in
//! the order they are declared, and type names are given the ids of the
//! types they name. The ids are the only metadata stored in the tree
//! itself; later passes map them to types, symbols and the like.

pub mod scope;
pub mod types;
pub mod names;
pub mod laws;

pub use self::scope::ScopeIndex;

use vstd::prelude::*;

use crate::ast::{Identifier, Item, ScopedId, TypeExpression, Unit};
use crate::check::collector::{CollectorView, ErrorCollector};
use crate::check::symbol::table_builder::{ScopeView, SymbolTableBuilder};
use self::names::{item_var_named, items_var_naming, ItemVarIdentifier, VarNaming};
use self::types::{default_type_names, default_type_scope, type_list_errors, ExpressionTypeIdentifier, ItemTypeIdentifier};
use self::types::item_namer::{items_flat, items_sig_errors, items_sig_named};
use self::types::expr_namer::{items_body_errors, items_body_named};

verus! {

/// Identifies `Identifier`s in the AST.
///
/// Each identifier's `ScopedId` is set according to whether it names a
/// value (a function or a parameter) or a type.
#[derive(Debug, PartialEq, Eq, Clone)]
pub struct ASTIdentifier {}

/// Where naming the values of a unit starts: one empty scope, the default
/// index, and the errors already collected.
pub open spec fn initial_var_naming(errors: Seq<crate::check::errors::ErrorView>) -> VarNaming {
    VarNaming { scopes: seq![Seq::empty()], current: seq![0usize], errors }
}

/// The errors of parameter types depend only on the types.
proof fn lemma_type_list_errors_types(types: Seq<ScopeView<Seq<usize>>>, a: Seq<(Identifier, TypeExpression)>, b: Seq<(Identifier, TypeExpression)>)
    requires
        a.len() == b.len(),
        forall|j: int| 0 <= j < a.len() ==> #[trigger] a[j].1 == b[j].1,
    ensures
        type_list_errors(types, a) == type_list_errors(types, b),
    decreases a.len(),
{
    if a.len() > 0 {
        lemma_type_list_errors_types(types, a.drop_last(), b.drop_last());
        assert(a.last().1 == b.last().1);
    }
}

/// Naming values leaves the signature type errors as they were.
proof fn lemma_sig_errors_after_var_naming(types: Seq<ScopeView<Seq<usize>>>, st: VarNaming, old: Seq<Item>, new: Seq<Item>)
    requires
        new.len() == old.len(),
        forall|j: int| 0 <= j < old.len() ==> #[trigger] item_var_named(items_var_naming(st, old.take(j)), old[j], new[j]),
    ensures
        items_sig_errors(types, new) == items_sig_errors(types, old),
    decreases old.len(),
{
    if old.len() > 0 {
        let k = old.len() - 1;
        assert forall|j: int| 0 <= j < k implies #[trigger] item_var_named(items_var_naming(st, old.drop_last().take(j)), old.drop_last()[j], new.drop_last()[j]) by {
            assert(old.drop_last().take(j) =~= old.take(j));
            assert(item_var_named(items_var_naming(st, old.take(j)), old[j], new[j]));
        }
        lemma_sig_errors_after_var_naming(types, st, old.drop_last(), new.drop_last());
        assert(item_var_named(items_var_naming(st, old.take(k)), old[k], new[k]));
        match old[k] {
            Item::BlockFnDeclaration(f) => {
                let g = new[k]->BlockFnDeclaration_0;
                lemma_type_list_errors_types(types, f.params@, g.params@);
            },
            Item::Typedef(_) => {},
        }
    }
}

/// Naming values and signature types leaves the bodies' type errors as
/// they were.
proof fn lemma_body_errors_after_naming(types: Seq<ScopeView<Seq<usize>>>, st: VarNaming, old: Seq<Item>, mid: Seq<Item>, new: Seq<Item>)
    requires
        mid.len() == old.len(),
        forall|j: int| 0 <= j < old.len() ==> #[trigger] item_var_named(items_var_naming(st, old.take(j)), old[j], mid[j]),
        items_sig_named(types, mid, new),
    ensures
        items_body_errors(types, new) == items_body_errors(types, old),
    decreases old.len(),
{
    if old.len() > 0 {
        let k = old.len() - 1;
        assert forall|j: int| 0 <= j < k implies #[trigger] item_var_named(items_var_naming(st, old.drop_last().take(j)), old.drop_last()[j], mid.drop_last()[j]) by {
            assert(old.drop_last().take(j) =~= old.take(j));
            assert(item_var_named(items_var_naming(st, old.take(j)), old[j], mid[j]));
        }
        assert forall|j: int| 0 <= j < k implies #[trigger] self::types::item_namer::item_sig_named(types, mid.drop_last()[j], new.drop_last()[j]) by {
            assert(self::types::item_namer::item_sig_named(types, mid[j], new[j]));
        }
        lemma_body_errors_after_naming(types, st, old.drop_last(), mid.drop_last(), new.drop_last());
        assert(item_var_named(items_var_naming(st, old.take(k)), old[k], mid[k]));
        assert(self::types::item_namer::item_sig_named(types, mid[k], new[k]));
    }
}

impl ASTIdentifier {
    /// The pass.
    pub fn new() -> (p: ASTIdentifier) {
        ASTIdentifier {}
    }

    /// Identifies a unit: names its functions and parameters, then the
    /// types in its signatures against the built-in types, then the types
    /// in its declarations. The errors of the three passes are added in
    /// that order.
    pub fn check_unit(&self, errors: &mut ErrorCollector, unit: &mut Unit)
        requires
            items_flat(old(unit).items@),
        ensures
            ({
                let types = seq![default_type_names()];
                let items = old(unit).items@;
                let var_naming = items_var_naming(initial_var_naming(old(errors)@.errors), items);
                &&& final(unit).span == old(unit).span
                &&& final(errors)@ == (CollectorView {
                    errors: var_naming.errors + items_sig_errors(types, items) + items_body_errors(types, items),
                    ..old(errors)@
                })
                &&& exists|named: Seq<Item>, typed: Seq<Item>| {
                    &&& named.len() == items.len()
                    &&& forall|j: int|
                        0 <= j < items.len() ==> #[trigger] item_var_named(
                            items_var_naming(initial_var_naming(old(errors)@.errors), items.take(j)),
                            items[j],
                            named[j],
                        )
                    &&& items_sig_named(types, named, typed)
                    &&& items_body_named(types, typed, final(unit).items@)
                }
            }),
    {
        let type_scope = default_type_scope();
        let mut names = SymbolTableBuilder::new();
        let mut item_vars = ItemVarIdentifier::new(ScopedId::default());
        let ghost st = initial_var_naming(errors@.errors);
        let ghost items0 = unit.items@;
        assert(names@ =~= st.scopes);
        let item_count = unit.items.len();
        assert(item_count == items0.len());
        item_vars.visit_unit(errors, &mut names, unit);
        let ghost named = unit.items@;
        let ghost e1 = errors@;
        assert(items_flat(named)) by {
            assert forall|i: int| 0 <= i < named.len() implies (#[trigger] named[i] matches Item::BlockFnDeclaration(f) ==> self::types::item_namer::signature_flat(f)) by {
                assert(item_var_named(items_var_naming(st, items0.take(i)), items0[i], named[i]));
                if named[i] is BlockFnDeclaration {
                    let f = named[i]->BlockFnDeclaration_0;
                    let f0 = items0[i]->BlockFnDeclaration_0;
                    assert forall|j: int| 0 <= j < f.params@.len() implies !(#[trigger] f.params@[j].1 is Function) by {
                        assert(f.params@[j].1 == f0.params@[j].1);
                    }
                }
            }
        };
        ItemTypeIdentifier::new().visit_unit(&type_scope, errors, unit);
        let ghost typed = unit.items@;
        ExpressionTypeIdentifier::new().visit_unit(&type_scope, errors, unit);
        proof {
            let types = seq![default_type_names()];
            lemma_sig_errors_after_var_naming(types, st, items0, named);
            lemma_body_errors_after_naming(types, st, items0, named, typed);
            assert(errors@.errors =~= items_var_naming(st, items0).errors + items_sig_errors(types, items0)
                + items_body_errors(types, items0));
        }
    }
}

} // verus!
