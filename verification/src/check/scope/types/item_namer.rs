//! The first pass of type naming: the types in function signatures.

use vstd::prelude::*;

use crate::ast::{BlockFnDeclaration, Item, Unit};
use crate::check::collector::ErrorCollector;
use crate::check::errors::ErrorView;
use crate::check::symbol::table_builder::ScopeView;
use super::{name_type_expr, name_type_list, type_expr_errors, type_expr_named, type_list_errors, type_list_named, with_errors, NameScopeBuilder};

verus! {

/// Names the types of function signatures, so that items can be used
/// before they are declared.
#[derive(Debug, PartialEq, Eq, Clone)]
pub struct ItemTypeIdentifier {}

/// No parameter or return type of `f` is itself a function type; such a
/// type in a signature is not handled by this pass.
pub open spec fn signature_flat(f: BlockFnDeclaration) -> bool {
    &&& !(f.ret_ty is Function)
    &&& forall|i: int| 0 <= i < f.params@.len() ==> !(#[trigger] f.params@[i].1 is Function)
}

/// Every function among `items` has a flat signature.
pub open spec fn items_flat(items: Seq<Item>) -> bool {
    forall|i: int|
        0 <= i < items.len() ==> (#[trigger] items[i] matches Item::BlockFnDeclaration(f)
            ==> signature_flat(f))
}

/// The errors for the unknown type names in a function's signature:
/// parameter types, then the return type.
pub open spec fn fn_sig_errors(types: Seq<ScopeView<Seq<usize>>>, f: BlockFnDeclaration) -> Seq<ErrorView> {
    type_list_errors(types, f.params@) + type_expr_errors(types, f.ret_ty)
}

/// `new` is the function `old` with the known type names of its
/// signature given their ids, and nothing else changed.
pub open spec fn fn_sig_named(types: Seq<ScopeView<Seq<usize>>>, old: BlockFnDeclaration, new: BlockFnDeclaration) -> bool {
    &&& new.ident == old.ident
    &&& type_list_named(types, old.params@, new.params@)
    &&& type_expr_named(types, old.ret_ty, new.ret_ty)
    &&& new.explicit_ret_ty == old.explicit_ret_ty
    &&& new.block == old.block
    &&& new.span == old.span
}

/// The signature errors of one item.
pub open spec fn item_sig_errors(types: Seq<ScopeView<Seq<usize>>>, item: Item) -> Seq<ErrorView> {
    match item {
        Item::BlockFnDeclaration(f) => fn_sig_errors(types, f),
        Item::Typedef(_) => Seq::empty(),
    }
}

/// The signature errors of items, in order.
pub open spec fn items_sig_errors(types: Seq<ScopeView<Seq<usize>>>, items: Seq<Item>) -> Seq<ErrorView>
    decreases items.len(),
{
    if items.len() == 0 {
        Seq::empty()
    } else {
        items_sig_errors(types, items.drop_last()) + item_sig_errors(types, items.last())
    }
}

/// `new` is the item `old` with its signature's type names given ids.
pub open spec fn item_sig_named(types: Seq<ScopeView<Seq<usize>>>, old: Item, new: Item) -> bool {
    match old {
        Item::BlockFnDeclaration(f) => new matches Item::BlockFnDeclaration(g) && fn_sig_named(
            types,
            f,
            g,
        ),
        Item::Typedef(_) => new == old,
    }
}

/// `new` is the list of items `old` with their signatures' type names
/// given ids.
pub open spec fn items_sig_named(types: Seq<ScopeView<Seq<usize>>>, old: Seq<Item>, new: Seq<Item>) -> bool {
    &&& new.len() == old.len()
    &&& forall|i: int| 0 <= i < old.len() ==> #[trigger] item_sig_named(types, old[i], new[i])
}

impl ItemTypeIdentifier {
    /// The pass.
    pub fn new() -> (p: ItemTypeIdentifier) {
        ItemTypeIdentifier {}
    }

    /// Names the types of a function's signature.
    pub fn visit_block_fn_decl(&self, types: &NameScopeBuilder, errors: &mut ErrorCollector, fn_decl: &mut BlockFnDeclaration)
        requires
            types@.len() > 0,
            signature_flat(*old(fn_decl)),
        ensures
            fn_sig_named(types@, *old(fn_decl), *final(fn_decl)),
            final(errors)@ == with_errors(old(errors)@, fn_sig_errors(types@, *old(fn_decl))),
    {
        let ghost e0 = errors@;
        name_type_list(types, errors, &mut fn_decl.params);
        name_type_expr(types, errors, &mut fn_decl.ret_ty);
        assert(errors@.errors =~= e0.errors + fn_sig_errors(types@, *old(fn_decl)));
    }

    /// Names the types of the signatures of a unit's functions, in order.
    pub fn visit_unit(&self, types: &NameScopeBuilder, errors: &mut ErrorCollector, unit: &mut Unit)
        requires
            types@.len() > 0,
            items_flat(old(unit).items@),
        ensures
            final(unit).span == old(unit).span,
            items_sig_named(types@, old(unit).items@, final(unit).items@),
            final(errors)@ == with_errors(old(errors)@, items_sig_errors(types@, old(unit).items@)),
    {
        let ghost items0 = unit.items@;
        let ghost e0 = errors@;
        let n = unit.items.len();
        let mut k: usize = 0;
        assert(errors@ =~= with_errors(e0, items_sig_errors(types@, items0.take(0))));
        while k < n
            invariant
                n == unit.items@.len(),
                n == items0.len(),
                items0 == old(unit).items@,
                unit.span == old(unit).span,
                types@.len() > 0,
                items_flat(items0),
                k <= n,
                forall|j: int| k <= j < n ==> unit.items@[j] == items0[j],
                forall|j: int| 0 <= j < k ==> #[trigger] item_sig_named(types@, items0[j], unit.items@[j]),
                errors@ == with_errors(e0, items_sig_errors(types@, items0.take(k as int))),
            decreases n - k,
        {
            let ghost eb = errors@;
            let ghost before = unit.items@;
            assert(items0[k as int] == unit.items@[k as int]);
            match &mut unit.items[k] {
                Item::BlockFnDeclaration(f) => {
                    self.visit_block_fn_decl(types, errors, f);
                },
                Item::Typedef(_) => {
                    assert(errors@ =~= with_errors(eb, Seq::empty()));
                },
            }
            assert(items0.take(k + 1).drop_last() =~= items0.take(k as int));
            assert(errors@.errors =~= e0.errors + items_sig_errors(types@, items0.take(k + 1)));
            assert forall|j: int| 0 <= j < k + 1 implies #[trigger] item_sig_named(types@, items0[j], unit.items@[j]) by {
                if j < k {
                    assert(unit.items@[j] == before[j]);
                }
            }
            k += 1;
        }
        assert(items0.take(n as int) =~= items0);
    }
}

} // verus!
