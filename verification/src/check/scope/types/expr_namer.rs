//! The second pass of type naming: the types written in declarations
//! inside function bodies.

use vstd::prelude::*;

use crate::ast::{Block, BlockFnDeclaration, Conditional, DoBlock, Identifier, IfBlock, Item, Statement, TypeExpression, Unit};
use crate::check::collector::ErrorCollector;
use crate::check::errors::{ErrorView, error_view};
use crate::check::symbol::table_builder::scopes_lookup;
use crate::check::symbol::table_builder::ScopeView;
use super::{name_type_expr, type_expr_errors, type_expr_named, with_errors, NameScopeBuilder};

verus! {

/// Names the types written in variable declarations.
#[derive(Debug, PartialEq, Eq, Clone)]
pub struct ExpressionTypeIdentifier {}

/// The errors for unknown type names in declarations within a statement,
/// in the order they are written.
pub open spec fn stmt_type_errors(types: Seq<ScopeView<Seq<usize>>>, st: Statement) -> Seq<ErrorView>
    decreases st,
{
    match st {
        Statement::Declaration(d) => match d.type_decl {
            Some(t) => type_expr_errors(types, t),
            None => Seq::empty(),
        },
        Statement::DoBlock(d) => stmts_type_errors(types, d.block.statements@),
        Statement::IfBlock(i) => conds_type_errors(types, i.conditionals@) + match i.else_block {
            Some(b) => stmts_type_errors(types, b.statements@),
            None => Seq::empty(),
        },
        _ => Seq::empty(),
    }
}

/// The errors for unknown type names in declarations within statements.
pub open spec fn stmts_type_errors(types: Seq<ScopeView<Seq<usize>>>, sts: Seq<Statement>) -> Seq<ErrorView>
    decreases sts,
{
    if sts.len() == 0 {
        Seq::empty()
    } else {
        stmts_type_errors(types, sts.drop_last()) + stmt_type_errors(types, sts.last())
    }
}

/// The errors for unknown type names in declarations within the blocks of
/// conditionals.
pub open spec fn conds_type_errors(types: Seq<ScopeView<Seq<usize>>>, cs: Seq<Conditional>) -> Seq<ErrorView>
    decreases cs,
{
    if cs.len() == 0 {
        Seq::empty()
    } else {
        conds_type_errors(types, cs.drop_last()) + stmts_type_errors(
            types,
            cs.last().block.statements@,
        )
    }
}

/// `new` is the statement `old` with the known type names in its
/// declarations given ids, and nothing else changed.
pub open spec fn stmt_types_named(types: Seq<ScopeView<Seq<usize>>>, old: Statement, new: Statement) -> bool
    decreases old,
{
    match old {
        Statement::Declaration(d) => new matches Statement::Declaration(e) && e.mutable == d.mutable
            && e.ident == d.ident && e.value == d.value && e.span == d.span && match d.type_decl {
            Some(t) => e.type_decl matches Some(u) && type_expr_named(types, t, u),
            None => e.type_decl is None,
        },
        Statement::DoBlock(d) => new matches Statement::DoBlock(e) && e.span == d.span
            && block_types_named(types, *d.block, *e.block),
        Statement::IfBlock(i) => new matches Statement::IfBlock(j) && j.scoped_id == i.scoped_id
            && j.source == i.source && j.span == i.span && conds_types_named(
            types,
            i.conditionals@,
            j.conditionals@,
        ) && match i.else_block {
            Some(b) => j.else_block matches Some(c) && block_types_named(types, b, c),
            None => j.else_block is None,
        },
        _ => new == old,
    }
}

/// `new` is the block `old` with the known type names in its declarations
/// given ids.
pub open spec fn block_types_named(types: Seq<ScopeView<Seq<usize>>>, old: Block, new: Block) -> bool
    decreases old,
{
    &&& new.scope_id == old.scope_id
    &&& new.source == old.source
    &&& stmts_types_named(types, old.statements@, new.statements@)
}

/// `new` is the list of statements `old` with the known type names in
/// their declarations given ids.
pub open spec fn stmts_types_named(types: Seq<ScopeView<Seq<usize>>>, old: Seq<Statement>, new: Seq<Statement>) -> bool
    decreases old,
{
    &&& new.len() == old.len()
    &&& old.len() > 0 ==> {
        &&& stmt_types_named(types, old.last(), new.last())
        &&& stmts_types_named(types, old.drop_last(), new.drop_last())
    }
}

/// `new` is the list of conditionals `old` with the known type names in
/// the declarations of their blocks given ids.
pub open spec fn conds_types_named(types: Seq<ScopeView<Seq<usize>>>, old: Seq<Conditional>, new: Seq<Conditional>) -> bool
    decreases old,
{
    &&& new.len() == old.len()
    &&& old.len() > 0 ==> {
        &&& new.last().condition == old.last().condition
        &&& new.last().span == old.last().span
        &&& block_types_named(types, old.last().block, new.last().block)
        &&& conds_types_named(types, old.drop_last(), new.drop_last())
    }
}

/// The errors for unknown type names in the declarations of an item.
pub open spec fn item_body_errors(types: Seq<ScopeView<Seq<usize>>>, item: Item) -> Seq<ErrorView> {
    match item {
        Item::BlockFnDeclaration(f) => stmts_type_errors(types, f.block.statements@),
        Item::Typedef(_) => Seq::empty(),
    }
}

/// The errors for unknown type names in the declarations of items, in
/// order.
pub open spec fn items_body_errors(types: Seq<ScopeView<Seq<usize>>>, items: Seq<Item>) -> Seq<ErrorView>
    decreases items.len(),
{
    if items.len() == 0 {
        Seq::empty()
    } else {
        items_body_errors(types, items.drop_last()) + item_body_errors(types, items.last())
    }
}

/// `new` is the function `old` with the known type names of the
/// declarations in its body given ids, and nothing else changed.
pub open spec fn fn_body_types_named(types: Seq<ScopeView<Seq<usize>>>, old: BlockFnDeclaration, new: BlockFnDeclaration) -> bool {
    &&& new.ident == old.ident
    &&& new.params == old.params
    &&& new.ret_ty == old.ret_ty
    &&& new.explicit_ret_ty == old.explicit_ret_ty
    &&& new.span == old.span
    &&& block_types_named(types, old.block, new.block)
}

/// `new` is the item `old` with the type names in its body named.
pub open spec fn item_body_named(types: Seq<ScopeView<Seq<usize>>>, old: Item, new: Item) -> bool {
    match old {
        Item::BlockFnDeclaration(f) => new matches Item::BlockFnDeclaration(g) && fn_body_types_named(
            types,
            f,
            g,
        ),
        Item::Typedef(_) => new == old,
    }
}

/// `new` is the list of items `old` with the type names in their bodies
/// named.
pub open spec fn items_body_named(types: Seq<ScopeView<Seq<usize>>>, old: Seq<Item>, new: Seq<Item>) -> bool {
    &&& new.len() == old.len()
    &&& forall|i: int| 0 <= i < old.len() ==> #[trigger] item_body_named(types, old[i], new[i])
}

impl ExpressionTypeIdentifier {
    /// The pass.
    pub fn new() -> (p: ExpressionTypeIdentifier) {
        ExpressionTypeIdentifier {}
    }

    /// Names the type written in a declaration, and those in the
    /// declarations of nested blocks.
    pub fn visit_statement(&self, types: &NameScopeBuilder, errors: &mut ErrorCollector, stmt: &mut Statement)
        requires
            types@.len() > 0,
        ensures
            stmt_types_named(types@, *old(stmt), *final(stmt)),
            final(errors)@ == with_errors(old(errors)@, stmt_type_errors(types@, *old(stmt))),
        decreases *old(stmt), 3nat,
    {
        let ghost e0 = errors@;
        match stmt {
            Statement::Declaration(d) => {
                match &mut d.type_decl {
                    Some(t) => {
                        name_type_expr(types, errors, t);
                    },
                    None => {
                        assert(errors@ =~= with_errors(e0, Seq::empty()));
                    },
                }
            },
            Statement::DoBlock(d) => {
                self.visit_block(types, errors, &mut d.block);
            },
            Statement::IfBlock(i) => {
                self.visit_if_block(types, errors, i);
            },
            _ => {
                assert(errors@ =~= with_errors(e0, Seq::empty()));
            },
        }
    }

    /// Names the types in the declarations of an `if` block's branches.
    fn visit_if_block(&self, types: &NameScopeBuilder, errors: &mut ErrorCollector, if_block: &mut IfBlock)
        requires
            types@.len() > 0,
        ensures
            stmt_types_named(types@, Statement::IfBlock(*old(if_block)), Statement::IfBlock(*final(if_block))),
            final(errors)@ == with_errors(old(errors)@, stmt_type_errors(types@, Statement::IfBlock(*old(if_block)))),
        decreases *old(if_block), 2nat,
    {
        let ghost e0 = errors@;
        let ghost i0 = *if_block;
        let ghost cs0 = if_block.conditionals@;
        let n = if_block.conditionals.len();
        let mut k: usize = 0;
        assert(errors@ =~= with_errors(e0, conds_type_errors(types@, cs0.take(0))));
        assert(conds_types_named(types@, cs0.take(0), if_block.conditionals@.take(0)));
        while k < n
            invariant
                n == if_block.conditionals@.len(),
                n == cs0.len(),
                cs0 == i0.conditionals@,
                *old(if_block) == i0,
                types@.len() > 0,
                k <= n,
                forall|j: int| k <= j < n ==> if_block.conditionals@[j] == cs0[j],
                if_block.else_block == i0.else_block,
                if_block.scoped_id == i0.scoped_id,
                if_block.source == i0.source,
                if_block.span == i0.span,
                conds_types_named(types@, cs0.take(k as int), if_block.conditionals@.take(k as int)),
                errors@ == with_errors(e0, conds_type_errors(types@, cs0.take(k as int))),
            decreases n - k,
        {
            let ghost before = if_block.conditionals@;
            assert(decreases_to!(i0 => cs0[k as int].block)) by {
                assert(decreases_to!(i0 => i0.conditionals));
                assert(decreases_to!(i0.conditionals => cs0));
                assert(decreases_to!(cs0 => cs0[k as int]));
                assert(decreases_to!(cs0[k as int] => cs0[k as int].block));
            };
            self.visit_block(types, errors, &mut if_block.conditionals[k].block);
            assert(cs0.take(k + 1).drop_last() =~= cs0.take(k as int));
            assert(if_block.conditionals@.take(k + 1).drop_last() =~= before.take(k as int));
            assert(if_block.conditionals@.take(k as int) =~= before.take(k as int));
            assert(errors@.errors =~= e0.errors + conds_type_errors(types@, cs0.take(k + 1)));
            k += 1;
        }
        assert(cs0.take(n as int) =~= cs0);
        assert(if_block.conditionals@.take(n as int) =~= if_block.conditionals@);
        let ghost e1 = errors@;
        match &mut if_block.else_block {
            Some(b) => {
                self.visit_block(types, errors, b);
            },
            None => {
                assert(errors@ =~= with_errors(e1, Seq::empty()));
            },
        }
        assert(errors@.errors =~= e0.errors + stmt_type_errors(types@, Statement::IfBlock(i0)));
    }

    /// Names the types in the declarations of a block.
    pub fn visit_block(&self, types: &NameScopeBuilder, errors: &mut ErrorCollector, block: &mut Block)
        requires
            types@.len() > 0,
        ensures
            block_types_named(types@, *old(block), *final(block)),
            final(errors)@ == with_errors(old(errors)@, stmts_type_errors(types@, old(block).statements@)),
        decreases *old(block), 5nat,
    {
        assert(decreases_to!(*old(block) => old(block).statements));
        self.visit_statements(types, errors, &mut block.statements);
    }

    /// Names the types in the declarations of statements, in order.
    fn visit_statements(&self, types: &NameScopeBuilder, errors: &mut ErrorCollector, stmts: &mut Vec<Statement>)
        requires
            types@.len() > 0,
        ensures
            stmts_types_named(types@, old(stmts)@, final(stmts)@),
            final(errors)@ == with_errors(old(errors)@, stmts_type_errors(types@, old(stmts)@)),
        decreases old(stmts)@, 4nat,
    {
        let ghost e0 = errors@;
        let ghost sts0 = stmts@;
        let n = stmts.len();
        let mut k: usize = 0;
        assert(errors@ =~= with_errors(e0, stmts_type_errors(types@, sts0.take(0))));
        assert(stmts_types_named(types@, sts0.take(0), stmts@.take(0)));
        while k < n
            invariant
                n == stmts@.len(),
                n == sts0.len(),
                sts0 == old(stmts)@,
                types@.len() > 0,
                k <= n,
                forall|j: int| k <= j < n ==> stmts@[j] == sts0[j],
                stmts_types_named(types@, sts0.take(k as int), stmts@.take(k as int)),
                errors@ == with_errors(e0, stmts_type_errors(types@, sts0.take(k as int))),
            decreases n - k,
        {
            let ghost before = stmts@;
            assert(decreases_to!(sts0 => sts0[k as int]));
            self.visit_statement(types, errors, &mut stmts[k]);
            assert(sts0.take(k + 1).drop_last() =~= sts0.take(k as int));
            assert(stmts@.take(k + 1).drop_last() =~= before.take(k as int));
            assert(stmts@.take(k as int) =~= before.take(k as int));
            assert(errors@.errors =~= e0.errors + stmts_type_errors(types@, sts0.take(k + 1)));
            k += 1;
        }
        assert(sts0.take(n as int) =~= sts0);
        assert(stmts@.take(n as int) =~= stmts@);
    }

    /// Names the types in the declarations of a unit's functions, in order.
    pub fn visit_unit(&self, types: &NameScopeBuilder, errors: &mut ErrorCollector, unit: &mut Unit)
        requires
            types@.len() > 0,
        ensures
            final(unit).span == old(unit).span,
            items_body_named(types@, old(unit).items@, final(unit).items@),
            final(errors)@ == with_errors(old(errors)@, items_body_errors(types@, old(unit).items@)),
    {
        let ghost items0 = unit.items@;
        let ghost e0 = errors@;
        let n = unit.items.len();
        let mut k: usize = 0;
        assert(errors@ =~= with_errors(e0, items_body_errors(types@, items0.take(0))));
        while k < n
            invariant
                n == unit.items@.len(),
                n == items0.len(),
                items0 == old(unit).items@,
                unit.span == old(unit).span,
                types@.len() > 0,
                k <= n,
                forall|j: int| k <= j < n ==> unit.items@[j] == items0[j],
                forall|j: int| 0 <= j < k ==> #[trigger] item_body_named(types@, items0[j], unit.items@[j]),
                errors@ == with_errors(e0, items_body_errors(types@, items0.take(k as int))),
            decreases n - k,
        {
            let ghost eb = errors@;
            let ghost before = unit.items@;
            match &mut unit.items[k] {
                Item::BlockFnDeclaration(f) => {
                    self.visit_block(types, errors, &mut f.block);
                },
                Item::Typedef(_) => {
                    assert(errors@ =~= with_errors(eb, Seq::empty()));
                },
            }
            assert(items0.take(k + 1).drop_last() =~= items0.take(k as int));
            assert(errors@.errors =~= e0.errors + items_body_errors(types@, items0.take(k + 1)));
            assert forall|j: int| 0 <= j < k + 1 implies #[trigger] item_body_named(types@, items0[j], unit.items@[j]) by {
                if j < k {
                    assert(unit.items@[j] == before[j]);
                }
            }
            k += 1;
        }
        assert(items0.take(n as int) =~= items0);
    }
}

/// The unknown type name of a declaration among statements is reported
/// among their errors.
proof fn lemma_stmts_report_declaration(types: Seq<ScopeView<Seq<usize>>>, sts: Seq<Statement>, j: int, e: ErrorView)
    requires
        0 <= j < sts.len(),
        stmt_type_errors(types, sts[j]).contains(e),
    ensures
        stmts_type_errors(types, sts).contains(e),
    decreases sts.len(),
{
    let before = stmts_type_errors(types, sts.drop_last());
    let own = stmt_type_errors(types, sts.last());
    if j < sts.len() - 1 {
        assert(sts.drop_last()[j] == sts[j]);
        lemma_stmts_report_declaration(types, sts.drop_last(), j, e);
        let k = choose|k: int| 0 <= k < before.len() && before[k] == e;
        assert((before + own)[k] == e);
    } else {
        let k = choose|k: int| 0 <= k < own.len() && own[k] == e;
        assert((before + own)[before.len() + k] == e);
    }
}

/// Every declaration written directly in an `if` block's `else` block
/// whose type is a name that `types` does not know is reported as
/// "Unknown type <name>" at the name, among the `if` block's errors.
pub proof fn law_else_declarations_are_named(types: Seq<ScopeView<Seq<usize>>>, i: IfBlock, j: int)
    requires
        i.else_block is Some,
        0 <= j < i.else_block.unwrap().statements@.len(),
        i.else_block.unwrap().statements@[j] matches Statement::Declaration(d) && d.type_decl matches Some(
            TypeExpression::Named(n),
        ) && scopes_lookup(types, n.ident.token.text@) is None,
    ensures
        i.else_block.unwrap().statements@[j] matches Statement::Declaration(d) && d.type_decl matches Some(
            TypeExpression::Named(n),
        ) && stmt_type_errors(types, Statement::IfBlock(i)).contains(
            error_view(n.ident.token@, Seq::empty(), "Unknown type "@ + n.ident.token.text@),
        ),
{
    let b = i.else_block.unwrap();
    let sts = b.statements@;
    if let Statement::Declaration(d) = sts[j] {
        if let Some(TypeExpression::Named(n)) = d.type_decl {
            let e = error_view(n.ident.token@, Seq::empty(), "Unknown type "@ + n.ident.token.text@);
            assert(stmt_type_errors(types, sts[j])[0] == e);
            lemma_stmts_report_declaration(types, sts, j, e);
            let conds = conds_type_errors(types, i.conditionals@);
            let rest = stmts_type_errors(types, sts);
            assert(stmt_type_errors(types, Statement::IfBlock(i)) == conds + rest);
            let k = choose|k: int| 0 <= k < rest.len() && rest[k] == e;
            assert((conds + rest)[conds.len() + k] == e);
        }
    }
}

proof fn lemma_concat_contains(a: Seq<ErrorView>, b: Seq<ErrorView>, e: ErrorView)
    ensures
        a.contains(e) ==> (a + b).contains(e),
        b.contains(e) ==> (a + b).contains(e),
{
    if a.contains(e) {
        let k = choose|k: int| 0 <= k < a.len() && a[k] == e;
        assert((a + b)[k] == e);
    }
    if b.contains(e) {
        let k = choose|k: int| 0 <= k < b.len() && b[k] == e;
        assert((a + b)[a.len() + k] == e);
    }
}

proof fn lemma_conds_report(types: Seq<ScopeView<Seq<usize>>>, cs: Seq<Conditional>, k: int, e: ErrorView)
    requires
        0 <= k < cs.len(),
        stmts_type_errors(types, cs[k].block.statements@).contains(e),
    ensures
        conds_type_errors(types, cs).contains(e),
    decreases cs.len(),
{
    if k < cs.len() - 1 {
        assert(cs.drop_last()[k] == cs[k]);
        lemma_conds_report(types, cs.drop_last(), k, e);
    }
    lemma_concat_contains(conds_type_errors(types, cs.drop_last()), stmts_type_errors(types, cs.last().block.statements@), e);
}

/// The type name of a declaration that `types` does not know, if `st` is
/// such a declaration.
pub open spec fn unknown_declared_type(types: Seq<ScopeView<Seq<usize>>>, st: Statement) -> Option<Identifier> {
    match st {
        Statement::Declaration(d) => match d.type_decl {
            Some(TypeExpression::Named(n)) => if scopes_lookup(types, n.ident.token.text@) is None {
                Some(n.ident)
            } else {
                None
            },
            _ => None,
        },
        _ => None,
    }
}

proof fn lemma_unknown_declared(types: Seq<ScopeView<Seq<usize>>>, sts: Seq<Statement>, j: int)
    requires
        0 <= j < sts.len(),
        unknown_declared_type(types, sts[j]) is Some,
    ensures
        stmts_type_errors(types, sts).contains(
            error_view(
                unknown_declared_type(types, sts[j]).unwrap().token@,
                Seq::empty(),
                "Unknown type "@ + unknown_declared_type(types, sts[j]).unwrap().token.text@,
            ),
        ),
{
    let n = unknown_declared_type(types, sts[j]).unwrap();
    let e = error_view(n.token@, Seq::empty(), "Unknown type "@ + n.token.text@);
    assert(stmt_type_errors(types, sts[j])[0] == e);
    lemma_stmts_report_declaration(types, sts, j, e);
}

/// Every declaration written directly in the block of one of an `if`
/// block's conditionals whose type is a name that `types` does not know is
/// reported as "Unknown type <name>" at the name.
pub proof fn law_conditional_declarations_are_named(types: Seq<ScopeView<Seq<usize>>>, i: IfBlock, k: int, j: int)
    requires
        0 <= k < i.conditionals@.len(),
        0 <= j < i.conditionals@[k].block.statements@.len(),
        unknown_declared_type(types, i.conditionals@[k].block.statements@[j]) is Some,
    ensures
        stmt_type_errors(types, Statement::IfBlock(i)).contains(
            error_view(
                unknown_declared_type(types, i.conditionals@[k].block.statements@[j]).unwrap().token@,
                Seq::empty(),
                "Unknown type "@ + unknown_declared_type(types, i.conditionals@[k].block.statements@[j]).unwrap().token.text@,
            ),
        ),
{
    let sts = i.conditionals@[k].block.statements@;
    let n = unknown_declared_type(types, sts[j]).unwrap();
    let e = error_view(n.token@, Seq::empty(), "Unknown type "@ + n.token.text@);
    lemma_unknown_declared(types, sts, j);
    lemma_conds_report(types, i.conditionals@, k, e);
    let rest = match i.else_block {
        Some(b) => stmts_type_errors(types, b.statements@),
        None => Seq::empty(),
    };
    lemma_concat_contains(conds_type_errors(types, i.conditionals@), rest, e);
}

/// Every declaration written directly in a `do` block whose type is a name
/// that `types` does not know is reported as "Unknown type <name>" at the
/// name.
pub proof fn law_do_block_declarations_are_named(types: Seq<ScopeView<Seq<usize>>>, d: DoBlock, j: int)
    requires
        0 <= j < d.block.statements@.len(),
        unknown_declared_type(types, d.block.statements@[j]) is Some,
    ensures
        stmt_type_errors(types, Statement::DoBlock(d)).contains(
            error_view(
                unknown_declared_type(types, d.block.statements@[j]).unwrap().token@,
                Seq::empty(),
                "Unknown type "@ + unknown_declared_type(types, d.block.statements@[j]).unwrap().token.text@,
            ),
        ),
{
    lemma_unknown_declared(types, d.block.statements@, j);
}

} // verus!
