//! Properties that hold of every run of the symbol checker.

use vstd::prelude::*;

use crate::ast::{Expression, CallArgument, Statement, Block, Conditional, DoBlock, Identifier, IfBlock, TypeExpression, BlockFnDeclaration, Item, Unit};
use crate::check::errors::{ErrorView, error_view};
use crate::check::assoc::{find_key, assoc_set, assoc_contains, lemma_find_key, lemma_find_key_is, lemma_find_key_none, lemma_assoc_set};
use crate::check::lint::usage_checker::only_mutables_mutated;
use crate::check::symbol::checking::{CheckState, ids_declared, lookup, symbol_at, declare, enter_block, leave_block, check_lvalue, check_call_arity, check_expr, check_args, fn_params, check_stmt, check_stmts, check_block, check_conditionals, check_params, check_fn_name, declare_fn, check_fn_decl, check_items, check_unit, check_var_ref, check_arg_name};
use crate::check::symbol::symbol::{SymbolView, variable_symbol, parameter_symbol, function_symbol};
use crate::check::symbol::table::{TableView, table_mark_used, table_mark_mutated};
use crate::check::symbol::table_builder::{ScopeView, scopes_lookup};
use crate::check::types::types::TypeView;
use crate::lex::TokenView;

verus! {

/// What every state of the checker keeps: names in scope have symbols, and
/// only mutable symbols are marked mutated.
pub open spec fn checker_inv(s: CheckState) -> bool {
    ids_declared(s) && only_mutables_mutated(s.table)
}

/// Two lists with the same keys in the same places find every key at the
/// same place.
proof fn lemma_same_keys<K, V>(t1: Seq<(K, V)>, t2: Seq<(K, V)>)
    requires
        t1.len() == t2.len(),
        forall|j: int| 0 <= j < t1.len() ==> t1[j].0 == t2[j].0,
    ensures
        forall|k: K| find_key(t1, k) == find_key(t2, k),
{
    assert forall|k: K| find_key(t1, k) == find_key(t2, k) by {
        lemma_find_key(t1, k);
        match find_key(t1, k) {
            Some(j) => lemma_find_key_is(t2, k, j),
            None => lemma_find_key_none(t2, k),
        }
    }
}

/// Marking a symbol used keeps the invariant.
proof fn lemma_mark_used(s: CheckState, id: Seq<usize>)
    requires
        checker_inv(s),
    ensures
        checker_inv(CheckState { table: table_mark_used(s.table, id), ..s }),
{
    let t = s.table;
    let t2 = table_mark_used(t, id);
    lemma_find_key(t, id);
    lemma_same_keys(t, t2);
    assert forall|x: Seq<usize>| assoc_contains(t, x) implies assoc_contains(t2, x) by {
        assert(find_key(t, x) == find_key(t2, x));
    }
}

/// Marking a mutable symbol mutated keeps the invariant.
proof fn lemma_mark_mutated(s: CheckState, id: Seq<usize>)
    requires
        checker_inv(s),
        symbol_at(s, id) matches Some(sym) && sym.mutable,
    ensures
        checker_inv(CheckState { table: table_mark_mutated(s.table, id), ..s }),
{
    let t = s.table;
    let t2 = table_mark_mutated(t, id);
    lemma_find_key(t, id);
    lemma_same_keys(t, t2);
    assert forall|x: Seq<usize>| assoc_contains(t, x) implies assoc_contains(t2, x) by {
        assert(find_key(t, x) == find_key(t2, x));
    }
}

/// Setting a table entry to a symbol that is not mutated keeps old keys
/// and only-mutables-mutated.
proof fn lemma_table_set(t: TableView, k: Seq<usize>, sym: SymbolView)
    requires
        only_mutables_mutated(t),
        !sym.mutated,
    ensures
        only_mutables_mutated(assoc_set(t, k, sym)),
        assoc_contains(assoc_set(t, k, sym), k),
        forall|x: Seq<usize>| assoc_contains(t, x) ==> assoc_contains(#[trigger] assoc_set(t, k, sym), x),
{
    lemma_assoc_set(t, k, sym);
    lemma_find_key(t, k);
    let t2 = assoc_set(t, k, sym);
    assert forall|i: int| 0 <= i < t2.len() && #[trigger] t2[i].1.mutated implies t2[i].1.mutable by {
        if i < t.len() {
            assert(t[i].1.mutated ==> t[i].1.mutable);
        }
    }
}

/// Every value of a list with a key set is the set value or a value of the
/// old list.
proof fn lemma_set_values<V>(sc: ScopeView<V>, name: Seq<char>, v: V, j: int)
    requires
        0 <= j < assoc_set(sc, name, v).len(),
    ensures
        assoc_set(sc, name, v)[j].1 == v || (j < sc.len() && assoc_set(sc, name, v)[j].1 == sc[j].1),
{
    lemma_find_key(sc, name);
}

/// Declaring a name with a symbol that is not mutated keeps the invariant.
proof fn lemma_declare(s: CheckState, name: Seq<char>, sym: SymbolView)
    requires
        checker_inv(s),
        s.scopes.len() >= 1,
        !sym.mutated,
    ensures
        checker_inv(declare(s, name, sym)),
{
    let s2 = declare(s, name, sym);
    lemma_table_set(s.table, s.index, sym);
    assert forall|i: int, j: int| 0 <= i < s2.scopes.len() && 0 <= j < s2.scopes[i].len() implies assoc_contains(
        s2.table,
        #[trigger] s2.scopes[i][j].1,
    ) by {
        if i < s.scopes.len() - 1 {
            assert(s2.scopes[i] == s.scopes[i]);
            assert(assoc_contains(s.table, s.scopes[i][j].1));
        } else {
            lemma_set_values(s.scopes.last(), name, s.index, j);
            if s2.scopes[i][j].1 != s.index {
                assert(assoc_contains(s.table, s.scopes[i][j].1));
            }
        }
    }
}

/// Declaring a function globally keeps the invariant.
proof fn lemma_declare_fn(s: CheckState, f: BlockFnDeclaration, fn_index: Seq<usize>)
    requires
        checker_inv(s),
        s.scopes.len() >= 1,
    ensures
        checker_inv(declare_fn(s, f, fn_index)),
{
    let s2 = declare_fn(s, f, fn_index);
    let sym = function_symbol(f.ident.token@, f.params@);
    lemma_table_set(s.table, fn_index, sym);
    assert forall|i: int, j: int| 0 <= i < s2.scopes.len() && 0 <= j < s2.scopes[i].len() implies assoc_contains(
        s2.table,
        #[trigger] s2.scopes[i][j].1,
    ) by {
        if i > 0 {
            assert(s2.scopes[i] == s.scopes[i]);
            assert(assoc_contains(s.table, s.scopes[i][j].1));
        } else {
            lemma_set_values(s.scopes[0], f.ident.token.text@, fn_index, j);
            if s2.scopes[i][j].1 != fn_index {
                assert(assoc_contains(s.table, s.scopes[i][j].1));
            }
        }
    }
}

/// Entering and leaving blocks keeps the invariant.
proof fn lemma_enter_leave(s: CheckState)
    requires
        checker_inv(s),
    ensures
        checker_inv(enter_block(s)),
        s.scopes.len() >= 1 ==> checker_inv(leave_block(s)),
        checker_inv(CheckState { scopes: s.scopes.push(Seq::empty()), ..s }),
{
    let s1 = enter_block(s);
    assert forall|i: int, j: int| 0 <= i < s1.scopes.len() && 0 <= j < s1.scopes[i].len() implies assoc_contains(
        s1.table,
        #[trigger] s1.scopes[i][j].1,
    ) by {
        assert(i < s.scopes.len());
        assert(s1.scopes[i] == s.scopes[i]);
    }
    let s2 = leave_block(s);
    if s.scopes.len() >= 1 {
        assert forall|i: int, j: int| 0 <= i < s2.scopes.len() && 0 <= j < s2.scopes[i].len() implies assoc_contains(
            s2.table,
            #[trigger] s2.scopes[i][j].1,
        ) by {
            assert(s2.scopes[i] == s.scopes[i]);
        }
    }
    let s3 = CheckState { scopes: s.scopes.push(Seq::empty()), ..s };
    assert forall|i: int, j: int| 0 <= i < s3.scopes.len() && 0 <= j < s3.scopes[i].len() implies assoc_contains(
        s3.table,
        #[trigger] s3.scopes[i][j].1,
    ) by {
        assert(i < s.scopes.len());
        assert(s3.scopes[i] == s.scopes[i]);
    }
}

/// Checking an expression keeps the invariant.
proof fn lemma_expr(s: CheckState, e: Expression)
    requires
        checker_inv(s),
    ensures
        checker_inv(check_expr(s, e)),
    decreases e,
{
    match e {
        Expression::Literal(_) => {},
        Expression::VariableRef(ident) => {
            if let Some(id) = lookup(s, ident.token.text@) {
                lemma_mark_used(s, id);
            }
        },
        Expression::BinaryOp(b) => {
            lemma_expr(s, *b.left);
            lemma_expr(check_expr(s, *b.left), *b.right);
        },
        Expression::UnaryOp(u) => lemma_expr(s, *u.expression),
        Expression::IfExpression(i) => {
            lemma_expr(s, *i.condition);
            lemma_expr(check_expr(s, *i.condition), *i.true_expr);
            lemma_expr(check_expr(check_expr(s, *i.condition), *i.true_expr), *i.else_expr);
        },
        Expression::Assignment(a) => {
            let s1 = check_lvalue(s, a.lvalue);
            if let Some(id) = lookup(s, a.lvalue.token.text@) {
                if let Some(sym) = symbol_at(s, id) {
                    if sym.mutable {
                        lemma_mark_mutated(s, id);
                    }
                }
            }
            lemma_expr(s1, *a.rvalue);
        },
        Expression::FnCall(f) => {
            if let Some(id) = lookup(s, f.lvalue.token.text@) {
                let s1 = match symbol_at(s, id) {
                    Some(sym) => if sym.ty is Fn {
                        let sa = check_call_arity(s, f.lvalue, sym, f.args@.len());
                        lemma_args(sa, f.lvalue.token@, fn_params(sym.ty), f.args@);
                        check_args(sa, f.lvalue.token@, fn_params(sym.ty), f.args@)
                    } else {
                        s
                    },
                    None => s,
                };
                lemma_mark_used(s1, id);
            }
        },
    }
}

/// Checking call arguments keeps the invariant.
proof fn lemma_args(s: CheckState, callee: TokenView, params: Seq<(Seq<char>, TypeView)>, args: Seq<CallArgument>)
    requires
        checker_inv(s),
    ensures
        checker_inv(check_args(s, callee, params, args)),
    decreases args,
{
    if args.len() > 0 {
        lemma_args(s, callee, params, args.drop_last());
        lemma_expr(check_args(s, callee, params, args.drop_last()), args.last().value);
    }
}

/// Checking a statement keeps the invariant.
proof fn lemma_stmt(s: CheckState, st: Statement)
    requires
        checker_inv(s),
        s.scopes.len() >= 1,
    ensures
        checker_inv(check_stmt(s, st)),
        check_stmt(s, st).scopes.len() == s.scopes.len(),
    decreases st,
{
    match st {
        Statement::Expression(e) => {
            lemma_expr(s, e);
            lemma_expr_scopes(s, e);
        },
        Statement::Return(r) => {
            if let Some(v) = r.value {
                lemma_expr(s, *v);
                lemma_expr_scopes(s, *v);
            }
        },
        Statement::Declaration(d) => {
            lemma_expr(s, *d.value);
            lemma_expr_scopes(s, *d.value);
            let s1 = check_expr(s, *d.value);
            if lookup(s1, d.ident.token.text@) is None {
                lemma_declare(s1, d.ident.token.text@, variable_symbol(d.ident.token@, d.mutable));
            }
        },
        Statement::DoBlock(d) => lemma_block(s, *d.block),
        Statement::IfBlock(i) => {
            lemma_conds(s, i.conditionals@);
            if let Some(b) = i.else_block {
                lemma_block(check_conditionals(s, i.conditionals@), b);
            }
        },
    }
}

/// Checking an expression changes no scope.
proof fn lemma_expr_scopes(s: CheckState, e: Expression)
    ensures
        check_expr(s, e).scopes == s.scopes,
    decreases e,
{
    match e {
        Expression::Literal(_) => {},
        Expression::VariableRef(_) => {},
        Expression::BinaryOp(b) => {
            lemma_expr_scopes(s, *b.left);
            lemma_expr_scopes(check_expr(s, *b.left), *b.right);
        },
        Expression::UnaryOp(u) => lemma_expr_scopes(s, *u.expression),
        Expression::IfExpression(i) => {
            lemma_expr_scopes(s, *i.condition);
            lemma_expr_scopes(check_expr(s, *i.condition), *i.true_expr);
            lemma_expr_scopes(check_expr(check_expr(s, *i.condition), *i.true_expr), *i.else_expr);
        },
        Expression::Assignment(a) => lemma_expr_scopes(check_lvalue(s, a.lvalue), *a.rvalue),
        Expression::FnCall(f) => {
            if let Some(id) = lookup(s, f.lvalue.token.text@) {
                if let Some(sym) = symbol_at(s, id) {
                    if sym.ty is Fn {
                        lemma_args_scopes(check_call_arity(s, f.lvalue, sym, f.args@.len()), f.lvalue.token@, fn_params(sym.ty), f.args@);
                    }
                }
            }
        },
    }
}

/// Checking call arguments changes no scope.
proof fn lemma_args_scopes(s: CheckState, callee: TokenView, params: Seq<(Seq<char>, TypeView)>, args: Seq<CallArgument>)
    ensures
        check_args(s, callee, params, args).scopes == s.scopes,
    decreases args,
{
    if args.len() > 0 {
        lemma_args_scopes(s, callee, params, args.drop_last());
        lemma_expr_scopes(check_args(s, callee, params, args.drop_last()), args.last().value);
    }
}

/// Checking statements keeps the invariant.
proof fn lemma_stmts(s: CheckState, sts: Seq<Statement>)
    requires
        checker_inv(s),
        s.scopes.len() >= 1,
    ensures
        checker_inv(check_stmts(s, sts)),
        check_stmts(s, sts).scopes.len() == s.scopes.len(),
    decreases sts,
{
    if sts.len() > 0 {
        lemma_stmts(s, sts.drop_last());
        lemma_stmt(check_stmts(s, sts.drop_last()), sts.last());
    }
}

/// Checking a block keeps the invariant.
proof fn lemma_block(s: CheckState, b: Block)
    requires
        checker_inv(s),
        s.scopes.len() >= 1,
    ensures
        checker_inv(check_block(s, b)),
        check_block(s, b).scopes.len() == s.scopes.len(),
    decreases b,
{
    lemma_enter_leave(s);
    lemma_stmts(enter_block(s), b.statements@);
    lemma_enter_leave(check_stmts(enter_block(s), b.statements@));
}

/// Checking conditionals keeps the invariant.
proof fn lemma_conds(s: CheckState, cs: Seq<Conditional>)
    requires
        checker_inv(s),
        s.scopes.len() >= 1,
    ensures
        checker_inv(check_conditionals(s, cs)),
        check_conditionals(s, cs).scopes.len() == s.scopes.len(),
    decreases cs,
{
    if cs.len() > 0 {
        lemma_conds(s, cs.drop_last());
        let s1 = check_conditionals(s, cs.drop_last());
        lemma_expr(s1, cs.last().condition);
        lemma_expr_scopes(s1, cs.last().condition);
        lemma_block(check_expr(s1, cs.last().condition), cs.last().block);
    }
}

/// Checking parameters keeps the invariant.
proof fn lemma_params(s: CheckState, ps: Seq<(Identifier, TypeExpression)>)
    requires
        checker_inv(s),
        s.scopes.len() >= 1,
    ensures
        checker_inv(check_params(s, ps)),
        check_params(s, ps).scopes.len() == s.scopes.len(),
    decreases ps.len(),
{
    if ps.len() > 0 {
        lemma_params(s, ps.drop_last());
        let s1 = check_params(s, ps.drop_last());
        let p = ps.last().0;
        if lookup(s1, p.token.text@) is None {
            lemma_declare(s1, p.token.text@, parameter_symbol(p.token@));
        }
    }
}

/// Checking a function declaration keeps the invariant.
proof fn lemma_fn(s: CheckState, f: BlockFnDeclaration)
    requires
        checker_inv(s),
        s.scopes.len() >= 1,
    ensures
        checker_inv(check_fn_decl(s, f)),
        check_fn_decl(s, f).scopes.len() == s.scopes.len(),
{
    let s1 = check_fn_name(s, f);
    lemma_enter_leave(s1);
    lemma_params(enter_block(s1), f.params@);
    let s2 = check_params(enter_block(s1), f.params@);
    lemma_declare_fn(s2, f, s1.index);
    let s3 = declare_fn(s2, f, s1.index);
    lemma_stmts(s3, f.block.statements@);
    lemma_enter_leave(check_stmts(s3, f.block.statements@));
}

/// Checking items keeps the invariant.
proof fn lemma_items(s: CheckState, items: Seq<Item>)
    requires
        checker_inv(s),
        s.scopes.len() >= 1,
    ensures
        checker_inv(check_items(s, items)),
        check_items(s, items).scopes.len() == s.scopes.len(),
    decreases items.len(),
{
    if items.len() > 0 {
        lemma_items(s, items.drop_last());
        if let Item::BlockFnDeclaration(f) = items.last() {
            lemma_fn(check_items(s, items.drop_last()), f);
        }
    }
}

/// Checking a unit keeps every name in scope backed by a symbol of the
/// table, so that no lookup of a declared name's symbol ever misses; and it
/// marks only mutable symbols as mutated.
pub proof fn law_check_unit_keeps_invariant(s: CheckState, u: Unit)
    requires
        checker_inv(s),
    ensures
        checker_inv(check_unit(s, u)),
{
    lemma_enter_leave(s);
    lemma_items(CheckState { scopes: s.scopes.push(Seq::empty()), ..s }, u.items@);
}

/// Checking a block keeps every name in scope backed by a symbol of the
/// table, and marks only mutable symbols as mutated.
pub proof fn law_check_block_keeps_invariant(s: CheckState, b: Block)
    requires
        checker_inv(s),
        s.scopes.len() >= 1,
    ensures
        checker_inv(check_block(s, b)),
{
    lemma_block(s, b);
}

/// Every error of `s0` stands at the same place in `s1`.
pub open spec fn errors_kept(s0: CheckState, s1: CheckState) -> bool {
    &&& s0.collector.errors.len() <= s1.collector.errors.len()
    &&& forall|k: int| 0 <= k < s0.collector.errors.len() ==> #[trigger] s1.collector.errors[k] == s0.collector.errors[k]
}

proof fn lemma_expr_errs(s: CheckState, e: Expression)
    ensures
        errors_kept(s, check_expr(s, e)),
    decreases e,
{
    match e {
        Expression::BinaryOp(b) => {
            lemma_expr_errs(s, *b.left);
            lemma_expr_errs(check_expr(s, *b.left), *b.right);
        },
        Expression::UnaryOp(u) => lemma_expr_errs(s, *u.expression),
        Expression::IfExpression(i) => {
            lemma_expr_errs(s, *i.condition);
            lemma_expr_errs(check_expr(s, *i.condition), *i.true_expr);
            lemma_expr_errs(check_expr(check_expr(s, *i.condition), *i.true_expr), *i.else_expr);
        },
        Expression::Assignment(a) => lemma_expr_errs(check_lvalue(s, a.lvalue), *a.rvalue),
        Expression::FnCall(f) => {
            if let Some(id) = lookup(s, f.lvalue.token.text@) {
                if let Some(sym) = symbol_at(s, id) {
                    if sym.ty is Fn {
                        lemma_args_errs(check_call_arity(s, f.lvalue, sym, f.args@.len()), f.lvalue.token@, fn_params(sym.ty), f.args@);
                    }
                }
            }
        },
        _ => {},
    }
}

proof fn lemma_args_errs(s: CheckState, callee: TokenView, params: Seq<(Seq<char>, TypeView)>, args: Seq<CallArgument>)
    ensures
        errors_kept(s, check_args(s, callee, params, args)),
    decreases args,
{
    if args.len() > 0 {
        lemma_args_errs(s, callee, params, args.drop_last());
        lemma_expr_errs(check_args(s, callee, params, args.drop_last()), args.last().value);
    }
}

proof fn lemma_stmt_errs(s: CheckState, st: Statement)
    requires
        s.scopes.len() >= 1,
    ensures
        errors_kept(s, check_stmt(s, st)),
        check_stmt(s, st).scopes.len() == s.scopes.len(),
        check_stmt(s, st).scopes.drop_last() == s.scopes.drop_last(),
    decreases st,
{
    match st {
        Statement::Expression(e) => {
            lemma_expr_errs(s, e);
            lemma_expr_scopes(s, e);
        },
        Statement::Return(r) => {
            if let Some(v) = r.value {
                lemma_expr_errs(s, *v);
                lemma_expr_scopes(s, *v);
            }
        },
        Statement::Declaration(d) => {
            lemma_expr_errs(s, *d.value);
            lemma_expr_scopes(s, *d.value);
            let s1 = check_expr(s, *d.value);
            let s2 = check_stmt(s, st);
            if lookup(s1, d.ident.token.text@) is None {
                assert(s2.scopes.drop_last() =~= s.scopes.drop_last());
            }
        },
        Statement::DoBlock(d) => lemma_block_errs(s, *d.block),
        Statement::IfBlock(i) => {
            lemma_conds_errs(s, i.conditionals@);
            if let Some(b) = i.else_block {
                lemma_block_errs(check_conditionals(s, i.conditionals@), b);
            }
        },
    }
}

proof fn lemma_stmts_errs(s: CheckState, sts: Seq<Statement>)
    requires
        s.scopes.len() >= 1,
    ensures
        errors_kept(s, check_stmts(s, sts)),
        check_stmts(s, sts).scopes.len() == s.scopes.len(),
        check_stmts(s, sts).scopes.drop_last() == s.scopes.drop_last(),
    decreases sts,
{
    if sts.len() > 0 {
        lemma_stmts_errs(s, sts.drop_last());
        lemma_stmt_errs(check_stmts(s, sts.drop_last()), sts.last());
    }
}

proof fn lemma_block_errs(s: CheckState, b: Block)
    requires
        s.scopes.len() >= 1,
    ensures
        errors_kept(s, check_block(s, b)),
        check_block(s, b).scopes == s.scopes,
    decreases b,
{
    let e = enter_block(s);
    lemma_stmts_errs(e, b.statements@);
    assert(e.scopes.drop_last() =~= s.scopes);
}

proof fn lemma_conds_errs(s: CheckState, cs: Seq<Conditional>)
    requires
        s.scopes.len() >= 1,
    ensures
        errors_kept(s, check_conditionals(s, cs)),
        check_conditionals(s, cs).scopes == s.scopes,
    decreases cs,
{
    if cs.len() > 0 {
        lemma_conds_errs(s, cs.drop_last());
        let s1 = check_conditionals(s, cs.drop_last());
        lemma_expr_errs(s1, cs.last().condition);
        lemma_expr_scopes(s1, cs.last().condition);
        lemma_block_errs(check_expr(s1, cs.last().condition), cs.last().block);
    }
}

/// Checking the statements after the first `k` keeps their errors.
proof fn lemma_stmts_take_errs(s: CheckState, sts: Seq<Statement>, k: int)
    requires
        s.scopes.len() >= 1,
        0 <= k <= sts.len(),
    ensures
        errors_kept(check_stmts(s, sts.take(k)), check_stmts(s, sts)),
    decreases sts.len() - k,
{
    if k < sts.len() {
        lemma_stmts_take_errs(s, sts, k + 1);
        assert(sts.take(k + 1).drop_last() =~= sts.take(k));
        assert(sts.take(k + 1).last() == sts[k]);
        lemma_stmts_errs(s, sts.take(k));
        lemma_stmt_errs(check_stmts(s, sts.take(k)), sts[k]);
    } else {
        assert(sts.take(k) =~= sts);
    }
}

/// Checking the conditionals after the first `k` keeps their errors.
proof fn lemma_conds_take_errs(s: CheckState, cs: Seq<Conditional>, k: int)
    requires
        s.scopes.len() >= 1,
        0 <= k <= cs.len(),
    ensures
        errors_kept(check_conditionals(s, cs.take(k)), check_conditionals(s, cs)),
    decreases cs.len() - k,
{
    if k < cs.len() {
        lemma_conds_take_errs(s, cs, k + 1);
        assert(cs.take(k + 1).drop_last() =~= cs.take(k));
        assert(cs.take(k + 1).last() == cs[k]);
        let s1 = check_conditionals(s, cs.take(k));
        lemma_conds_errs(s, cs.take(k));
        lemma_expr_errs(s1, cs[k].condition);
        lemma_expr_scopes(s1, cs[k].condition);
        lemma_block_errs(check_expr(s1, cs[k].condition), cs[k].block);
    } else {
        assert(cs.take(k) =~= cs);
    }
}

/// An error that stands in `s0` still stands in any state that keeps its
/// errors.
proof fn lemma_kept_contains(s0: CheckState, s1: CheckState, err: ErrorView)
    requires
        errors_kept(s0, s1),
        s0.collector.errors.contains(err),
    ensures
        s1.collector.errors.contains(err),
{
    let m = choose|m: int| 0 <= m < s0.collector.errors.len() && s0.collector.errors[m] == err;
    assert(s1.collector.errors[m] == err);
}

/// A variable read at the start of a block, whose name is declared in no
/// enclosing scope, is reported as not declared by checking the block.
proof fn lemma_block_first_read(s: CheckState, b: Block, y: Identifier)
    requires
        s.scopes.len() >= 1,
        b.statements@.len() > 0,
        b.statements@[0] == Statement::Expression(Expression::VariableRef(y)),
        lookup(s, y.token.text@) is None,
    ensures
        check_block(s, b).collector.errors.contains(
            error_view(y.token@, seq![], "Variable "@ + y.token.text@ + " was not declared"@),
        ),
{
    let sts = b.statements@;
    let e = enter_block(s);
    let name = y.token.text@;
    lemma_find_key_none(Seq::<(Seq<char>, Seq<usize>)>::empty(), name);
    assert(e.scopes.last() == Seq::<(Seq<char>, Seq<usize>)>::empty());
    assert(e.scopes.drop_last() =~= s.scopes);
    assert(lookup(e, name) is None);
    let err = error_view(y.token@, seq![], "Variable "@ + name + " was not declared"@);
    let first = check_var_ref(e, y);
    assert(first.collector.errors[e.collector.errors.len() as int] == err);
    assert(sts.take(1).drop_last() =~= sts.take(0));
    assert(sts.take(0) =~= Seq::<Statement>::empty());
    assert(sts.take(1).last() == sts[0]);
    assert(check_stmts(e, sts.take(0)) == e);
    assert(check_expr(e, Expression::VariableRef(y)) == first);
    assert(check_stmt(e, sts[0]) == first);
    assert(check_stmts(e, sts.take(1)) == check_stmt(check_stmts(e, sts.take(0)), sts[0]));
    assert(check_stmts(e, sts.take(1)) == first);
    lemma_stmts_take_errs(e, sts, 1);
    let fin = check_stmts(e, sts);
    assert(fin.collector.errors[e.collector.errors.len() as int] == err);
    assert(check_block(s, b) == leave_block(fin));
}

/// A variable read at the start of an `if` block's `else` block is looked
/// up there: where its name is declared in no enclosing scope, checking
/// the `if` block reports "Variable <name> was not declared" at it,
/// whatever the conditionals and the rest of the `else` block hold.
pub proof fn law_else_reads_are_checked(s: CheckState, i: IfBlock, y: Identifier)
    requires
        s.scopes.len() >= 1,
        i.else_block is Some,
        i.else_block.unwrap().statements@.len() > 0,
        i.else_block.unwrap().statements@[0] == Statement::Expression(Expression::VariableRef(y)),
        lookup(s, y.token.text@) is None,
    ensures
        check_stmt(s, Statement::IfBlock(i)).collector.errors.contains(
            error_view(y.token@, seq![], "Variable "@ + y.token.text@ + " was not declared"@),
        ),
{
    let s1 = check_conditionals(s, i.conditionals@);
    lemma_conds_errs(s, i.conditionals@);
    lemma_block_first_read(s1, i.else_block.unwrap(), y);
}

/// A variable read at the start of the block of one of an `if` block's
/// conditionals is looked up there: where its name is declared in no
/// enclosing scope, checking the `if` block reports "Variable <name> was
/// not declared" at it, whatever the other conditionals and the `else`
/// block hold.
pub proof fn law_conditional_reads_are_checked(s: CheckState, i: IfBlock, k: int, y: Identifier)
    requires
        s.scopes.len() >= 1,
        0 <= k < i.conditionals@.len(),
        i.conditionals@[k].block.statements@.len() > 0,
        i.conditionals@[k].block.statements@[0] == Statement::Expression(Expression::VariableRef(y)),
        lookup(s, y.token.text@) is None,
    ensures
        check_stmt(s, Statement::IfBlock(i)).collector.errors.contains(
            error_view(y.token@, seq![], "Variable "@ + y.token.text@ + " was not declared"@),
        ),
{
    let cs = i.conditionals@;
    let err = error_view(y.token@, seq![], "Variable "@ + y.token.text@ + " was not declared"@);
    let sk = check_conditionals(s, cs.take(k));
    lemma_conds_errs(s, cs.take(k));
    lemma_expr_scopes(sk, cs[k].condition);
    let se = check_expr(sk, cs[k].condition);
    lemma_block_first_read(se, cs[k].block, y);
    assert(cs.take(k + 1).drop_last() =~= cs.take(k));
    assert(cs.take(k + 1).last() == cs[k]);
    assert(check_conditionals(s, cs.take(k + 1)) == check_block(se, cs[k].block));
    lemma_conds_take_errs(s, cs, k + 1);
    let s1 = check_conditionals(s, cs);
    lemma_kept_contains(check_block(se, cs[k].block), s1, err);
    lemma_conds_errs(s, cs);
    if let Some(b) = i.else_block {
        lemma_block_errs(s1, b);
        lemma_kept_contains(s1, check_block(s1, b), err);
    }
}

/// A variable read at the start of a `do` block is looked up there: where
/// its name is declared in no enclosing scope, checking the `do` block
/// reports "Variable <name> was not declared" at it.
pub proof fn law_do_block_reads_are_checked(s: CheckState, d: DoBlock, y: Identifier)
    requires
        s.scopes.len() >= 1,
        d.block.statements@.len() > 0,
        d.block.statements@[0] == Statement::Expression(Expression::VariableRef(y)),
        lookup(s, y.token.text@) is None,
    ensures
        check_stmt(s, Statement::DoBlock(d)).collector.errors.contains(
            error_view(y.token@, seq![], "Variable "@ + y.token.text@ + " was not declared"@),
        ),
{
    lemma_block_first_read(s, *d.block, y);
}

/// A name found in a stack of scopes is the entry of one of its scopes.
proof fn lemma_lookup_in_scopes(scopes: Seq<ScopeView<Seq<usize>>>, name: Seq<char>)
    requires
        scopes_lookup(scopes, name) is Some,
    ensures
        exists|i: int, j: int|
            0 <= i < scopes.len() && 0 <= j < scopes[i].len() && #[trigger] scopes[i][j].1 == scopes_lookup(
                scopes,
                name,
            ).unwrap(),
    decreases scopes.len(),
{
    let last = scopes.last();
    lemma_find_key(last, name);
    match find_key(last, name) {
        Some(j) => {
            assert(scopes[scopes.len() - 1][j].1 == scopes_lookup(scopes, name).unwrap());
        },
        None => {
            let rest = scopes.drop_last();
            lemma_lookup_in_scopes(rest, name);
            let (i, j) = choose|i: int, j: int|
                0 <= i < rest.len() && 0 <= j < rest[i].len() && #[trigger] rest[i][j].1 == scopes_lookup(
                    rest,
                    name,
                ).unwrap();
            assert(scopes[i][j].1 == scopes_lookup(scopes, name).unwrap());
        },
    }
}

/// A variable declared in an enclosing scope and read as the whole `else`
/// block of an `if` block is resolved to its symbol: after checking the
/// `if` block that symbol is marked used, whatever the conditionals hold.
pub proof fn law_else_reads_mark_used(s: CheckState, i: IfBlock, y: Identifier)
    requires
        checker_inv(s),
        s.scopes.len() >= 1,
        i.else_block is Some,
        i.else_block.unwrap().statements@ == seq![Statement::Expression(Expression::VariableRef(y))],
        lookup(s, y.token.text@) is Some,
    ensures
        symbol_at(check_stmt(s, Statement::IfBlock(i)), lookup(s, y.token.text@).unwrap()) matches Some(sym)
            && sym.used,
{
    let name = y.token.text@;
    let id = lookup(s, name).unwrap();
    let b = i.else_block.unwrap();
    let sts = b.statements@;
    let s1 = check_conditionals(s, i.conditionals@);
    lemma_conds(s, i.conditionals@);
    lemma_conds_errs(s, i.conditionals@);
    lemma_lookup_in_scopes(s1.scopes, name);
    let (a, c) = choose|a: int, c: int|
        0 <= a < s1.scopes.len() && 0 <= c < s1.scopes[a].len() && #[trigger] s1.scopes[a][c].1 == scopes_lookup(
            s1.scopes,
            name,
        ).unwrap();
    assert(assoc_contains(s1.table, s1.scopes[a][c].1));
    let e = enter_block(s1);
    lemma_find_key_none(Seq::<(Seq<char>, Seq<usize>)>::empty(), name);
    assert(e.scopes.last() == Seq::<(Seq<char>, Seq<usize>)>::empty());
    assert(e.scopes.drop_last() =~= s1.scopes);
    assert(lookup(e, name) == Some(id));
    let t = s1.table;
    let t2 = table_mark_used(t, id);
    lemma_find_key(t, id);
    lemma_same_keys(t, t2);
    let k = find_key(t, id).unwrap();
    assert(find_key(t2, id) == Some(k));
    assert(t2[k].1.used);
    let first = check_var_ref(e, y);
    assert(first.table == t2);
    assert(sts.drop_last() =~= Seq::<Statement>::empty());
    assert(check_stmts(e, sts.drop_last()) == e);
    assert(sts.last() == Statement::Expression(Expression::VariableRef(y)));
    assert(check_expr(e, Expression::VariableRef(y)) == first);
    assert(check_stmt(e, sts.last()) == first);
    assert(check_stmts(e, sts) == check_stmt(check_stmts(e, sts.drop_last()), sts.last()));
    assert(check_stmts(e, sts) == first);
    assert(check_stmt(s, Statement::IfBlock(i)) == leave_block(first));
}

} // verus!
