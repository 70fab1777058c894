//! What the symbol checker does, stated over the mathematical values of its
//! state: the symbol table, the stack of scopes, the current `ScopedId` and
//! the collected errors.

use vstd::prelude::*;

use crate::lex::TokenView;
use crate::ast::{
    Expression, CallArgument, Statement, Block, Conditional, Identifier, TypeExpression,
    BlockFnDeclaration, Item, Unit,
};
use crate::check::assoc::{assoc_get, assoc_set, assoc_contains};
use crate::check::collector::{CollectorView, with_error};
use crate::check::errors::error_view;
use crate::check::scope::scope::spec_incremented;
use crate::check::symbol::symbol::{SymbolView, variable_symbol, parameter_symbol, function_symbol};
use crate::check::symbol::table::{TableView, table_mark_used, table_mark_mutated};
use crate::check::symbol::table_builder::{ScopeView, scopes_lookup, define_innermost, define_outermost};
use crate::check::text::decimal;
use crate::check::types::types::TypeView;

verus! {

/// The state of the symbol checker.
pub struct CheckState {
    /// The symbol table built so far.
    pub table: TableView,
    /// The stack of scopes, innermost last.
    pub scopes: Seq<ScopeView<Seq<usize>>>,
    /// The `ScopedId` the next declaration will get.
    pub index: Seq<usize>,
    /// The errors, warnings and lints found so far.
    pub collector: CollectorView,
}

/// The checker can work: there is a scope to declare names in and an index
/// to give them.
pub open spec fn state_wf(s: CheckState) -> bool {
    s.scopes.len() >= 1 && s.index.len() >= 1
}

/// Every name in scope is the key of a symbol in the table.
pub open spec fn ids_declared(s: CheckState) -> bool {
    forall|i: int, j: int|
        0 <= i < s.scopes.len() && 0 <= j < s.scopes[i].len() ==> assoc_contains(s.table, #[trigger] s.scopes[i][j].1)
}

/// `Variable {name} is already declared`
pub open spec fn msg_already_declared(name: Seq<char>) -> Seq<char> {
    "Variable "@ + name + " is already declared"@
}

/// `Variable {name} was not declared`
pub open spec fn msg_not_declared(name: Seq<char>) -> Seq<char> {
    "Variable "@ + name + " was not declared"@
}

/// `Variable {name} was not declared mutable`
pub open spec fn msg_not_mutable(name: Seq<char>) -> Seq<char> {
    "Variable "@ + name + " was not declared mutable"@
}

/// `Function {name} is already declared`
pub open spec fn msg_fn_already_declared(name: Seq<char>) -> Seq<char> {
    "Function "@ + name + " is already declared"@
}

/// `Argument {name} is already declared`
pub open spec fn msg_arg_already_declared(name: Seq<char>) -> Seq<char> {
    "Argument "@ + name + " is already declared"@
}

/// `Function {name}: expected {declared} args, got {invoked}`
pub open spec fn msg_arg_count(name: Seq<char>, declared: nat, invoked: nat) -> Seq<char> {
    "Function "@ + name + ": expected "@ + decimal(declared) + " args, got "@ + decimal(invoked)
}

/// `Unknown function {name}`
pub open spec fn msg_unknown_fn(name: Seq<char>) -> Seq<char> {
    "Unknown function "@ + name
}

/// The `ScopedId` of `name` in the innermost scope that defines it.
pub open spec fn lookup(s: CheckState, name: Seq<char>) -> Option<Seq<usize>> {
    scopes_lookup(s.scopes, name)
}

/// The symbol under `id`.
pub open spec fn symbol_at(s: CheckState, id: Seq<usize>) -> Option<SymbolView> {
    assoc_get(s.table, id)
}

/// The state with an error at `token` added.
pub open spec fn add_error(s: CheckState, token: TokenView, refs: Seq<TokenView>, text: Seq<char>) -> CheckState {
    CheckState { collector: with_error(s.collector, error_view(token, refs, text)), ..s }
}

/// The state with `name` declared in the innermost scope as `sym`, under
/// the current index, and the index advanced.
pub open spec fn declare(s: CheckState, name: Seq<char>, sym: SymbolView) -> CheckState {
    CheckState {
        table: assoc_set(s.table, s.index, sym),
        scopes: define_innermost(s.scopes, name, s.index),
        index: spec_incremented(s.index),
        ..s
    }
}

/// The state inside a new block: a new scope and a new index level.
pub open spec fn enter_block(s: CheckState) -> CheckState {
    CheckState { scopes: s.scopes.push(Seq::empty()), index: s.index.push(0), ..s }
}

/// The state after a block: its scope and index level dropped, and the
/// index advanced past the block.
pub open spec fn leave_block(s: CheckState) -> CheckState {
    CheckState { scopes: s.scopes.drop_last(), index: spec_incremented(s.index.drop_last()), ..s }
}

/// A reference to a variable: marks its symbol used, or reports that it
/// was not declared.
pub open spec fn check_var_ref(s: CheckState, ident: Identifier) -> CheckState {
    let name = ident.token.text@;
    match lookup(s, name) {
        Some(id) => CheckState { table: table_mark_used(s.table, id), ..s },
        None => add_error(s, ident.token@, seq![], msg_not_declared(name)),
    }
}

/// The target of an assignment: marks a mutable symbol mutated, or reports
/// that the variable is not mutable or not declared.
pub open spec fn check_lvalue(s: CheckState, ident: Identifier) -> CheckState {
    let name = ident.token.text@;
    match lookup(s, name) {
        Some(id) => match symbol_at(s, id) {
            Some(sym) => if !sym.mutable {
                add_error(s, ident.token@, seq![sym.declaration], msg_not_mutable(name))
            } else {
                CheckState { table: table_mark_mutated(s.table, id), ..s }
            },
            None => s,
        },
        None => add_error(s, ident.token@, seq![], msg_not_declared(name)),
    }
}

/// The callee of a call, before its arguments: reports an argument count
/// that differs from the function's parameters.
pub open spec fn check_call_arity(s: CheckState, callee: Identifier, sym: SymbolView, n_args: nat) -> CheckState {
    match sym.ty {
        TypeView::Fn(_, params) => if params.len() != n_args {
            add_error(s, callee.token@, seq![], msg_arg_count(callee.token.text@, params.len(), n_args))
        } else {
            s
        },
        _ => s,
    }
}

/// Checking an expression.
pub open spec fn check_expr(s: CheckState, e: Expression) -> CheckState
    decreases e,
{
    match e {
        Expression::Literal(_) => s,
        Expression::VariableRef(ident) => check_var_ref(s, ident),
        Expression::BinaryOp(b) => check_expr(check_expr(s, *b.left), *b.right),
        Expression::UnaryOp(u) => check_expr(s, *u.expression),
        Expression::IfExpression(i) => check_expr(check_expr(check_expr(s, *i.condition), *i.true_expr), *i.else_expr),
        Expression::Assignment(a) => check_expr(check_lvalue(s, a.lvalue), *a.rvalue),
        Expression::FnCall(f) => {
            let name = f.lvalue.token.text@;
            match lookup(s, name) {
                Some(id) => {
                    let s1 = match symbol_at(s, id) {
                        Some(sym) => if sym.ty is Fn {
                            check_args(
                                check_call_arity(s, f.lvalue, sym, f.args@.len()),
                                f.lvalue.token@,
                                fn_params(sym.ty),
                                f.args@,
                            )
                        } else {
                            s
                        },
                        None => s,
                    };
                    CheckState { table: table_mark_used(s1.table, id), ..s1 }
                },
                None => add_error(s, f.lvalue.token@, seq![], msg_unknown_fn(name)),
            }
        },
    }
}

/// The parameters of a function type; none for another type.
pub open spec fn fn_params(ty: TypeView) -> Seq<(Seq<char>, TypeView)> {
    match ty {
        TypeView::Fn(_, params) => params,
        _ => Seq::empty(),
    }
}

/// One of `params` is called `name`.
pub open spec fn param_named(params: Seq<(Seq<char>, TypeView)>, name: Seq<char>) -> bool {
    exists|j: int| 0 <= j < params.len() && #[trigger] params[j].0 == name
}

/// `Unknown parameter {name}`
pub open spec fn msg_unknown_param(name: Seq<char>) -> Seq<char> {
    "Unknown parameter "@ + name
}

/// The name of an argument: a name that is not one of the function's
/// parameters is reported at the callee, referring to the argument.
pub open spec fn check_arg_name(
    s: CheckState,
    callee: TokenView,
    params: Seq<(Seq<char>, TypeView)>,
    arg: CallArgument,
) -> CheckState {
    if param_named(params, arg.param.token.text@) {
        s
    } else {
        add_error(s, callee, seq![arg.param.token@], msg_unknown_param(arg.param.token.text@))
    }
}

/// Checking call arguments, first to last: each argument's value, then its
/// name against the parameters of the function called at `callee`.
pub open spec fn check_args(
    s: CheckState,
    callee: TokenView,
    params: Seq<(Seq<char>, TypeView)>,
    args: Seq<CallArgument>,
) -> CheckState
    decreases args,
{
    if args.len() == 0 {
        s
    } else {
        check_arg_name(
            check_expr(check_args(s, callee, params, args.drop_last()), args.last().value),
            callee,
            params,
            args.last(),
        )
    }
}

/// Checking a statement.
pub open spec fn check_stmt(s: CheckState, st: Statement) -> CheckState
    decreases st,
{
    match st {
        Statement::Expression(e) => check_expr(s, e),
        Statement::Return(r) => match r.value {
            Some(v) => check_expr(s, *v),
            None => s,
        },
        Statement::Declaration(d) => {
            let s1 = check_expr(s, *d.value);
            let name = d.ident.token.text@;
            match lookup(s1, name) {
                Some(id) => match symbol_at(s1, id) {
                    Some(sym) => add_error(s1, d.ident.token@, seq![sym.declaration], msg_already_declared(name)),
                    None => s1,
                },
                None => declare(s1, name, variable_symbol(d.ident.token@, d.mutable)),
            }
        },
        Statement::DoBlock(d) => check_block(s, *d.block),
        Statement::IfBlock(i) => {
            let s1 = check_conditionals(s, i.conditionals@);
            match i.else_block {
                Some(b) => check_block(s1, b),
                None => s1,
            }
        },
    }
}

/// Checking statements, first to last.
pub open spec fn check_stmts(s: CheckState, sts: Seq<Statement>) -> CheckState
    decreases sts,
{
    if sts.len() == 0 {
        s
    } else {
        check_stmt(check_stmts(s, sts.drop_last()), sts.last())
    }
}

/// Checking a block: its statements in a new scope and index level.
pub open spec fn check_block(s: CheckState, b: Block) -> CheckState
    decreases b,
{
    leave_block(check_stmts(enter_block(s), b.statements@))
}

/// Checking the conditionals of an `if` block: each condition, then its
/// block.
pub open spec fn check_conditionals(s: CheckState, cs: Seq<Conditional>) -> CheckState
    decreases cs,
{
    if cs.len() == 0 {
        s
    } else {
        let s1 = check_conditionals(s, cs.drop_last());
        check_block(check_expr(s1, cs.last().condition), cs.last().block)
    }
}

/// Checking function parameters, first to last: each is declared, or
/// reported as already declared.
pub open spec fn check_params(s: CheckState, ps: Seq<(Identifier, TypeExpression)>) -> CheckState
    decreases ps.len(),
{
    if ps.len() == 0 {
        s
    } else {
        let s1 = check_params(s, ps.drop_last());
        let p = ps.last().0;
        let name = p.token.text@;
        match lookup(s1, name) {
            Some(id) => match symbol_at(s1, id) {
                Some(sym) => add_error(s1, p.token@, seq![sym.declaration], msg_arg_already_declared(name)),
                None => s1,
            },
            None => declare(s1, name, parameter_symbol(p.token@)),
        }
    }
}

/// The state after a duplicate check of a function's name.
pub open spec fn check_fn_name(s: CheckState, f: BlockFnDeclaration) -> CheckState {
    let name = f.ident.token.text@;
    match lookup(s, name) {
        Some(id) => match symbol_at(s, id) {
            Some(sym) => add_error(s, f.ident.token@, seq![sym.declaration], msg_fn_already_declared(name)),
            None => s,
        },
        None => s,
    }
}

/// The state once a function's parameters are checked and the function
/// itself is declared globally under `fn_index`.
pub open spec fn declare_fn(s: CheckState, f: BlockFnDeclaration, fn_index: Seq<usize>) -> CheckState {
    CheckState {
        scopes: define_outermost(s.scopes, f.ident.token.text@, fn_index),
        table: assoc_set(s.table, fn_index, function_symbol(f.ident.token@, f.params@)),
        ..s
    }
}

/// Checking a function declaration: its name, its parameters and its
/// statements, in one new scope and index level.
pub open spec fn check_fn_decl(s: CheckState, f: BlockFnDeclaration) -> CheckState {
    let s1 = check_fn_name(s, f);
    let s2 = check_params(enter_block(s1), f.params@);
    let s3 = declare_fn(s2, f, s1.index);
    leave_block(check_stmts(s3, f.block.statements@))
}

/// Checking items, first to last.
pub open spec fn check_items(s: CheckState, items: Seq<Item>) -> CheckState
    decreases items.len(),
{
    if items.len() == 0 {
        s
    } else {
        let s1 = check_items(s, items.drop_last());
        match items.last() {
            Item::BlockFnDeclaration(f) => check_fn_decl(s1, f),
            Item::Typedef(_) => s1,
        }
    }
}

/// Checking a unit: its items, in a new scope.
pub open spec fn check_unit(s: CheckState, u: Unit) -> CheckState {
    check_items(CheckState { scopes: s.scopes.push(Seq::empty()), ..s }, u.items@)
}

/// `i1` is `i0` as a lookup in `s` leaves it: the same token, with the
/// `ScopedId` of its name where the name is in scope, else unchanged.
pub open spec fn ident_resolved(s: CheckState, i0: Identifier, i1: Identifier) -> bool {
    &&& i1.token == i0.token
    &&& match lookup(s, i0.token.text@) {
        Some(id) => i1.id@ == id,
        None => i1.id == i0.id,
    }
}

/// `i1` is `i0` given the `ScopedId` `id`.
pub open spec fn ident_given(i0: Identifier, i1: Identifier, id: Seq<usize>) -> bool {
    i1.token == i0.token && i1.id@ == id
}

/// `e1` is `e0` with the `ScopedId`s that checking `e0` from `s` gives to
/// its identifiers, and otherwise unchanged.
pub open spec fn expr_annotated(s: CheckState, e0: Expression, e1: Expression) -> bool
    decreases e0,
{
    match e0 {
        Expression::Literal(_) => e1 == e0,
        Expression::VariableRef(i0) => e1 matches Expression::VariableRef(i1) && ident_resolved(s, i0, i1),
        Expression::BinaryOp(b0) => e1 matches Expression::BinaryOp(b1) && b1.operator == b0.operator && b1.span
            == b0.span && expr_annotated(s, *b0.left, *b1.left) && expr_annotated(
            check_expr(s, *b0.left),
            *b0.right,
            *b1.right,
        ),
        Expression::UnaryOp(u0) => e1 matches Expression::UnaryOp(u1) && u1.operator == u0.operator && u1.span
            == u0.span && expr_annotated(s, *u0.expression, *u1.expression),
        Expression::IfExpression(i0) => e1 matches Expression::IfExpression(i1) && i1.span == i0.span
            && expr_annotated(s, *i0.condition, *i1.condition) && expr_annotated(
            check_expr(s, *i0.condition),
            *i0.true_expr,
            *i1.true_expr,
        ) && expr_annotated(
            check_expr(check_expr(s, *i0.condition), *i0.true_expr),
            *i0.else_expr,
            *i1.else_expr,
        ),
        Expression::Assignment(a0) => e1 matches Expression::Assignment(a1) && ident_resolved(s, a0.lvalue, a1.lvalue)
            && expr_annotated(check_lvalue(s, a0.lvalue), *a0.rvalue, *a1.rvalue),
        Expression::FnCall(f0) => e1 matches Expression::FnCall(f1) && f1.span == f0.span && ident_resolved(
            s,
            f0.lvalue,
            f1.lvalue,
        ) && match lookup(s, f0.lvalue.token.text@) {
            Some(id) => match symbol_at(s, id) {
                Some(sym) => if sym.ty is Fn {
                    args_annotated(
                        check_call_arity(s, f0.lvalue, sym, f0.args@.len()),
                        f0.lvalue.token@,
                        fn_params(sym.ty),
                        f0.args@,
                        f1.args@,
                    )
                } else {
                    f1.args == f0.args
                },
                None => f1.args == f0.args,
            },
            None => f1.args == f0.args,
        },
    }
}

/// `a1` is `a0` with the `ScopedId`s that checking the arguments `a0` from
/// `s` gives to their identifiers.
pub open spec fn args_annotated(
    s: CheckState,
    callee: TokenView,
    params: Seq<(Seq<char>, TypeView)>,
    a0: Seq<CallArgument>,
    a1: Seq<CallArgument>,
) -> bool
    decreases a0,
{
    &&& a1.len() == a0.len()
    &&& a0.len() > 0 ==> {
        &&& args_annotated(s, callee, params, a0.drop_last(), a1.drop_last())
        &&& a1.last().param == a0.last().param
        &&& expr_annotated(check_args(s, callee, params, a0.drop_last()), a0.last().value, a1.last().value)
    }
}

/// `st1` is `st0` with the `ScopedId`s that checking it from `s` gives to
/// its identifiers, and otherwise unchanged.
pub open spec fn stmt_annotated(s: CheckState, st0: Statement, st1: Statement) -> bool
    decreases st0,
{
    match st0 {
        Statement::Expression(e0) => st1 matches Statement::Expression(e1) && expr_annotated(s, e0, e1),
        Statement::Return(r0) => st1 matches Statement::Return(r1) && r1.span == r0.span && match r0.value {
            Some(v0) => r1.value matches Some(v1) && expr_annotated(s, *v0, *v1),
            None => r1.value is None,
        },
        Statement::Declaration(d0) => st1 matches Statement::Declaration(d1) && d1.mutable == d0.mutable
            && d1.type_decl == d0.type_decl && d1.span == d0.span && expr_annotated(s, *d0.value, *d1.value) && {
            let s1 = check_expr(s, *d0.value);
            match lookup(s1, d0.ident.token.text@) {
                Some(_) => d1.ident == d0.ident,
                None => ident_given(d0.ident, d1.ident, s1.index),
            }
        },
        Statement::DoBlock(b0) => st1 matches Statement::DoBlock(b1) && b1.span == b0.span && block_annotated(
            s,
            *b0.block,
            *b1.block,
        ),
        Statement::IfBlock(i0) => st1 matches Statement::IfBlock(i1) && i1.scoped_id == i0.scoped_id && i1.source
            == i0.source && i1.span == i0.span && conds_annotated(s, i0.conditionals@, i1.conditionals@)
            && match i0.else_block {
            Some(b0) => i1.else_block matches Some(b1) && block_annotated(
                check_conditionals(s, i0.conditionals@),
                b0,
                b1,
            ),
            None => i1.else_block is None,
        },
    }
}

/// `b` is the statements `a` annotated by checking them from `s`.
pub open spec fn stmts_annotated(s: CheckState, a: Seq<Statement>, b: Seq<Statement>) -> bool
    decreases a,
{
    &&& b.len() == a.len()
    &&& a.len() > 0 ==> {
        &&& stmts_annotated(s, a.drop_last(), b.drop_last())
        &&& stmt_annotated(check_stmts(s, a.drop_last()), a.last(), b.last())
    }
}

/// `b1` is the block `b0` annotated by checking it from `s`.
pub open spec fn block_annotated(s: CheckState, b0: Block, b1: Block) -> bool
    decreases b0,
{
    &&& b1.scope_id == b0.scope_id
    &&& b1.source == b0.source
    &&& stmts_annotated(enter_block(s), b0.statements@, b1.statements@)
}

/// `c1` is the conditionals `c0` annotated by checking them from `s`.
pub open spec fn conds_annotated(s: CheckState, c0: Seq<Conditional>, c1: Seq<Conditional>) -> bool
    decreases c0,
{
    &&& c1.len() == c0.len()
    &&& c0.len() > 0 ==> {
        let s1 = check_conditionals(s, c0.drop_last());
        &&& conds_annotated(s, c0.drop_last(), c1.drop_last())
        &&& c1.last().span == c0.last().span
        &&& expr_annotated(s1, c0.last().condition, c1.last().condition)
        &&& block_annotated(check_expr(s1, c0.last().condition), c0.last().block, c1.last().block)
    }
}

/// `p1` is the parameters `p0` annotated by checking them from `s`: each
/// newly declared parameter has the index it was declared under.
pub open spec fn params_annotated(
    s: CheckState,
    p0: Seq<(Identifier, TypeExpression)>,
    p1: Seq<(Identifier, TypeExpression)>,
) -> bool
    decreases p0.len(),
{
    &&& p1.len() == p0.len()
    &&& p0.len() > 0 ==> {
        let s1 = check_params(s, p0.drop_last());
        &&& params_annotated(s, p0.drop_last(), p1.drop_last())
        &&& p1.last().1 == p0.last().1
        &&& match lookup(s1, p0.last().0.token.text@) {
            Some(_) => p1.last().0 == p0.last().0,
            None => ident_given(p0.last().0, p1.last().0, s1.index),
        }
    }
}

/// `f1` is the function declaration `f0` annotated by checking it from
/// `s`: the function has the index it was met at, and its parameters and
/// statements are annotated.
pub open spec fn fn_annotated(s: CheckState, f0: BlockFnDeclaration, f1: BlockFnDeclaration) -> bool {
    let s1 = check_fn_name(s, f0);
    let s2 = check_params(enter_block(s1), f0.params@);
    &&& ident_given(f0.ident, f1.ident, s1.index)
    &&& f1.ret_ty == f0.ret_ty
    &&& f1.explicit_ret_ty == f0.explicit_ret_ty
    &&& f1.span == f0.span
    &&& params_annotated(enter_block(s1), f0.params@, f1.params@)
    &&& f1.block.scope_id == f0.block.scope_id
    &&& f1.block.source == f0.block.source
    &&& stmts_annotated(declare_fn(s2, f0, s1.index), f0.block.statements@, f1.block.statements@)
}

/// `i1` is the items `i0` annotated by checking them from `s`.
pub open spec fn items_annotated(s: CheckState, i0: Seq<Item>, i1: Seq<Item>) -> bool
    decreases i0.len(),
{
    &&& i1.len() == i0.len()
    &&& i0.len() > 0 ==> {
        &&& items_annotated(s, i0.drop_last(), i1.drop_last())
        &&& match i0.last() {
            Item::BlockFnDeclaration(f0) => i1.last() matches Item::BlockFnDeclaration(f1) && fn_annotated(
                check_items(s, i0.drop_last()),
                f0,
                f1,
            ),
            Item::Typedef(_) => i1.last() == i0.last(),
        }
    }
}

/// `u1` is the unit `u0` annotated by checking it from `s`.
pub open spec fn unit_annotated(s: CheckState, u0: Unit, u1: Unit) -> bool {
    u1.span == u0.span && items_annotated(CheckState { scopes: s.scopes.push(Seq::empty()), ..s }, u0.items@, u1.items@)
}

/// The most a statement can advance the index at its own level, and also
/// the most it can advance the index of any block it holds.
pub open spec fn stmt_weight(st: Statement) -> nat
    decreases st,
{
    match st {
        Statement::Expression(_) => 0,
        Statement::Return(_) => 0,
        Statement::Declaration(_) => 1,
        Statement::DoBlock(d) => 1 + block_weight(*d.block),
        Statement::IfBlock(i) => conds_weight(i.conditionals@) + match i.else_block {
            Some(b) => 1 + block_weight(b),
            None => 0,
        },
    }
}

/// The weight of a list of statements: the sum of their weights.
pub open spec fn stmts_weight(sts: Seq<Statement>) -> nat
    decreases sts,
{
    if sts.len() == 0 {
        0
    } else {
        stmts_weight(sts.drop_last()) + stmt_weight(sts.last())
    }
}

/// The weight of a block's statements.
pub open spec fn block_weight(b: Block) -> nat
    decreases b,
{
    stmts_weight(b.statements@)
}

/// The weight of conditionals: one for each block, plus the blocks'
/// weights.
pub open spec fn conds_weight(cs: Seq<Conditional>) -> nat
    decreases cs,
{
    if cs.len() == 0 {
        0
    } else {
        conds_weight(cs.drop_last()) + 1 + block_weight(cs.last().block)
    }
}

/// The weight of a function's body level: its parameters and statements.
pub open spec fn fn_weight(f: BlockFnDeclaration) -> nat {
    f.params@.len() + block_weight(f.block)
}

/// The weight of items: one for each function, plus the functions' weights.
pub open spec fn items_weight(items: Seq<Item>) -> nat
    decreases items.len(),
{
    if items.len() == 0 {
        0
    } else {
        items_weight(items.drop_last()) + match items.last() {
            Item::BlockFnDeclaration(f) => 1 + fn_weight(f),
            Item::Typedef(_) => 0,
        }
    }
}

/// `after` is `before` with only its last component advanced, by at most
/// `w`.
pub open spec fn index_advanced(before: Seq<usize>, after: Seq<usize>, w: nat) -> bool {
    &&& after.len() == before.len()
    &&& after.len() >= 1
    &&& after.drop_last() == before.drop_last()
    &&& before.last() <= after.last() <= before.last() + w
}

} // verus!
