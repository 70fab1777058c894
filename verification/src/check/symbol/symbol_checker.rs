//! Assigns unique `ScopedId`s to `Identifier`s in the AST, builds the symbol
//! table, and reports undeclared, redeclared and immutable variables and
//! calls with the wrong number of arguments or unknown parameter names.

use vstd::prelude::*;

use crate::lex::Token;
use crate::ast::{ScopedId, Expression, Identifier, Assignment, FnCall, CallArgument, Statement, Declaration, Block, IfBlock, BlockFnDeclaration, Item, Unit};
use crate::check::collector::ErrorCollector;
use crate::check::errors::{CheckerError, tokens_view};
use crate::check::scope::scope::{spec_default_index, lemma_incremented};
use crate::check::symbol::checking::{CheckState, state_wf, lookup, symbol_at, add_error, declare, check_var_ref, check_lvalue, check_expr, check_args, fn_params, param_named, msg_arg_count, ident_resolved, expr_annotated, args_annotated, stmt_annotated, stmts_annotated, block_annotated, conds_annotated, params_annotated, fn_annotated, items_annotated, unit_annotated, check_stmt, check_stmts, check_block, check_conditionals, check_params, check_fn_name, declare_fn, check_fn_decl, check_items, check_unit, enter_block, leave_block, stmt_weight, stmts_weight, block_weight, conds_weight, fn_weight, items_weight, index_advanced};
use crate::check::symbol::symbol::DeclaredSymbol;
use crate::check::symbol::table::SymbolTable;
use crate::check::symbol::table_builder::SymbolTableBuilder;
use crate::check::text::{concat3, push_decimal};
use crate::check::types::types::{Type, TypeView, FnType, args_view, lemma_args_view_len, lemma_args_view_index};

verus! {

/// Builds the symbol table of a program and reports missing variable and
/// mutability errors.
pub struct SymbolChecker {
    symbol_table: SymbolTable,
    table_builder: SymbolTableBuilder,
    current_index: ScopedId,
    errors: ErrorCollector,
}

impl View for SymbolChecker {
    type V = CheckState;

    closed spec fn view(&self) -> CheckState {
        CheckState {
            table: self.symbol_table@,
            scopes: self.table_builder@,
            index: self.current_index@,
            collector: self.errors@,
        }
    }
}

/// A one-token list.
fn one_token(t: &Token) -> (v: Vec<Token>)
    ensures
        tokens_view(v@) == seq![t@],
{
    let v = vec![t.clone()];
    assert(tokens_view(v@) =~= seq![t@]);
    v
}

/// An empty token list.
fn no_tokens() -> (v: Vec<Token>)
    ensures
        tokens_view(v@) == Seq::<crate::lex::TokenView>::empty(),
{
    let v: Vec<Token> = Vec::new();
    assert(tokens_view(v@) =~= Seq::<crate::lex::TokenView>::empty());
    v
}

/// For each argument, whether its name is one of the parameters of `f`.
fn known_params(f: &FnType, args: &Vec<CallArgument>) -> (known: Vec<bool>)
    ensures
        known@.len() == args@.len(),
        forall|j: int| 0 <= j < args@.len() ==> #[trigger] known@[j] == param_named(
            args_view(f.args@),
            args@[j].param.token.text@,
        ),
{
    let mut known: Vec<bool> = Vec::new();
    let n = args.len();
    let mut k: usize = 0;
    while k < n
        invariant
            n == args@.len(),
            k <= n,
            known@.len() == k,
            forall|j: int| 0 <= j < k ==> #[trigger] known@[j] == param_named(
                args_view(f.args@),
                args@[j].param.token.text@,
            ),
        decreases n - k,
    {
        let name = args[k].param.name();
        let found = f.get_arg(name);
        proof {
            let ps = args_view(f.args@);
            lemma_args_view_len(f.args@);
            match found {
                Some((ix, _)) => {
                    lemma_args_view_index(f.args@, ix as int);
                    assert(ps[ix as int].0 == name@);
                },
                None => {
                    assert forall|j: int| 0 <= j < ps.len() implies #[trigger] ps[j].0 != name@ by {
                        lemma_args_view_index(f.args@, j);
                    };
                },
            }
        }
        known.push(found.is_some());
        k += 1;
    }
    known
}

impl SymbolChecker {
    /// A checker with an empty table, one global scope and the index `[0]`,
    /// reporting into `errors`.
    pub fn new(errors: ErrorCollector) -> (c: SymbolChecker)
        ensures
            c@ == (CheckState {
                table: Seq::empty(),
                scopes: seq![Seq::empty()],
                index: spec_default_index(),
                collector: errors@,
            }),
    {
        SymbolChecker {
            symbol_table: SymbolTable::new(),
            table_builder: SymbolTableBuilder::new(),
            current_index: ScopedId::default(),
            errors,
        }
    }

    /// The symbol table and the collected errors.
    pub fn decompose(self) -> (r: (SymbolTable, ErrorCollector))
        ensures
            r.0@ == self@.table,
            r.1@ == self@.collector,
    {
        (self.symbol_table, self.errors)
    }

    /// The `ScopedId` of `name` in the innermost scope defining it.
    fn lookup(&self, name: &str) -> (r: Option<ScopedId>)
        requires
            state_wf(self@),
        ensures
            match r {
                Some(id) => lookup(self@, name@) == Some(id@),
                None => lookup(self@, name@) is None,
            },
    {
        match self.table_builder.get(name) {
            Some(id) => Some(id.clone()),
            None => None,
        }
    }

    fn report(&mut self, token: &Token, refs: Vec<Token>, text: String)
        ensures
            final(self)@ == add_error(old(self)@, token@, tokens_view(refs@), text@),
    {
        self.errors.add_error(CheckerError::new(token.clone(), refs, text));
    }

    /// Declares `name` at the current index with `sym`, advancing the index,
    /// and returns the index it was declared under.
    fn declare(&mut self, name: &str, sym: DeclaredSymbol) -> (idx: ScopedId)
        requires
            state_wf(old(self)@),
            old(self)@.index.last() < usize::MAX,
        ensures
            final(self)@ == declare(old(self)@, name@, sym@),
            idx@ == old(self)@.index,
    {
        let var_index = self.current_index.clone();
        self.current_index.increment();
        self.table_builder.define_local(name.to_owned(), var_index.clone());
        self.symbol_table.insert(var_index.clone(), sym);
        var_index
    }

    /// Checks a reference to a variable.
    pub fn check_var_ref(&mut self, var_ref: &mut Identifier)
        requires
            state_wf(old(self)@),
        ensures
            final(self)@ == check_var_ref(old(self)@, *old(var_ref)),
            ident_resolved(old(self)@, *old(var_ref), *final(var_ref)),
    {
        match self.lookup(var_ref.name()) {
            Some(index) => {
                self.symbol_table.set_used(&index);
                var_ref.id = index;
            },
            None => {
                let text = concat3("Variable ", var_ref.name(), " was not declared");
                self.report(&var_ref.token, no_tokens(), text);
            },
        }
    }

    /// Checks the target of an assignment.
    fn check_lvalue(&mut self, lvalue: &mut Identifier)
        requires
            state_wf(old(self)@),
        ensures
            final(self)@ == check_lvalue(old(self)@, *old(lvalue)),
            ident_resolved(old(self)@, *old(lvalue), *final(lvalue)),
    {
        match self.lookup(lvalue.name()) {
            Some(index) => {
                let mutable = match self.symbol_table.get(&index) {
                    Some(sym) => {
                        if !sym.is_mutable() {
                            let text = concat3("Variable ", lvalue.name(), " was not declared mutable");
                            let refs = one_token(sym.get_declaration());
                            Some((false, refs, text))
                        } else {
                            Some((true, Vec::new(), String::new()))
                        }
                    },
                    None => None,
                };
                match mutable {
                    Some((false, refs, text)) => {
                        self.report(&lvalue.token, refs, text);
                    },
                    Some((true, _, _)) => {
                        self.symbol_table.set_mutated(&index);
                    },
                    None => {},
                }
                lvalue.id = index;
            },
            None => {
                let text = concat3("Variable ", lvalue.name(), " was not declared");
                self.report(&lvalue.token, no_tokens(), text);
            },
        }
    }

    /// Checks an assignment: its target, then its value.
    pub fn check_assignment(&mut self, assign: &mut Assignment)
        requires
            state_wf(old(self)@),
        ensures
            final(self)@ == check_expr(old(self)@, Expression::Assignment(*old(assign))),
            expr_annotated(old(self)@, Expression::Assignment(*old(assign)), Expression::Assignment(*final(assign))),
            final(self)@.index == old(self)@.index,
            final(self)@.scopes == old(self)@.scopes,
        decreases *old(assign), 1nat,
    {
        self.check_lvalue(&mut assign.lvalue);
        self.check_expression(&mut assign.rvalue);
    }

    /// Checks an expression.
    pub fn check_expression(&mut self, expr: &mut Expression)
        requires
            state_wf(old(self)@),
        ensures
            final(self)@ == check_expr(old(self)@, *old(expr)),
            expr_annotated(old(self)@, *old(expr), *final(expr)),
            final(self)@.index == old(self)@.index,
            final(self)@.scopes == old(self)@.scopes,
        decreases *old(expr), 2nat,
    {
        match expr {
            Expression::Literal(_) => {},
            Expression::VariableRef(ident) => self.check_var_ref(ident),
            Expression::BinaryOp(b) => {
                self.check_expression(&mut b.left);
                self.check_expression(&mut b.right);
            },
            Expression::UnaryOp(u) => self.check_expression(&mut u.expression),
            Expression::IfExpression(i) => {
                self.check_expression(&mut i.condition);
                self.check_expression(&mut i.true_expr);
                self.check_expression(&mut i.else_expr);
            },
            Expression::Assignment(a) => self.check_assignment(a),
            Expression::FnCall(f) => self.check_fn_call(f),
        }
    }

    /// Checks a call: the callee must be declared; where it is a function,
    /// the number of arguments must match its parameters, each argument's
    /// value is checked, and each argument must name one of its parameters.
    pub fn check_fn_call(&mut self, fn_call: &mut FnCall)
        requires
            state_wf(old(self)@),
        ensures
            final(self)@ == check_expr(old(self)@, Expression::FnCall(*old(fn_call))),
            expr_annotated(old(self)@, Expression::FnCall(*old(fn_call)), Expression::FnCall(*final(fn_call))),
            final(self)@.index == old(self)@.index,
            final(self)@.scopes == old(self)@.scopes,
        decreases *old(fn_call), 1nat,
    {
        let ghost s0 = self@;
        let ghost f0 = *fn_call;
        match self.lookup(fn_call.lvalue.name()) {
            Some(fn_index) => {
                fn_call.lvalue.id = fn_index.clone();
                let checked = match self.symbol_table.get(&fn_index) {
                    Some(sym) => match sym.get_type() {
                        Type::Fn(fn_type) => {
                            proof { lemma_args_view_len(fn_type.args@); }
                            Some((fn_type.args.len(), known_params(fn_type, &fn_call.args)))
                        },
                        _ => None,
                    },
                    None => None,
                };
                let ghost params = match symbol_at(s0, fn_index@) {
                    Some(sym) => fn_params(sym.ty),
                    None => Seq::empty(),
                };
                assert(match symbol_at(s0, fn_index@) {
                    Some(sym) => match sym.ty {
                        TypeView::Fn(_, ps) => checked matches Some((d, known)) && d == ps.len()
                            && known@.len() == f0.args@.len() && forall|j: int| 0 <= j < known@.len()
                            ==> #[trigger] known@[j] == param_named(ps, f0.args@[j].param.token.text@),
                        _ => checked is None,
                    },
                    None => checked is None,
                });
                if let Some((declared_len, known)) = checked {
                    let invoked_len = fn_call.args.len();
                    if declared_len != invoked_len {
                        let mut text = concat3("Function ", fn_call.lvalue.name(), ": expected ");
                        push_decimal(&mut text, declared_len);
                        text.append(" args, got ");
                        push_decimal(&mut text, invoked_len);
                        assert(text@ =~= msg_arg_count(fn_call.lvalue.token.text@, declared_len as nat, invoked_len as nat));
                        self.report(&fn_call.lvalue.token, no_tokens(), text);
                    }
                    let ghost s_a = self@;
                    let ghost args0 = fn_call.args@;
                    let ghost lv1 = fn_call.lvalue;
                    let ghost callee = f0.lvalue.token@;
                    assert(args_annotated(s_a, callee, params, args0.take(0), fn_call.args@.take(0)));
                    let n = fn_call.args.len();
                    let mut k: usize = 0;
                    while k < n
                        invariant
                            n == fn_call.args@.len(),
                            n == args0.len(),
                            args0 == f0.args@,
                            *old(fn_call) == f0,
                            k <= n,
                            known@.len() == n,
                            forall|j: int| 0 <= j < n ==> #[trigger] known@[j] == param_named(params, args0[j].param.token.text@),
                            callee == lv1.token@,
                            state_wf(self@),
                            self@ == check_args(s_a, callee, params, args0.take(k as int)),
                            self@.index == s0.index,
                            self@.scopes == s0.scopes,
                            forall|j: int| k <= j < n ==> fn_call.args@[j] == args0[j],
                            fn_call.lvalue == lv1,
                            fn_call.span == f0.span,
                            args_annotated(s_a, callee, params, args0.take(k as int), fn_call.args@.take(k as int)),
                        decreases n - k,
                    {
                        let ghost before = fn_call.args@;
                        assert(decreases_to!(*old(fn_call) => args0[k as int].value)) by {
                            assert(decreases_to!(f0 => f0.args));
                            assert(decreases_to!(f0.args => f0.args@));
                            assert(decreases_to!(f0.args@ => f0.args@[k as int]));
                        };
                        self.check_expression(&mut fn_call.args[k].value);
                        assert(fn_call.args@[k as int].param == args0[k as int].param);
                        if !known[k] {
                            let mut text = "Unknown parameter ".to_owned();
                            text.append(fn_call.args[k].param.name());
                            self.report(&fn_call.lvalue.token, one_token(&fn_call.args[k].param.token), text);
                        }
                        assert(args0.take(k + 1).drop_last() =~= args0.take(k as int));
                        assert(fn_call.args@.take(k + 1).drop_last() =~= before.take(k as int));
                        assert(fn_call.args@.take(k as int) =~= before.take(k as int));
                        k += 1;
                    }
                    assert(args0.take(n as int) =~= args0);
                    assert(fn_call.args@.take(n as int) =~= fn_call.args@);
                }
                self.symbol_table.set_used(&fn_index);
            },
            None => {
                let mut text = "Unknown function ".to_owned();
                text.append(fn_call.lvalue.name());
                self.report(&fn_call.lvalue.token, no_tokens(), text);
            },
        }
    }

    /// Checks a declaration: its value first (so that a variable cannot be
    /// used in its own declaration), then its name, which must not be
    /// declared in any enclosing scope.
    pub fn check_declaration(&mut self, decl: &mut Declaration)
        requires
            state_wf(old(self)@),
            old(self)@.index.last() + 1 <= usize::MAX,
        ensures
            final(self)@ == check_stmt(old(self)@, Statement::Declaration(*old(decl))),
            stmt_annotated(old(self)@, Statement::Declaration(*old(decl)), Statement::Declaration(*final(decl))),
            final(self)@.scopes.len() == old(self)@.scopes.len(),
            index_advanced(old(self)@.index, final(self)@.index, 1),
    {
        self.check_expression(&mut decl.value);
        proof { lemma_incremented(self@.index); }
        match self.lookup(decl.ident.name()) {
            Some(declared_index) => {
                let found = match self.symbol_table.get(&declared_index) {
                    Some(sym) => Some(one_token(sym.get_declaration())),
                    None => None,
                };
                if let Some(refs) = found {
                    let text = concat3("Variable ", decl.ident.name(), " is already declared");
                    self.report(&decl.ident.token, refs, text);
                }
            },
            None => {
                let sym = DeclaredSymbol::from_declaration(&decl.ident.token, decl.mutable);
                let var_index = self.declare(decl.ident.name(), sym);
                decl.ident.id = var_index;
            },
        }
    }

    /// Checks a statement.
    pub fn check_statement(&mut self, stmt: &mut Statement)
        requires
            state_wf(old(self)@),
            old(self)@.index.last() + stmt_weight(*old(stmt)) <= usize::MAX,
        ensures
            final(self)@ == check_stmt(old(self)@, *old(stmt)),
            stmt_annotated(old(self)@, *old(stmt), *final(stmt)),
            final(self)@.scopes.len() == old(self)@.scopes.len(),
            index_advanced(old(self)@.index, final(self)@.index, stmt_weight(*old(stmt))),
        decreases *old(stmt), 2nat,
    {
        match stmt {
            Statement::Expression(e) => self.check_expression(e),
            Statement::Return(r) => {
                match &mut r.value {
                    Some(v) => self.check_expression(v),
                    None => {},
                }
            },
            Statement::Declaration(d) => self.check_declaration(d),
            Statement::DoBlock(d) => self.check_block(&mut d.block),
            Statement::IfBlock(i) => self.check_if_block(i),
        }
    }

    /// Checks statements in order, in the current scope.
    fn check_statements(&mut self, stmts: &mut Vec<Statement>)
        requires
            state_wf(old(self)@),
            old(self)@.index.last() + stmts_weight(old(stmts)@) <= usize::MAX,
        ensures
            final(self)@ == check_stmts(old(self)@, old(stmts)@),
            stmts_annotated(old(self)@, old(stmts)@, final(stmts)@),
            final(self)@.scopes.len() == old(self)@.scopes.len(),
            index_advanced(old(self)@.index, final(self)@.index, stmts_weight(old(stmts)@)),
        decreases old(stmts)@, 2nat,
    {
        let ghost s0 = self@;
        let ghost sts0 = stmts@;
        assert(stmts_annotated(s0, sts0.take(0), stmts@.take(0)));
        let n = stmts.len();
        let mut k: usize = 0;
        while k < n
            invariant
                n == stmts@.len(),
                n == sts0.len(),
                sts0 == old(stmts)@,
                k <= n,
                state_wf(self@),
                self@ == check_stmts(s0, sts0.take(k as int)),
                self@.scopes.len() == s0.scopes.len(),
                index_advanced(s0.index, self@.index, stmts_weight(sts0.take(k as int))),
                s0.index.last() + stmts_weight(sts0) <= usize::MAX,
                forall|j: int| k <= j < n ==> stmts@[j] == sts0[j],
                stmts_annotated(s0, sts0.take(k as int), stmts@.take(k as int)),
            decreases n - k,
        {
            let ghost before = stmts@;
            proof { lemma_stmts_weight_take(sts0, k as int); }
            assert(decreases_to!(sts0 => sts0[k as int]));
            self.check_statement(&mut stmts[k]);
            assert(sts0.take(k + 1).drop_last() =~= sts0.take(k as int));
            assert(stmts@.take(k + 1).drop_last() =~= before.take(k as int));
            assert(stmts@.take(k as int) =~= before.take(k as int));
            k += 1;
        }
        assert(sts0.take(n as int) =~= sts0);
        assert(stmts@.take(n as int) =~= stmts@);
    }

    /// Checks a block: its statements in a new scope and index level, after
    /// which the index moves past the block.
    pub fn check_block(&mut self, block: &mut Block)
        requires
            state_wf(old(self)@),
            old(self)@.index.last() + 1 + block_weight(*old(block)) <= usize::MAX,
        ensures
            final(self)@ == check_block(old(self)@, *old(block)),
            block_annotated(old(self)@, *old(block), *final(block)),
            final(self)@.scopes.len() == old(self)@.scopes.len(),
            index_advanced(old(self)@.index, final(self)@.index, 1),
        decreases *old(block), 2nat,
    {
        let ghost s0 = self@;
        self.current_index.push();
        self.table_builder.new_scope();
        assert(self@ == enter_block(s0));
        assert(decreases_to!(*old(block) => old(block).statements));
        self.check_statements(&mut block.statements);
        self.table_builder.pop();
        self.current_index.pop();
        assert(self@.index =~= s0.index);
        proof { lemma_incremented(s0.index); }
        self.current_index.increment();
        assert(self@ == leave_block(check_stmts(enter_block(s0), old(block).statements@)));
    }

    /// Checks an `if` block: each condition and its block, then the `else`
    /// block.
    fn check_if_block(&mut self, if_block: &mut IfBlock)
        requires
            state_wf(old(self)@),
            old(self)@.index.last() + stmt_weight(Statement::IfBlock(*old(if_block))) <= usize::MAX,
        ensures
            final(self)@ == check_stmt(old(self)@, Statement::IfBlock(*old(if_block))),
            stmt_annotated(old(self)@, Statement::IfBlock(*old(if_block)), Statement::IfBlock(*final(if_block))),
            final(self)@.scopes.len() == old(self)@.scopes.len(),
            index_advanced(old(self)@.index, final(self)@.index, stmt_weight(Statement::IfBlock(*old(if_block)))),
        decreases *old(if_block), 1nat,
    {
        let ghost s0 = self@;
        let ghost i0 = *if_block;
        let ghost cs0 = if_block.conditionals@;
        assert(conds_annotated(s0, cs0.take(0), if_block.conditionals@.take(0)));
        let n = if_block.conditionals.len();
        let mut k: usize = 0;
        while k < n
            invariant
                n == if_block.conditionals@.len(),
                n == cs0.len(),
                cs0 == i0.conditionals@,
                *old(if_block) == i0,
                k <= n,
                state_wf(self@),
                self@ == check_conditionals(s0, cs0.take(k as int)),
                self@.scopes.len() == s0.scopes.len(),
                index_advanced(s0.index, self@.index, conds_weight(cs0.take(k as int))),
                s0.index.last() + stmt_weight(Statement::IfBlock(i0)) <= usize::MAX,
                forall|j: int| k <= j < n ==> if_block.conditionals@[j] == cs0[j],
                if_block.else_block == i0.else_block,
                if_block.scoped_id == i0.scoped_id,
                if_block.source == i0.source,
                if_block.span == i0.span,
                conds_annotated(s0, cs0.take(k as int), if_block.conditionals@.take(k as int)),
            decreases n - k,
        {
            let ghost before = if_block.conditionals@;
            proof { lemma_conds_weight_take(cs0, k as int); }
            assert(decreases_to!(i0 => cs0[k as int].block)) by {
                assert(decreases_to!(i0 => i0.conditionals));
                assert(decreases_to!(i0.conditionals => cs0));
                assert(decreases_to!(cs0 => cs0[k as int]));
                assert(decreases_to!(cs0[k as int] => cs0[k as int].block));
            };
            self.check_expression(&mut if_block.conditionals[k].condition);
            self.check_block(&mut if_block.conditionals[k].block);
            assert(cs0.take(k + 1).drop_last() =~= cs0.take(k as int));
            assert(if_block.conditionals@.take(k + 1).drop_last() =~= before.take(k as int));
            assert(if_block.conditionals@.take(k as int) =~= before.take(k as int));
            k += 1;
        }
        assert(cs0.take(n as int) =~= cs0);
        assert(if_block.conditionals@.take(n as int) =~= if_block.conditionals@);
        match &mut if_block.else_block {
            Some(b) => {
                self.check_block(b);
            },
            None => {},
        }
    }
}

impl SymbolChecker {
    /// Checks a function declaration: reports a name already declared, then
    /// in a new scope and index level declares the parameters (reporting
    /// duplicates), declares the function globally under the index it was
    /// met at, and checks its statements; the index then moves past the
    /// function.
    pub fn check_fn_declaration(&mut self, fn_declaration: &mut BlockFnDeclaration)
        requires
            state_wf(old(self)@),
            old(self)@.index.last() + 1 <= usize::MAX,
            fn_weight(*old(fn_declaration)) <= usize::MAX,
        ensures
            final(self)@ == check_fn_decl(old(self)@, *old(fn_declaration)),
            fn_annotated(old(self)@, *old(fn_declaration), *final(fn_declaration)),
            final(self)@.scopes.len() == old(self)@.scopes.len(),
            index_advanced(old(self)@.index, final(self)@.index, 1),
    {
        let ghost s0 = self@;
        let ghost f0 = *fn_declaration;
        match self.lookup(fn_declaration.ident.name()) {
            Some(index) => {
                let found = match self.symbol_table.get(&index) {
                    Some(sym) => Some(one_token(sym.get_declaration())),
                    None => None,
                };
                if let Some(refs) = found {
                    let text = concat3("Function ", fn_declaration.ident.name(), " is already declared");
                    self.report(&fn_declaration.ident.token, refs, text);
                }
            },
            None => {},
        }
        let ghost s1 = self@;
        assert(s1 == check_fn_name(s0, f0));
        let fn_index = self.current_index.clone();
        let fn_symbol = DeclaredSymbol::from_fn_decl(&fn_declaration.ident.token, fn_declaration.params.as_slice());
        self.current_index.push();
        self.table_builder.new_scope();
        assert(self@ == enter_block(s1));
        let ghost s2 = self@;
        let ghost ps0 = fn_declaration.params@;
        assert(params_annotated(s2, ps0.take(0), fn_declaration.params@.take(0)));
        let n = fn_declaration.params.len();
        let mut k: usize = 0;
        while k < n
            invariant
                n == fn_declaration.params@.len(),
                n == ps0.len(),
                ps0 == f0.params@,
                k <= n,
                state_wf(self@),
                self@ == check_params(s2, ps0.take(k as int)),
                self@.scopes.len() == s2.scopes.len(),
                index_advanced(s2.index, self@.index, k as nat),
                s2.index.last() == 0,
                f0.params@.len() + block_weight(f0.block) <= usize::MAX,
                forall|j: int| k <= j < n ==> fn_declaration.params@[j] == ps0[j],
                fn_declaration.ident == f0.ident,
                fn_declaration.block == f0.block,
                fn_declaration.ret_ty == f0.ret_ty,
                fn_declaration.explicit_ret_ty == f0.explicit_ret_ty,
                fn_declaration.span == f0.span,
                params_annotated(s2, ps0.take(k as int), fn_declaration.params@.take(k as int)),
            decreases n - k,
        {
            let ghost before = fn_declaration.params@;
            proof { lemma_incremented(self@.index); }
            assert(ps0.take(k + 1).drop_last() =~= ps0.take(k as int));
            match self.lookup(fn_declaration.params[k].0.name()) {
                Some(declared_index) => {
                    let found = match self.symbol_table.get(&declared_index) {
                        Some(sym) => Some(one_token(sym.get_declaration())),
                        None => None,
                    };
                    if let Some(refs) = found {
                        let text = concat3("Argument ", fn_declaration.params[k].0.name(), " is already declared");
                        self.report(&fn_declaration.params[k].0.token, refs, text);
                    }
                },
                None => {
                    let sym = DeclaredSymbol::from_parameter(&fn_declaration.params[k].0.token);
                    let var_index = self.declare(fn_declaration.params[k].0.name(), sym);
                    fn_declaration.params[k].0.id = var_index;
                },
            }
            assert(fn_declaration.params@.take(k + 1).drop_last() =~= before.take(k as int));
            assert(fn_declaration.params@.take(k as int) =~= before.take(k as int));
            k += 1;
        }
        assert(ps0.take(n as int) =~= ps0);
        assert(fn_declaration.params@.take(n as int) =~= fn_declaration.params@);
        let ghost s3 = self@;
        self.table_builder.define_global(fn_declaration.ident.name().to_owned(), fn_index.clone());
        self.symbol_table.insert(fn_index.clone(), fn_symbol);
        fn_declaration.ident.id = fn_index;
        assert(self@ == declare_fn(s3, f0, s1.index));
        self.check_statements(&mut fn_declaration.block.statements);
        self.current_index.pop();
        self.table_builder.pop();
        assert(self@.index =~= s0.index);
        proof { lemma_incremented(s0.index); }
        self.current_index.increment();
    }

    /// Checks an item.
    pub fn check_item(&mut self, item: &mut Item)
        requires
            state_wf(old(self)@),
            old(self)@.index.last() + items_weight(seq![*old(item)]) <= usize::MAX,
        ensures
            final(self)@ == check_items(old(self)@, seq![*old(item)]),
            items_annotated(old(self)@, seq![*old(item)], seq![*final(item)]),
            final(self)@.scopes.len() == old(self)@.scopes.len(),
            index_advanced(old(self)@.index, final(self)@.index, items_weight(seq![*old(item)])),
    {
        let ghost s0 = self@;
        assert(seq![*old(item)].drop_last() =~= Seq::<Item>::empty());
        assert(check_items(s0, Seq::<Item>::empty()) == s0);
        assert(seq![*old(item)].last() == *old(item));
        assert(items_annotated(s0, Seq::<Item>::empty(), Seq::<Item>::empty()));
        match item {
            Item::BlockFnDeclaration(f) => self.check_fn_declaration(f),
            Item::Typedef(_) => {},
        }
        assert(seq![*item].drop_last() =~= Seq::<Item>::empty());
    }

    /// Checks a unit: its items in order, in a new scope.
    pub fn check_unit(&mut self, unit: &mut Unit)
        requires
            state_wf(old(self)@),
            old(self)@.index.last() + items_weight(old(unit).items@) <= usize::MAX,
        ensures
            final(self)@ == check_unit(old(self)@, *old(unit)),
            unit_annotated(old(self)@, *old(unit), *final(unit)),
            final(self)@.scopes.len() == old(self)@.scopes.len() + 1,
            index_advanced(old(self)@.index, final(self)@.index, items_weight(old(unit).items@)),
    {
        let ghost s0 = self@;
        self.table_builder.new_scope();
        let ghost s1 = self@;
        let ghost items0 = unit.items@;
        assert(items_annotated(s1, items0.take(0), unit.items@.take(0)));
        let n = unit.items.len();
        let mut k: usize = 0;
        while k < n
            invariant
                n == unit.items@.len(),
                n == items0.len(),
                items0 == old(unit).items@,
                k <= n,
                state_wf(self@),
                self@ == check_items(s1, items0.take(k as int)),
                self@.scopes.len() == s1.scopes.len(),
                s1.scopes.len() == s0.scopes.len() + 1,
                index_advanced(s0.index, self@.index, items_weight(items0.take(k as int))),
                s0.index.last() + items_weight(items0) <= usize::MAX,
                forall|j: int| k <= j < n ==> unit.items@[j] == items0[j],
                unit.span == old(unit).span,
                items_annotated(s1, items0.take(k as int), unit.items@.take(k as int)),
            decreases n - k,
        {
            let ghost before = unit.items@;
            proof { lemma_items_weight_take(items0, k as int); }
            assert(items0.take(k + 1).drop_last() =~= items0.take(k as int));
            assert(seq![items0[k as int]].drop_last() =~= Seq::<Item>::empty());
            match &mut unit.items[k] {
                Item::BlockFnDeclaration(f) => self.check_fn_declaration(f),
                Item::Typedef(_) => {},
            }
            assert(unit.items@.take(k + 1).drop_last() =~= before.take(k as int));
            assert(unit.items@.take(k as int) =~= before.take(k as int));
            k += 1;
        }
        assert(items0.take(n as int) =~= items0);
        assert(unit.items@.take(n as int) =~= unit.items@);
    }
}

/// The weight of the first `k + 1` items bounds that of the first `k` and
/// that of item `k`.
proof fn lemma_items_weight_take(items: Seq<Item>, k: int)
    requires
        0 <= k < items.len(),
    ensures
        items_weight(items.take(k + 1)) == items_weight(items.take(k)) + match items[k] {
            Item::BlockFnDeclaration(f) => 1 + fn_weight(f),
            Item::Typedef(_) => 0,
        },
        items_weight(items.take(k + 1)) <= items_weight(items),
    decreases items.len(),
{
    assert(items.take(k + 1).drop_last() =~= items.take(k));
    if k + 1 < items.len() {
        lemma_items_weight_take(items.drop_last(), k);
        assert(items.drop_last().take(k + 1) =~= items.take(k + 1));
        assert(items.drop_last().take(k) =~= items.take(k));
    } else {
        assert(items.take(k + 1) =~= items);
    }
}

/// The weight of the first `k + 1` statements bounds that of the first `k`
/// and the weight of statement `k`.
proof fn lemma_stmts_weight_take(sts: Seq<Statement>, k: int)
    requires
        0 <= k < sts.len(),
    ensures
        stmts_weight(sts.take(k + 1)) == stmts_weight(sts.take(k)) + stmt_weight(sts[k]),
        stmts_weight(sts.take(k + 1)) <= stmts_weight(sts),
    decreases sts.len(),
{
    assert(sts.take(k + 1).drop_last() =~= sts.take(k));
    if k + 1 < sts.len() {
        lemma_stmts_weight_take(sts.drop_last(), k);
        assert(sts.drop_last().take(k + 1) =~= sts.take(k + 1));
        assert(sts.drop_last().take(k) =~= sts.take(k));
    } else {
        assert(sts.take(k + 1) =~= sts);
    }
}

/// The weight of the first `k + 1` conditionals bounds that of the first `k`
/// and that of conditional `k`.
proof fn lemma_conds_weight_take(cs: Seq<crate::ast::Conditional>, k: int)
    requires
        0 <= k < cs.len(),
    ensures
        conds_weight(cs.take(k + 1)) == conds_weight(cs.take(k)) + 1 + block_weight(cs[k].block),
        conds_weight(cs.take(k + 1)) <= conds_weight(cs),
    decreases cs.len(),
{
    assert(cs.take(k + 1).drop_last() =~= cs.take(k));
    if k + 1 < cs.len() {
        lemma_conds_weight_take(cs.drop_last(), k);
        assert(cs.drop_last().take(k + 1) =~= cs.take(k + 1));
        assert(cs.drop_last().take(k) =~= cs.take(k));
    } else {
        assert(cs.take(k + 1) =~= cs);
    }
}

} // verus!
