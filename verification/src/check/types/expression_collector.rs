//! Collects type equations in expressions.
//!
//! Visiting an expression adds to the type environment the constraints that
//! its operators, conditions and assignments put on the types of their
//! operands, and leaves the `TypeId` of the expression's value as the
//! collector's current type.

use vstd::prelude::*;

use crate::ast::{
    Assignment, BinaryOperation, BinaryOperator, Block, BlockFnDeclaration, CallArgument, Declaration, Expression,
    FnCall, Identifier, IfExpression, Item, ScopedId, Statement, TypeExpression, UnaryOperation, Unit,
};
use crate::check::assoc::assoc_get;
use crate::check::scope::scope::spec_default_index;
use crate::check::types::environment::{
    ConstraintSource, ConstraintView, EnvironmentView, TypeConstraint, TypeEnvironment, TypeId, constraint_view,
    constraints_view, var_type_from,
};
use crate::check::types::identify::expr_checker::{args_size, expr_size};

verus! {

/// The id `TypeEnvironment::new` gives the number type `float`.
pub open spec fn float_type_id() -> u64 {
    1
}

/// The id `TypeEnvironment::new` gives the type `bool`.
pub open spec fn bool_type_id() -> u64 {
    2
}

/// What collecting reads and changes: the constraints, the last type id
/// handed out, and the type of the expression visited last.
pub ghost struct CollectView {
    pub constraints: Seq<(ConstraintView, ConstraintSource)>,
    pub curr_type_id: u64,
    pub expr_type: u64,
    /// The ids of the type names, which collecting only reads.
    pub type_defs: Seq<(Seq<usize>, u64)>,
}

/// The collecting state of an environment and a current type.
pub open spec fn collect_view(env: EnvironmentView, expr_type: u64) -> CollectView {
    CollectView {
        constraints: constraints_view(env.constraints),
        curr_type_id: env.curr_type_id,
        expr_type,
        type_defs: env.known_type_defs,
    }
}

/// The state with one more constraint.
pub open spec fn with_constraint(s: CollectView, c: ConstraintView, source: ConstraintSource) -> CollectView {
    CollectView { constraints: s.constraints.push((c, source)), ..s }
}

/// The state with `t` as the current type.
pub open spec fn with_type(s: CollectView, t: u64) -> CollectView {
    CollectView { expr_type: t, ..s }
}

/// The type of a variable, as the current type: the one a constraint gives
/// it, or else a new type id, with a constraint that the variable has it.
pub open spec fn var_or_declare(s: CollectView, var: Seq<usize>) -> CollectView {
    match var_type_from(s.constraints, var, 0) {
        Some(t) => with_type(s, t),
        None => {
            let t = (s.curr_type_id + 1) as u64;
            CollectView {
                constraints: s.constraints.push((ConstraintView::VarIdentKnownType(var, t), ConstraintSource::Unknown)),
                curr_type_id: t,
                expr_type: t,
                ..s
            }
        },
    }
}

/// The constraints of a binary operation on operands of types `l` and `r`:
/// `==` and `!=` take two values of one type, the other operators take
/// numbers.
pub open spec fn binop_constraints(l: u64, r: u64, op: BinaryOperator) -> Seq<(ConstraintView, ConstraintSource)> {
    match op {
        BinaryOperator::Equality | BinaryOperator::NonEquality => seq![
            (ConstraintView::TypesAreSame(l, r), ConstraintSource::EqualityOperator),
        ],
        _ => seq![
            (ConstraintView::TypesAreSame(l, float_type_id()), ConstraintSource::NumericOperator),
            (ConstraintView::TypesAreSame(r, float_type_id()), ConstraintSource::NumericOperator),
        ],
    }
}

/// The type of a binary operation's value: a boolean for `==`, `!=` and the
/// comparisons, a number for the arithmetic operators.
pub open spec fn binop_result_type(op: BinaryOperator) -> u64 {
    match op {
        BinaryOperator::Addition | BinaryOperator::Subtraction | BinaryOperator::Multiplication
        | BinaryOperator::Division | BinaryOperator::Modulus => float_type_id(),
        _ => bool_type_id(),
    }
}

/// The state after visiting `e`.
///
/// - A literal changes nothing.
/// - A variable's type is the one a constraint gives it, or a new one.
/// - A binary operation adds `binop_constraints` and has the type
///   `binop_result_type`.
/// - A unary operation's operand must be a number, as is its value.
/// - An `if` expression's condition must be a boolean, and its branches of
///   one type; its type is that of its second branch.
/// - An assignment's value must have the variable's type; its own type is
///   the unassigned id `0`.
/// - A call passes each argument's value to the named parameter, and its
///   value gets a new type, the function's return type.
pub open spec fn collect_expr(s: CollectView, e: Expression) -> CollectView
    decreases e,
{
    match e {
        Expression::Literal(_) => s,
        Expression::VariableRef(ident) => var_or_declare(s, ident.id@),
        Expression::BinaryOp(b) => {
            let s1 = collect_expr(s, *b.left);
            let s2 = collect_expr(s1, *b.right);
            CollectView {
                constraints: s2.constraints + binop_constraints(s1.expr_type, s2.expr_type, b.operator),
                expr_type: binop_result_type(b.operator),
                ..s2
            }
        },
        Expression::UnaryOp(u) => {
            let s1 = collect_expr(s, *u.expression);
            with_type(
                with_constraint(
                    s1,
                    ConstraintView::TypesAreSame(s1.expr_type, float_type_id()),
                    ConstraintSource::NumericOperator,
                ),
                float_type_id(),
            )
        },
        Expression::IfExpression(i) => {
            let s1 = collect_expr(s, *i.condition);
            let s2 = with_constraint(
                s1,
                ConstraintView::TypesAreSame(s1.expr_type, bool_type_id()),
                ConstraintSource::IfConditionalBool,
            );
            let s3 = collect_expr(s2, *i.true_expr);
            let s4 = collect_expr(s3, *i.else_expr);
            with_constraint(
                s4,
                ConstraintView::TypesAreSame(s3.expr_type, s4.expr_type),
                ConstraintSource::IfBranchesSame,
            )
        },
        Expression::Assignment(a) => {
            let s1 = var_or_declare(s, a.lvalue.id@);
            let s2 = collect_expr(s1, *a.rvalue);
            with_type(
                with_constraint(
                    s2,
                    ConstraintView::TypesAreSame(s1.expr_type, s2.expr_type),
                    ConstraintSource::VarAssignment,
                ),
                0,
            )
        },
        Expression::FnCall(f) => {
            let s1 = collect_args(s, f.lvalue.id@, f.args@);
            let ret = (s1.curr_type_id + 1) as u64;
            CollectView {
                constraints: s1.constraints.push(
                    (ConstraintView::TypeIsFnReturned(ret, f.lvalue.id@), ConstraintSource::FnSignature),
                ),
                curr_type_id: ret,
                expr_type: ret,
                ..s1
            }
        },
    }
}

/// The state after visiting the arguments `args` of a call of `fn_id`,
/// first to last.
pub open spec fn collect_args(s: CollectView, fn_id: Seq<usize>, args: Seq<CallArgument>) -> CollectView
    decreases args,
{
    if args.len() == 0 {
        s
    } else {
        let s1 = collect_args(s, fn_id, args.drop_last());
        let s2 = collect_expr(s1, args.last().value);
        with_constraint(
            s2,
            ConstraintView::ValueForFnArg(fn_id, args.last().param.id@, s2.expr_type),
            ConstraintSource::FnSignature,
        )
    }
}

/// The id of a declared type: that of a named type's definition, or the
/// unassigned id `0` for a name without one and for other type
/// expressions.
pub open spec fn declared_type(defs: Seq<(Seq<usize>, u64)>, te: TypeExpression) -> u64 {
    match te {
        TypeExpression::Named(n) => match assoc_get(defs, n.ident.id@) {
            Some(t) => t,
            None => 0,
        },
        _ => 0,
    }
}

/// The state after visiting a statement.
///
/// - A declaration gives its variable a new type id, which must be that of
///   the declared type, if one is written, and that of the value.
/// - A `do` block's statements are visited in order.
/// - `if` blocks and `return` statements add nothing.
pub open spec fn collect_stmt(s: CollectView, st: Statement) -> CollectView
    decreases st,
{
    match st {
        Statement::Expression(e) => collect_expr(s, e),
        Statement::Declaration(d) => {
            let t = (s.curr_type_id + 1) as u64;
            let s1 = CollectView {
                constraints: s.constraints.push(
                    (ConstraintView::VarIdentKnownType(d.ident.id@, t), ConstraintSource::Unknown),
                ),
                curr_type_id: t,
                ..s
            };
            let s2 = match d.type_decl {
                Some(te) => with_constraint(
                    s1,
                    ConstraintView::TypesAreSame(t, declared_type(s.type_defs, te)),
                    ConstraintSource::ExplicitVarDecl,
                ),
                None => s1,
            };
            let s3 = collect_expr(s2, *d.value);
            with_constraint(s3, ConstraintView::TypesAreSame(t, s3.expr_type), ConstraintSource::VarDeclValue)
        },
        Statement::DoBlock(d) => collect_block(s, *d.block),
        _ => s,
    }
}

/// The state after visiting statements, first to last.
pub open spec fn collect_stmts(s: CollectView, sts: Seq<Statement>) -> CollectView
    decreases sts,
{
    if sts.len() == 0 {
        s
    } else {
        collect_stmt(collect_stmts(s, sts.drop_last()), sts.last())
    }
}

/// The state after visiting a block's statements.
pub open spec fn collect_block(s: CollectView, b: Block) -> CollectView
    decreases b,
{
    collect_stmts(s, b.statements@)
}

/// The state after visiting the body of a function that has a `ScopedId`.
pub open spec fn collect_fn(s: CollectView, f: BlockFnDeclaration) -> CollectView {
    if f.ident.id@ == spec_default_index() {
        s
    } else {
        collect_block(s, f.block)
    }
}

/// The state after visiting the functions among `items`, first to last.
pub open spec fn collect_items(s: CollectView, items: Seq<Item>) -> CollectView
    decreases items.len(),
{
    if items.len() == 0 {
        s
    } else {
        let s1 = collect_items(s, items.drop_last());
        match items.last() {
            Item::BlockFnDeclaration(f) => collect_fn(s1, f),
            _ => s1,
        }
    }
}

/// The number of expressions and declarations in a statement.
pub open spec fn stmt_size(st: Statement) -> nat
    decreases st,
{
    match st {
        Statement::Expression(e) => expr_size(e),
        Statement::Declaration(d) => 1 + expr_size(*d.value),
        Statement::DoBlock(d) => block_size(*d.block),
        _ => 0,
    }
}

/// The number of expressions and declarations in statements.
pub open spec fn stmts_size(sts: Seq<Statement>) -> nat
    decreases sts,
{
    if sts.len() == 0 {
        0
    } else {
        stmts_size(sts.drop_last()) + stmt_size(sts.last())
    }
}

/// The number of expressions and declarations in a block.
pub open spec fn block_size(b: Block) -> nat
    decreases b,
{
    stmts_size(b.statements@)
}

/// The number of expressions and declarations in the functions of `items`.
pub open spec fn items_size(items: Seq<Item>) -> nat
    decreases items.len(),
{
    if items.len() == 0 {
        0
    } else {
        items_size(items.drop_last()) + match items.last() {
            Item::BlockFnDeclaration(f) => block_size(f.block),
            _ => 0,
        }
    }
}

/// Visiting an expression of size `size` hands out at most one new type id
/// for each of its expressions, keeps every constraint there was, and
/// changes nothing else.
pub open spec fn ids_within(env0: EnvironmentView, env1: EnvironmentView, size: nat) -> bool {
    &&& env0.curr_type_id <= env1.curr_type_id <= env0.curr_type_id + size
    &&& env1.known_types == env0.known_types
    &&& env1.known_type_defs == env0.known_type_defs
    &&& env0.constraints.len() <= env1.constraints.len()
    &&& forall|i: int| 0 <= i < env0.constraints.len() ==> #[trigger] env1.constraints[i] == env0.constraints[i]
}

proof fn lemma_args_size_prefix(args: Seq<CallArgument>, k: int)
    requires
        0 <= k <= args.len(),
    ensures
        args_size(args.take(k)) <= args_size(args),
    decreases args.len() - k,
{
    if k < args.len() {
        lemma_args_size_prefix(args, k + 1);
        assert(args.take(k + 1).drop_last() =~= args.take(k));
    } else {
        assert(args.take(k) =~= args);
    }
}

proof fn lemma_stmts_size_prefix(sts: Seq<Statement>, k: int)
    requires
        0 <= k <= sts.len(),
    ensures
        stmts_size(sts.take(k)) <= stmts_size(sts),
    decreases sts.len() - k,
{
    if k < sts.len() {
        lemma_stmts_size_prefix(sts, k + 1);
        assert(sts.take(k + 1).drop_last() =~= sts.take(k));
    } else {
        assert(sts.take(k) =~= sts);
    }
}

proof fn lemma_items_size_prefix(items: Seq<Item>, k: int)
    requires
        0 <= k <= items.len(),
    ensures
        items_size(items.take(k)) <= items_size(items),
    decreases items.len() - k,
{
    if k < items.len() {
        lemma_items_size_prefix(items, k + 1);
        assert(items.take(k + 1).drop_last() =~= items.take(k));
    } else {
        assert(items.take(k) =~= items);
    }
}

/// The id of a declared type: that of a named type's definition, or the
/// unassigned id for a name without one and for other type expressions.
fn declared_type_id(environment: &TypeEnvironment, type_decl: &TypeExpression) -> (t: TypeId)
    ensures
        t.value() == declared_type(environment@.known_type_defs, *type_decl),
{
    match type_decl {
        TypeExpression::Named(named) => match environment.get_type_def(&named.ident.id) {
            Some(t) => t,
            None => TypeId::default(),
        },
        _ => TypeId::default(),
    }
}

/// Adds a constraint to the environment.
fn push_constraint(environment: &mut TypeEnvironment, constraint: TypeConstraint, source: ConstraintSource)
    ensures
        collect_view(final(environment)@, 0) == with_constraint(
            collect_view(old(environment)@, 0),
            constraint_view(constraint),
            source,
        ),
        ids_within(old(environment)@, final(environment)@, 0),
{
    environment.add_constraint(constraint, source);
    assert(constraints_view(final(environment)@.constraints) =~= constraints_view(old(environment)@.constraints).push(
        (constraint_view(constraint), source),
    ));
}

/// The id `TypeEnvironment::new` gives `float`.
fn type_id_float() -> (t: TypeId)
    ensures
        t.value() == float_type_id(),
{
    TypeId::new(1)
}

/// The id `TypeEnvironment::new` gives `bool`.
fn type_id_bool() -> (t: TypeId)
    ensures
        t.value() == bool_type_id(),
{
    TypeId::new(2)
}

/// Collects the type equations of expressions into a `TypeEnvironment`.
pub struct ExpressionTypeCollector {
    /// The type of the expression visited last.
    expr_type: TypeId,
}

impl ExpressionTypeCollector {
    /// A collector whose current type is the unassigned id `0`.
    pub fn new() -> (c: ExpressionTypeCollector)
        ensures
            c.expr_type().value() == 0,
    {
        ExpressionTypeCollector { expr_type: TypeId::default() }
    }

    /// The type of the expression visited last.
    pub closed spec fn expr_type(&self) -> TypeId {
        self.expr_type
    }

    /// The type of the expression visited last.
    pub fn get_expr_type(&self) -> (t: TypeId)
        ensures
            t == self.expr_type(),
    {
        self.expr_type
    }

    /// Makes the type of a variable the current type: the one a constraint
    /// gives it, or else a new one.
    fn var_type(&mut self, environment: &mut TypeEnvironment, var: &ScopedId)
        requires
            old(environment)@.curr_type_id < u64::MAX,
        ensures
            collect_view(final(environment)@, final(self).expr_type().value()) == var_or_declare(
                collect_view(old(environment)@, old(self).expr_type().value()),
                var@,
            ),
            ids_within(old(environment)@, final(environment)@, 1),
    {
        match environment.get_type_id_of_var(var) {
            Some(known) => {
                self.expr_type = known;
            },
            None => {
                let ghost before = constraints_view(environment@.constraints);
                let id = var.clone();
                self.expr_type = environment.declare_var_new_type(id);
                assert(constraints_view(environment@.constraints) =~= before.push(
                    (ConstraintView::VarIdentKnownType(var@, self.expr_type.value()), ConstraintSource::Unknown),
                ));
            },
        }
    }

    /// Visits an expression.
    pub fn visit_expression(&mut self, environment: &mut TypeEnvironment, expr: &Expression)
        requires
            old(environment)@.curr_type_id + expr_size(*expr) < u64::MAX,
        ensures
            collect_view(final(environment)@, final(self).expr_type().value()) == collect_expr(
                collect_view(old(environment)@, old(self).expr_type().value()),
                *expr,
            ),
            ids_within(old(environment)@, final(environment)@, expr_size(*expr)),
        decreases *expr, 1nat,
    {
        match expr {
            Expression::Literal(_) => {},
            Expression::VariableRef(ident) => self.visit_var_ref(environment, ident),
            Expression::BinaryOp(b) => self.visit_binary_op(environment, b),
            Expression::UnaryOp(u) => self.visit_unary_op(environment, u),
            Expression::IfExpression(i) => self.visit_if_expr(environment, i),
            Expression::Assignment(a) => self.visit_assignment(environment, a),
            Expression::FnCall(f) => self.visit_fn_call(environment, f),
        }
    }

    /// A variable reference: its type is the variable's.
    pub fn visit_var_ref(&mut self, environment: &mut TypeEnvironment, ident: &Identifier)
        requires
            old(environment)@.curr_type_id < u64::MAX,
        ensures
            collect_view(final(environment)@, final(self).expr_type().value()) == collect_expr(
                collect_view(old(environment)@, old(self).expr_type().value()),
                Expression::VariableRef(*ident),
            ),
            ids_within(old(environment)@, final(environment)@, 1),
    {
        self.var_type(environment, &ident.id);
    }

    /// An `if` expression: its condition must be a boolean and its two
    /// branches of one type.
    pub fn visit_if_expr(&mut self, environment: &mut TypeEnvironment, if_expr: &IfExpression)
        requires
            old(environment)@.curr_type_id + expr_size(Expression::IfExpression(*if_expr)) < u64::MAX,
        ensures
            collect_view(final(environment)@, final(self).expr_type().value()) == collect_expr(
                collect_view(old(environment)@, old(self).expr_type().value()),
                Expression::IfExpression(*if_expr),
            ),
            ids_within(old(environment)@, final(environment)@, expr_size(Expression::IfExpression(*if_expr))),
        decreases *if_expr, 0nat,
    {
        self.visit_expression(environment, &if_expr.condition);
        let cond_ty = self.expr_type;
        push_constraint(environment, TypeConstraint::TypesAreSame(cond_ty, type_id_bool()), ConstraintSource::IfConditionalBool);
        self.visit_expression(environment, &if_expr.true_expr);
        let true_type_id = self.expr_type;
        self.visit_expression(environment, &if_expr.else_expr);
        let else_type_id = self.expr_type;
        push_constraint(environment, TypeConstraint::TypesAreSame(true_type_id, else_type_id), ConstraintSource::IfBranchesSame);
    }

    /// A unary operation: its operand and its value are numbers.
    pub fn visit_unary_op(&mut self, environment: &mut TypeEnvironment, un_op: &UnaryOperation)
        requires
            old(environment)@.curr_type_id + expr_size(Expression::UnaryOp(*un_op)) < u64::MAX,
        ensures
            collect_view(final(environment)@, final(self).expr_type().value()) == collect_expr(
                collect_view(old(environment)@, old(self).expr_type().value()),
                Expression::UnaryOp(*un_op),
            ),
            ids_within(old(environment)@, final(environment)@, expr_size(Expression::UnaryOp(*un_op))),
        decreases *un_op, 0nat,
    {
        self.visit_expression(environment, &un_op.expression);
        let inner_type_id = self.expr_type;
        let type_id_int = type_id_float();
        push_constraint(environment, TypeConstraint::TypesAreSame(inner_type_id, type_id_int), ConstraintSource::NumericOperator);
        self.expr_type = type_id_int;
    }

    /// A binary operation: `==` and `!=` take two values of one type and
    /// give a boolean, comparisons take numbers and give a boolean, and
    /// arithmetic takes and gives numbers.
    pub fn visit_binary_op(&mut self, environment: &mut TypeEnvironment, bin_op: &BinaryOperation)
        requires
            old(environment)@.curr_type_id + expr_size(Expression::BinaryOp(*bin_op)) < u64::MAX,
        ensures
            collect_view(final(environment)@, final(self).expr_type().value()) == collect_expr(
                collect_view(old(environment)@, old(self).expr_type().value()),
                Expression::BinaryOp(*bin_op),
            ),
            final(self).expr_type().value() == binop_result_type(bin_op.operator),
            ids_within(old(environment)@, final(environment)@, expr_size(Expression::BinaryOp(*bin_op))),
        decreases *bin_op, 0nat,
    {
        self.visit_expression(environment, &bin_op.left);
        let left_type_id = self.expr_type;
        self.visit_expression(environment, &bin_op.right);
        let right_type_id = self.expr_type;
        let ghost s2 = collect_view(environment@, right_type_id.value());
        match bin_op.operator {
            BinaryOperator::Equality | BinaryOperator::NonEquality => {
                push_constraint(
                    environment,
                    TypeConstraint::TypesAreSame(left_type_id, right_type_id),
                    ConstraintSource::EqualityOperator,
                );
                self.expr_type = type_id_bool();
            },
            BinaryOperator::LessThan | BinaryOperator::GreaterThan | BinaryOperator::GreaterThanEquals
            | BinaryOperator::LessThanEquals => {
                push_constraint(
                    environment,
                    TypeConstraint::TypesAreSame(left_type_id, type_id_float()),
                    ConstraintSource::NumericOperator,
                );
                push_constraint(
                    environment,
                    TypeConstraint::TypesAreSame(right_type_id, type_id_float()),
                    ConstraintSource::NumericOperator,
                );
                self.expr_type = type_id_bool();
            },
            _ => {
                push_constraint(
                    environment,
                    TypeConstraint::TypesAreSame(left_type_id, type_id_float()),
                    ConstraintSource::NumericOperator,
                );
                push_constraint(
                    environment,
                    TypeConstraint::TypesAreSame(right_type_id, type_id_float()),
                    ConstraintSource::NumericOperator,
                );
                self.expr_type = type_id_float();
            },
        }
        assert(constraints_view(environment@.constraints) =~= s2.constraints + binop_constraints(
            left_type_id.value(),
            right_type_id.value(),
            bin_op.operator,
        ));
    }

    /// A call: each argument's value is passed to its parameter, and the
    /// call's value gets a new type, the function's return type.
    pub fn visit_fn_call(&mut self, environment: &mut TypeEnvironment, fn_call: &FnCall)
        requires
            old(environment)@.curr_type_id + expr_size(Expression::FnCall(*fn_call)) < u64::MAX,
        ensures
            collect_view(final(environment)@, final(self).expr_type().value()) == collect_expr(
                collect_view(old(environment)@, old(self).expr_type().value()),
                Expression::FnCall(*fn_call),
            ),
            ids_within(old(environment)@, final(environment)@, expr_size(Expression::FnCall(*fn_call))),
        decreases *fn_call, 0nat,
    {
        let ghost s0 = collect_view(environment@, self.expr_type.value());
        let ghost env0 = environment@;
        let ghost args = fn_call.args@;
        let ghost fn_id = fn_call.lvalue.id@;
        let n = fn_call.args.len();
        let mut k: usize = 0;
        while k < n
            invariant
                n == args.len(),
                args == fn_call.args@,
                fn_id == fn_call.lvalue.id@,
                k <= n,
                collect_view(environment@, self.expr_type.value()) == collect_args(s0, fn_id, args.take(k as int)),
                ids_within(env0, environment@, args_size(args.take(k as int))),
                env0.curr_type_id + expr_size(Expression::FnCall(*fn_call)) < u64::MAX,
                expr_size(Expression::FnCall(*fn_call)) == 1 + args_size(args),
            decreases n - k,
        {
            proof {
                lemma_args_size_prefix(args, k + 1);
                assert(args.take(k + 1).drop_last() =~= args.take(k as int));
            }
            assert(decreases_to!(*fn_call => fn_call.args@[k as int].value)) by {
                assert(decreases_to!(*fn_call => fn_call.args));
                assert(decreases_to!(fn_call.args => fn_call.args@));
                assert(decreases_to!(fn_call.args@ => fn_call.args@[k as int]));
            };
            self.visit_expression(environment, &fn_call.args[k].value);
            let arg_expr_type = self.expr_type;
            push_constraint(
                environment,
                TypeConstraint::ValueForFnArg(fn_call.lvalue.id.clone(), fn_call.args[k].param.id.clone(), arg_expr_type),
                ConstraintSource::FnSignature,
            );
            k += 1;
        }
        assert(args.take(n as int) =~= args);
        let ret_type_id = environment.declare_new_type();
        push_constraint(environment, TypeConstraint::TypeIsFnReturned(ret_type_id, fn_call.lvalue.id.clone()), ConstraintSource::FnSignature);
        self.expr_type = ret_type_id;
    }

    /// A declaration: its variable gets a new type, which must be the
    /// declared type, if one is written, and that of its value.
    pub fn visit_declaration(&mut self, environment: &mut TypeEnvironment, decl: &Declaration)
        requires
            old(environment)@.curr_type_id + stmt_size(Statement::Declaration(*decl)) < u64::MAX,
        ensures
            collect_view(final(environment)@, final(self).expr_type().value()) == collect_stmt(
                collect_view(old(environment)@, old(self).expr_type().value()),
                Statement::Declaration(*decl),
            ),
            ids_within(old(environment)@, final(environment)@, stmt_size(Statement::Declaration(*decl))),
        decreases *decl, 0nat,
    {
        let ghost before = constraints_view(environment@.constraints);
        let var_type_id = environment.declare_var_new_type(decl.ident.id.clone());
        assert(constraints_view(environment@.constraints) =~= before.push(
            (ConstraintView::VarIdentKnownType(decl.ident.id@, var_type_id.value()), ConstraintSource::Unknown),
        ));
        match &decl.type_decl {
            Some(type_decl) => {
                let declared_type_id = declared_type_id(environment, type_decl);
                push_constraint(
                    environment,
                    TypeConstraint::TypesAreSame(var_type_id, declared_type_id),
                    ConstraintSource::ExplicitVarDecl,
                );
            },
            None => {},
        }
        self.visit_expression(environment, &decl.value);
        let expr_type_id = self.expr_type;
        push_constraint(environment, TypeConstraint::TypesAreSame(var_type_id, expr_type_id), ConstraintSource::VarDeclValue);
    }

    /// Visits a statement; `if` blocks and `return` statements add nothing.
    pub fn visit_statement(&mut self, environment: &mut TypeEnvironment, stmt: &Statement)
        requires
            old(environment)@.curr_type_id + stmt_size(*stmt) < u64::MAX,
        ensures
            collect_view(final(environment)@, final(self).expr_type().value()) == collect_stmt(
                collect_view(old(environment)@, old(self).expr_type().value()),
                *stmt,
            ),
            ids_within(old(environment)@, final(environment)@, stmt_size(*stmt)),
        decreases *stmt, 1nat,
    {
        match stmt {
            Statement::Expression(e) => self.visit_expression(environment, e),
            Statement::Declaration(d) => self.visit_declaration(environment, d),
            Statement::DoBlock(d) => self.visit_block(environment, &d.block),
            _ => {},
        }
    }

    /// Visits the statements of a block, first to last.
    pub fn visit_block(&mut self, environment: &mut TypeEnvironment, block: &Block)
        requires
            old(environment)@.curr_type_id + block_size(*block) < u64::MAX,
        ensures
            collect_view(final(environment)@, final(self).expr_type().value()) == collect_block(
                collect_view(old(environment)@, old(self).expr_type().value()),
                *block,
            ),
            ids_within(old(environment)@, final(environment)@, block_size(*block)),
        decreases *block, 0nat,
    {
        let ghost s0 = collect_view(environment@, self.expr_type.value());
        let ghost env0 = environment@;
        let ghost sts = block.statements@;
        let n = block.statements.len();
        let mut k: usize = 0;
        while k < n
            invariant
                n == sts.len(),
                sts == block.statements@,
                k <= n,
                collect_view(environment@, self.expr_type.value()) == collect_stmts(s0, sts.take(k as int)),
                ids_within(env0, environment@, stmts_size(sts.take(k as int))),
                env0.curr_type_id + block_size(*block) < u64::MAX,
                block_size(*block) == stmts_size(sts),
            decreases n - k,
        {
            proof {
                lemma_stmts_size_prefix(sts, k + 1);
                assert(sts.take(k + 1).drop_last() =~= sts.take(k as int));
            }
            assert(decreases_to!(*block => block.statements@[k as int])) by {
                assert(decreases_to!(*block => block.statements));
                assert(decreases_to!(block.statements => block.statements@));
                assert(decreases_to!(block.statements@ => block.statements@[k as int]));
            };
            self.visit_statement(environment, &block.statements[k]);
            k += 1;
        }
        assert(sts.take(n as int) =~= sts);
    }

    /// Visits the body of a function that has a `ScopedId`.
    pub fn visit_block_fn_decl(&mut self, environment: &mut TypeEnvironment, block_fn: &BlockFnDeclaration)
        requires
            old(environment)@.curr_type_id + block_size(block_fn.block) < u64::MAX,
        ensures
            collect_view(final(environment)@, final(self).expr_type().value()) == collect_fn(
                collect_view(old(environment)@, old(self).expr_type().value()),
                *block_fn,
            ),
            ids_within(old(environment)@, final(environment)@, block_size(block_fn.block)),
    {
        if block_fn.ident.id.is_default() {
            return;
        }
        self.visit_block(environment, &block_fn.block);
    }

    /// Visits the functions of a unit, first to last.
    pub fn visit_unit(&mut self, environment: &mut TypeEnvironment, unit: &Unit)
        requires
            old(environment)@.curr_type_id + items_size(unit.items@) < u64::MAX,
        ensures
            collect_view(final(environment)@, final(self).expr_type().value()) == collect_items(
                collect_view(old(environment)@, old(self).expr_type().value()),
                unit.items@,
            ),
            ids_within(old(environment)@, final(environment)@, items_size(unit.items@)),
    {
        let ghost s0 = collect_view(environment@, self.expr_type.value());
        let ghost env0 = environment@;
        let ghost items = unit.items@;
        let n = unit.items.len();
        let mut k: usize = 0;
        while k < n
            invariant
                n == items.len(),
                items == unit.items@,
                k <= n,
                collect_view(environment@, self.expr_type.value()) == collect_items(s0, items.take(k as int)),
                ids_within(env0, environment@, items_size(items.take(k as int))),
                env0.curr_type_id + items_size(items) < u64::MAX,
            decreases n - k,
        {
            proof {
                lemma_items_size_prefix(items, k + 1);
                assert(items.take(k + 1).drop_last() =~= items.take(k as int));
            }
            match &unit.items[k] {
                Item::BlockFnDeclaration(f) => self.visit_block_fn_decl(environment, f),
                _ => {},
            }
            k += 1;
        }
        assert(items.take(n as int) =~= items);
    }

    /// An assignment: the value must have the variable's type; the
    /// assignment itself has no type.
    pub fn visit_assignment(&mut self, environment: &mut TypeEnvironment, assignment: &Assignment)
        requires
            old(environment)@.curr_type_id + expr_size(Expression::Assignment(*assignment)) < u64::MAX,
        ensures
            collect_view(final(environment)@, final(self).expr_type().value()) == collect_expr(
                collect_view(old(environment)@, old(self).expr_type().value()),
                Expression::Assignment(*assignment),
            ),
            ids_within(old(environment)@, final(environment)@, expr_size(Expression::Assignment(*assignment))),
        decreases *assignment, 0nat,
    {
        self.var_type(environment, &assignment.lvalue.id);
        let lvalue_type_id = self.expr_type;
        self.visit_expression(environment, &assignment.rvalue);
        let rvalue_type_id = self.expr_type;
        push_constraint(environment, TypeConstraint::TypesAreSame(lvalue_type_id, rvalue_type_id), ConstraintSource::VarAssignment);
        self.expr_type = TypeId::default();
    }
}

} // verus!
