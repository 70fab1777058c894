//! Builds the `TypeGraph` using code within functions.
//!
//! Visiting an expression adds nodes for the types it involves and edges
//! for what each of them is inferred to be, and leaves the node of the
//! expression's own type as the checker's current type.

use vstd::prelude::*;

use petgraph::graph::NodeIndex;

use crate::ast::{
    Assignment, BinaryOperation, BinaryOperator, Block, BlockFnDeclaration, CallArgument, Conditional, Declaration, DoBlock,
    Expression, FnCall, Identifier, IfBlock, IfExpression, Literal, LiteralValue, Primitive, Return, Statement,
    TypeExpression, UnaryOperation,
};
use crate::check::assoc::{assoc_get, lemma_find_key};
use crate::check::collector::{CollectorView, ErrorCollector, with_error};
use crate::check::errors::{CheckerError, error_view, tokens_view};
use crate::check::scope::scope::spec_default_index;
use crate::check::symbol::checking::msg_unknown_fn;
use crate::check::types::environment::{TypeEnvironment, TypeId};
use crate::lex::Token;
use super::graph_ops::{first_node, index_of, node_ix};
use super::type_graph::{InferenceSource, SourceView, TypeGraph, TypeGraphView, TypeNodeView, ident_view, source_view};

verus! {

/// The graph with the node of the concrete type `t`, and that node: the
/// one it had, or a new one.
pub open spec fn with_concrete(g: TypeGraphView, t: TypeId) -> (TypeGraphView, int) {
    if g.type_nodes.contains_key(t.value()) {
        (g, g.type_nodes[t.value()])
    } else {
        (
            TypeGraphView {
                nodes: g.nodes.push(TypeNodeView::ConcreteType(t)),
                type_nodes: g.type_nodes.insert(t.value(), g.nodes.len() as int),
                ..g
            },
            g.nodes.len() as int,
        )
    }
}

/// The graph with the node of the variable `var`, and that node: the one it
/// had, or a new one.
pub open spec fn with_variable(g: TypeGraphView, var: Identifier) -> (TypeGraphView, int) {
    match assoc_get(g.variables, var.id@) {
        Some(known) => (g, known),
        None => (
            TypeGraphView {
                nodes: g.nodes.push(TypeNodeView::VariableType(var.id@)),
                variables: g.variables.push((var.id@, g.nodes.len() as int)),
                ..g
            },
            g.nodes.len() as int,
        ),
    }
}

/// The graph with a new expression node, and that node.
pub open spec fn with_expression(g: TypeGraphView) -> (TypeGraphView, int) {
    (TypeGraphView { nodes: g.nodes.push(TypeNodeView::Expression), ..g }, g.nodes.len() as int)
}

/// The graph with an edge from `a` to `b` for the reason `why`.
pub open spec fn with_edge(g: TypeGraphView, a: int, b: int, why: SourceView) -> TypeGraphView {
    TypeGraphView { edges: g.edges.push((a, b, why)), ..g }
}

/// The mathematical value of an `ExprTypeChecker`.
pub ghost struct ExprCheckView {
    /// The type of numbers.
    pub float_type: TypeId,
    /// The type of `true` and `false`.
    pub bool_type: TypeId,
    /// The type `()`.
    pub unit_type: TypeId,
    /// The node of the type of the expression visited last.
    pub current: int,
    /// The node of the return type of the function being visited.
    pub fn_return: int,
    /// The errors found so far.
    pub errors: CollectorView,
}

/// The checker with `ix` as its current type.
pub open spec fn with_current(c: ExprCheckView, ix: int) -> ExprCheckView {
    ExprCheckView { current: ix, ..c }
}

/// The number of expressions in `e`, itself included: visiting `e` adds
/// at most four nodes and four edges for each.
pub open spec fn expr_size(e: Expression) -> nat
    decreases e,
{
    1 + match e {
        Expression::BinaryOp(b) => expr_size(*b.left) + expr_size(*b.right),
        Expression::UnaryOp(u) => expr_size(*u.expression),
        Expression::IfExpression(i) => expr_size(*i.condition) + expr_size(*i.true_expr) + expr_size(*i.else_expr),
        Expression::Assignment(a) => expr_size(*a.rvalue),
        Expression::FnCall(f) => args_size(f.args@),
        _ => 0,
    }
}

/// The number of expressions in the values of call arguments.
pub open spec fn args_size(args: Seq<CallArgument>) -> nat
    decreases args,
{
    if args.len() == 0 {
        0
    } else {
        args_size(args.drop_last()) + expr_size(args.last().value)
    }
}

/// The edges that a binary operation adds, between its operands' nodes `l`
/// and `r` and its own node `op`.
pub open spec fn binop_edges(g: TypeGraphView, c: ExprCheckView, operator: BinaryOperator, l: int, r: int, op: int) -> TypeGraphView {
    match operator {
        BinaryOperator::Equality | BinaryOperator::NonEquality => {
            let (g1, b) = with_concrete(g, c.bool_type);
            with_edge(
                with_edge(g1, r, l, SourceView::EqualityOperator),
                op,
                b,
                SourceView::EqualityOperator,
            )
        },
        BinaryOperator::LessThan | BinaryOperator::GreaterThan | BinaryOperator::GreaterThanEquals
        | BinaryOperator::LessThanEquals => {
            let (g1, f) = with_concrete(g, c.float_type);
            let (g2, b) = with_concrete(g1, c.bool_type);
            with_edge(
                with_edge(
                    with_edge(g2, l, f, SourceView::NumericOperator),
                    r,
                    f,
                    SourceView::NumericOperator,
                ),
                op,
                b,
                SourceView::BooleanOperator,
            )
        },
        _ => {
            let (g1, f) = with_concrete(g, c.float_type);
            with_edge(
                with_edge(
                    with_edge(g1, l, f, SourceView::NumericOperator),
                    r,
                    f,
                    SourceView::NumericOperator,
                ),
                op,
                f,
                SourceView::NumericOperator,
            )
        },
    }
}

/// The graph and checker after visiting `e`.
///
/// - A literal's type is the primitive type of its value.
/// - A variable's type is its variable node; an identifier that was never
///   given a `ScopedId` changes nothing.
/// - A binary operation gets a new expression node; its operands are
///   inferred to be numbers for numeric operators and to be of one type for
///   `==` and `!=`, and its own node to be a number or a boolean.
/// - A unary operation's operand is inferred to be a number, as is a new
///   expression node; the operand's node stays the current type.
/// - An `if` expression gets a new expression node, which is inferred to
///   be the type of each branch; the second branch is inferred to be the
///   type of the first, and its condition to be a boolean.
/// - An assignment infers its value to have its variable's type; its type
///   is `()`. One to an identifier without a `ScopedId` changes nothing.
/// - A call of a function with no variable node is reported; otherwise its
///   arguments are visited and the call's value gets a new expression node.
///   The graph has no node for a parameter or a return type, so the
///   arguments' types and the call's type are not tied to the function.
pub open spec fn build_expr(g: TypeGraphView, c: ExprCheckView, e: Expression) -> (TypeGraphView, ExprCheckView)
    decreases e,
{
    match e {
        Expression::Literal(l) => {
            let t = match l.value {
                LiteralValue::Bool(_) => c.bool_type,
                LiteralValue::Float(_) => c.float_type,
                LiteralValue::Unit => c.unit_type,
            };
            let (g1, ix) = with_concrete(g, t);
            (g1, with_current(c, ix))
        },
        Expression::VariableRef(ident) => if ident.id@ == spec_default_index() {
            (g, c)
        } else {
            let (g1, ix) = with_variable(g, ident);
            (g1, with_current(c, ix))
        },
        Expression::BinaryOp(b) => {
            let (g1, c1) = build_expr(g, c, *b.left);
            let (g2, c2) = build_expr(g1, c1, *b.right);
            let (g3, op) = with_expression(g2);
            (binop_edges(g3, c2, b.operator, c1.current, c2.current, op), with_current(c2, op))
        },
        Expression::UnaryOp(u) => {
            let (g1, f) = with_concrete(g, c.float_type);
            let (g2, c2) = build_expr(g1, c, *u.expression);
            let g3 = with_edge(g2, c2.current, f, SourceView::NumericOperator);
            let (g4, un) = with_expression(g3);
            (with_edge(g4, un, f, SourceView::NumericOperator), c2)
        },
        Expression::IfExpression(i) => {
            let (g1, x) = with_expression(g);
            let (g2, c2) = build_expr(g1, c, *i.condition);
            let (g3, b) = with_concrete(g2, c2.bool_type);
            let g4 = with_edge(g3, c2.current, b, SourceView::IfConditionalBool);
            let (g5, c5) = build_expr(g4, c2, *i.true_expr);
            let (g6, c6) = build_expr(g5, c5, *i.else_expr);
            let g7 = with_edge(g6, c6.current, c5.current, SourceView::IfBranchesSame);
            let g8 = with_edge(g7, x, c5.current, SourceView::IfBranchesSame);
            (with_edge(g8, x, c6.current, SourceView::IfBranchesSame), with_current(c6, x))
        },
        Expression::Assignment(a) => if a.lvalue.id@ == spec_default_index() {
            (g, c)
        } else {
            let (g1, lv) = with_variable(g, a.lvalue);
            let (g2, c2) = build_expr(g1, c, *a.rvalue);
            let g3 = with_edge(g2, c2.current, lv, SourceView::Assignment);
            let (g4, u) = with_concrete(g3, c2.unit_type);
            (g4, with_current(c2, u))
        },
        Expression::FnCall(f) => if f.lvalue.id@ == spec_default_index() {
            (g, c)
        } else {
            match assoc_get(g.variables, f.lvalue.id@) {
                None => (
                    g,
                    ExprCheckView {
                        errors: with_error(
                            c.errors,
                            error_view(f.lvalue.token@, seq![], msg_unknown_fn(f.lvalue.token.text@)),
                        ),
                        ..c
                    },
                ),
                Some(_) => {
                    let (g1, c1) = build_args(g, c, f.args@);
                    let (g2, x) = with_expression(g1);
                    (g2, with_current(c1, x))
                },
            }
        },
    }
}

/// The graph and checker after visiting the values of `args`, first to
/// last.
pub open spec fn build_args(g: TypeGraphView, c: ExprCheckView, args: Seq<CallArgument>) -> (TypeGraphView, ExprCheckView)
    decreases args,
{
    if args.len() == 0 {
        (g, c)
    } else {
        let (g1, c1) = build_args(g, c, args.drop_last());
        build_expr(g1, c1, args.last().value)
    }
}

/// The graph can take what visiting an expression of size `size` adds, and
/// the current type is one of its nodes.
pub open spec fn room_for(g: TypeGraphView, c: ExprCheckView, size: nat) -> bool {
    &&& 0 <= c.current < g.nodes.len()
    &&& g.nodes.len() + 4 * size < u32::MAX
    &&& g.edges.len() + 4 * size < u32::MAX
}

/// What visiting an expression of size `size` leaves true: the graph only
/// grew, keeping every node and edge it had, by at most four nodes and
/// four edges for each expression, and the current type is one of its
/// nodes.
pub open spec fn grew_within(g0: TypeGraphView, g1: TypeGraphView, c1: ExprCheckView, size: nat) -> bool {
    &&& g0.nodes.len() <= g1.nodes.len() <= g0.nodes.len() + 4 * size
    &&& g0.edges.len() <= g1.edges.len() <= g0.edges.len() + 4 * size
    &&& 0 <= c1.current < g1.nodes.len()
    &&& forall|i: int| 0 <= i < g0.nodes.len() ==> #[trigger] g1.nodes[i] == g0.nodes[i]
    &&& forall|i: int| 0 <= i < g0.edges.len() ==> #[trigger] g1.edges[i] == g0.edges[i]
}


/// The id of the type a type expression names: a primitive's, or that of a
/// named type's definition among `defs`; none for a name without one or a
/// function type.
pub open spec fn resolve_type(defs: Seq<(Seq<usize>, u64)>, c: ExprCheckView, te: TypeExpression) -> Option<TypeId> {
    match te {
        TypeExpression::Primitive(Primitive::Int) => Some(c.float_type),
        TypeExpression::Primitive(Primitive::Bool) => Some(c.bool_type),
        TypeExpression::Primitive(Primitive::Unary) => Some(c.unit_type),
        TypeExpression::Named(n) => match assoc_get(defs, n.ident.id@) {
            Some(v) => Some(TypeId::of_value(v)),
            None => None,
        },
        TypeExpression::Function(_) => None,
    }
}

/// The graph and checker after visiting a statement, with type names
/// resolved by `defs`.
///
/// - A `return` makes the value's type, unless it is `()`, the function's
///   return type, or without a value the return type `()`; its own type
///   is `()`.
/// - A declaration's variable is inferred to be its declared type, where
///   one is written and known, and its value's type; its own type is `()`.
/// - An `if` block's conditions are booleans and its blocks are visited;
///   its type is `()`. One without a `ScopedId` changes nothing.
/// - A `do` block's statements are visited.
pub open spec fn build_stmt(g: TypeGraphView, c: ExprCheckView, defs: Seq<(Seq<usize>, u64)>, st: Statement) -> (
    TypeGraphView,
    ExprCheckView,
)
    decreases st,
{
    match st {
        Statement::Expression(e) => build_expr(g, c, e),
        Statement::Return(r) => build_return(g, c, r),
        Statement::Declaration(d) => {
            let (g1, v) = with_variable(g, d.ident);
            let g2 = match d.type_decl {
                Some(te) => match resolve_type(defs, c, te) {
                    Some(t) => {
                        let (ga, tx) = with_concrete(g1, t);
                        with_edge(ga, v, tx, SourceView::ExplicitDecl(ident_view(d.ident)))
                    },
                    None => g1,
                },
                None => g1,
            };
            let (g3, c3) = build_expr(g2, c, *d.value);
            let g4 = with_edge(g3, v, c3.current, SourceView::Declaration(ident_view(d.ident)));
            let (g5, u) = with_concrete(g4, c3.unit_type);
            (g5, with_current(c3, u))
        },
        Statement::DoBlock(d) => build_block(g, c, defs, *d.block),
        Statement::IfBlock(i) => if i.scoped_id@ == spec_default_index() {
            (g, c)
        } else {
            let (g1, _x) = with_expression(g);
            let (g2, b) = with_concrete(g1, c.bool_type);
            let (g3, c3) = build_conds(g2, c, defs, i.conditionals@, b);
            let (g4, c4) = match i.else_block {
                Some(bl) => build_block(g3, c3, defs, bl),
                None => (g3, c3),
            };
            let (g5, u) = with_concrete(g4, c4.unit_type);
            (g5, with_current(c4, u))
        },
    }
}

/// The graph and checker after visiting a `return`.
pub open spec fn build_return(g: TypeGraphView, c: ExprCheckView, r: Return) -> (TypeGraphView, ExprCheckView)
    decreases r,
{
    let (g1, u) = with_concrete(g, c.unit_type);
    let c1 = with_current(c, u);
    match r.value {
        Some(v) => {
            let (g2, c2) = build_expr(g1, c1, *v);
            if c2.current != u {
                (with_edge(g2, c2.current, c2.fn_return, SourceView::ExplicitReturn), c2)
            } else {
                (g2, c2)
            }
        },
        None => (with_edge(g1, c1.fn_return, u, SourceView::ExplicitReturn), c1),
    }
}

/// The graph and checker after visiting the conditionals of an `if`
/// block: each condition is inferred to be a boolean (node `b`), then the
/// current type is the first node and the block is visited.
pub open spec fn build_conds(
    g: TypeGraphView,
    c: ExprCheckView,
    defs: Seq<(Seq<usize>, u64)>,
    cs: Seq<Conditional>,
    b: int,
) -> (TypeGraphView, ExprCheckView)
    decreases cs,
{
    if cs.len() == 0 {
        (g, c)
    } else {
        let (g1, c1) = build_conds(g, c, defs, cs.drop_last(), b);
        let (g2, c2) = build_expr(g1, c1, cs.last().condition);
        let g3 = with_edge(g2, c2.current, b, SourceView::IfConditionalBool);
        build_block(g3, with_current(c2, 0), defs, cs.last().block)
    }
}

/// The graph and checker after visiting statements, first to last.
pub open spec fn build_stmts(g: TypeGraphView, c: ExprCheckView, defs: Seq<(Seq<usize>, u64)>, sts: Seq<Statement>) -> (
    TypeGraphView,
    ExprCheckView,
)
    decreases sts,
{
    if sts.len() == 0 {
        (g, c)
    } else {
        let (g1, c1) = build_stmts(g, c, defs, sts.drop_last());
        build_stmt(g1, c1, defs, sts.last())
    }
}

/// The graph and checker after visiting a block; one without a `ScopedId`
/// changes nothing.
pub open spec fn build_block(g: TypeGraphView, c: ExprCheckView, defs: Seq<(Seq<usize>, u64)>, b: Block) -> (
    TypeGraphView,
    ExprCheckView,
)
    decreases b,
{
    if b.scope_id@ == spec_default_index() {
        (g, c)
    } else {
        build_stmts(g, c, defs, b.statements@)
    }
}

/// The graph after giving each parameter its variable node, inferred to be
/// its type where that is known.
pub open spec fn build_params(
    g: TypeGraphView,
    c: ExprCheckView,
    defs: Seq<(Seq<usize>, u64)>,
    ps: Seq<(Identifier, TypeExpression)>,
) -> TypeGraphView
    decreases ps.len(),
{
    if ps.len() == 0 {
        g
    } else {
        let g1 = build_params(g, c, defs, ps.drop_last());
        let (ident, te) = ps.last();
        let (g2, p) = with_variable(g1, ident);
        match resolve_type(defs, c, te) {
            Some(t) => {
                let (g3, tx) = with_concrete(g2, t);
                with_edge(g3, p, tx, SourceView::FnParameter(ident_view(ident)))
            },
            None => g2,
        }
    }
}

/// The graph and checker after visiting a function with a `ScopedId` and
/// a known return type: the return type's node is the one `return`s use,
/// the function and its parameters get variable nodes, the block is
/// visited, and where the function returns a value, the value its block
/// ends with is inferred to be the function's. The graph has no node for
/// a function's own type.
pub open spec fn build_fn(g: TypeGraphView, c: ExprCheckView, defs: Seq<(Seq<usize>, u64)>, f: BlockFnDeclaration) -> (
    TypeGraphView,
    ExprCheckView,
) {
    if f.ident.id@ == spec_default_index() {
        (g, c)
    } else {
        match resolve_type(defs, c, f.ret_ty) {
            None => (g, c),
            Some(rt) => {
                let (g1, r) = with_concrete(g, rt);
                let c1 = ExprCheckView { fn_return: r, ..c };
                let (g2, fx) = with_variable(g1, f.ident);
                let g3 = build_params(g2, c1, defs, f.params@);
                let (g4, c4) = build_block(g3, c1, defs, f.block);
                if rt != c.unit_type {
                    (with_edge(g4, c4.current, fx, SourceView::FnReturnType(ident_view(f.ident))), c4)
                } else {
                    (g4, c4)
                }
            },
        }
    }
}

/// The number of expressions and statements in a statement.
pub open spec fn stmt_size(st: Statement) -> nat
    decreases st,
{
    1 + match st {
        Statement::Expression(e) => expr_size(e),
        Statement::Declaration(d) => expr_size(*d.value),
        Statement::Return(r) => match r.value {
            Some(v) => expr_size(*v),
            None => 0,
        },
        Statement::DoBlock(d) => block_size(*d.block),
        Statement::IfBlock(i) => conds_size(i.conditionals@) + match i.else_block {
            Some(b) => block_size(b),
            None => 0,
        },
    }
}

/// The number of expressions and statements in conditionals, one more for
/// each.
pub open spec fn conds_size(cs: Seq<Conditional>) -> nat
    decreases cs,
{
    if cs.len() == 0 {
        0
    } else {
        conds_size(cs.drop_last()) + 1 + expr_size(cs.last().condition) + block_size(cs.last().block)
    }
}

/// The number of expressions and statements in statements.
pub open spec fn stmts_size(sts: Seq<Statement>) -> nat
    decreases sts,
{
    if sts.len() == 0 {
        0
    } else {
        stmts_size(sts.drop_last()) + stmt_size(sts.last())
    }
}

/// The number of expressions and statements in a block.
pub open spec fn block_size(b: Block) -> nat
    decreases b,
{
    stmts_size(b.statements@)
}

/// The size of a function: its name, return type, parameters and block.
pub open spec fn fn_size(f: BlockFnDeclaration) -> nat {
    2 + f.params@.len() + block_size(f.block)
}

/// Room for visiting a statement: that of an expression, and the return
/// type's node is one of the graph's.
pub open spec fn stmt_room(g: TypeGraphView, c: ExprCheckView, size: nat) -> bool {
    &&& room_for(g, c, size)
    &&& 0 <= c.fn_return < g.nodes.len()
}

proof fn lemma_stmts_size_prefix(sts: Seq<Statement>, k: int)
    requires
        0 <= k <= sts.len(),
    ensures
        stmts_size(sts.take(k)) <= stmts_size(sts),
    decreases sts.len() - k,
{
    if k < sts.len() {
        lemma_stmts_size_prefix(sts, k + 1);
        assert(sts.take(k + 1).drop_last() =~= sts.take(k));
    } else {
        assert(sts.take(k) =~= sts);
    }
}

proof fn lemma_conds_size_prefix(cs: Seq<Conditional>, k: int)
    requires
        0 <= k <= cs.len(),
    ensures
        conds_size(cs.take(k)) <= conds_size(cs),
    decreases cs.len() - k,
{
    if k < cs.len() {
        lemma_conds_size_prefix(cs, k + 1);
        assert(cs.take(k + 1).drop_last() =~= cs.take(k));
    } else {
        assert(cs.take(k) =~= cs);
    }
}

/// In a graph whose variables' nodes are its nodes, a variable's node, old
/// or new, is one of the nodes after it was looked up or added.
proof fn lemma_variable_in_graph(g: TypeGraphView, var: Identifier)
    requires
        forall|i: int| 0 <= i < g.variables.len() ==> 0 <= #[trigger] g.variables[i].1 < g.nodes.len(),
    ensures
        0 <= with_variable(g, var).1 < with_variable(g, var).0.nodes.len(),
{
    lemma_find_key(g.variables, var.id@);
}

proof fn lemma_args_size_prefix(args: Seq<CallArgument>, k: int)
    requires
        0 <= k <= args.len(),
    ensures
        args_size(args.take(k)) <= args_size(args),
    decreases args.len() - k,
{
    if k < args.len() {
        lemma_args_size_prefix(args, k + 1);
        assert(args.take(k + 1).drop_last() =~= args.take(k));
    } else {
        assert(args.take(k) =~= args);
    }
}

/// Creates the type equations of the expressions in functions.
pub struct ExprTypeChecker {
    float_type: TypeId,
    bool_type: TypeId,
    unit_type: TypeId,
    current_type: NodeIndex<u32>,
    current_fn_return_type: NodeIndex<u32>,
    errors: ErrorCollector,
}

impl View for ExprTypeChecker {
    type V = ExprCheckView;

    closed spec fn view(&self) -> ExprCheckView {
        ExprCheckView {
            float_type: self.float_type,
            bool_type: self.bool_type,
            unit_type: self.unit_type,
            current: node_ix(self.current_type),
            fn_return: node_ix(self.current_fn_return_type),
            errors: self.errors@,
        }
    }
}

impl ExprTypeChecker {
    /// A checker that knows the ids of the primitive types, reports into
    /// `errors`, and has the first node as its current type.
    pub fn new(float_type: TypeId, bool_type: TypeId, unit_type: TypeId, errors: ErrorCollector) -> (c: ExprTypeChecker)
        ensures
            c@ == (ExprCheckView { float_type, bool_type, unit_type, current: 0, fn_return: 0, errors: errors@ }),
    {
        ExprTypeChecker {
            float_type,
            bool_type,
            unit_type,
            current_type: first_node(),
            current_fn_return_type: first_node(),
            errors,
        }
    }

    /// The node of the type of the expression visited last.
    pub fn current_type(&self) -> (ix: NodeIndex<u32>)
        ensures
            node_ix(ix) == self@.current,
    {
        self.current_type
    }

    /// The errors found, giving up the checker.
    pub fn into_errors(self) -> (e: ErrorCollector)
        ensures
            e@ == self@.errors,
    {
        self.errors
    }

    /// The node of a primitive type.
    fn primitive_type_ix(&self, graph: &mut TypeGraph, ty: TypeId) -> (ix: NodeIndex<u32>)
        requires
            old(graph).wf(),
            old(graph)@.nodes.len() < u32::MAX,
        ensures
            final(graph).wf(),
            (final(graph)@, node_ix(ix)) == with_concrete(old(graph)@, ty),
    {
        let ix = graph.add_concrete_type(ty);
        proof {
            if !old(graph)@.type_nodes.contains_key(ty.value()) {
                assert(final(graph)@ == with_concrete(old(graph)@, ty).0);
            }
        }
        ix
    }

    /// Visits an expression.
    pub fn visit_expression(&mut self, graph: &mut TypeGraph, expr: &Expression)
        requires
            old(graph).wf(),
            room_for(old(graph)@, old(self)@, expr_size(*expr)),
        ensures
            final(graph).wf(),
            (final(graph)@, final(self)@) == build_expr(old(graph)@, old(self)@, *expr),
            grew_within(old(graph)@, final(graph)@, final(self)@, expr_size(*expr)),
            final(self)@.fn_return == old(self)@.fn_return,
        decreases *expr, 1nat,
    {
        match expr {
            Expression::Literal(l) => self.visit_literal_expr(graph, l),
            Expression::VariableRef(ident) => self.visit_var_ref(graph, ident),
            Expression::BinaryOp(b) => self.visit_binary_op(graph, b),
            Expression::UnaryOp(u) => self.visit_unary_op(graph, u),
            Expression::IfExpression(i) => self.visit_if_expr(graph, i),
            Expression::Assignment(a) => self.visit_assignment(graph, a),
            Expression::FnCall(f) => self.visit_fn_call(graph, f),
        }
    }

    /// A literal: its type is that of its value.
    pub fn visit_literal_expr(&mut self, graph: &mut TypeGraph, literal: &Literal)
        requires
            old(graph).wf(),
            room_for(old(graph)@, old(self)@, 1),
        ensures
            final(graph).wf(),
            (final(graph)@, final(self)@) == build_expr(old(graph)@, old(self)@, Expression::Literal(*literal)),
            grew_within(old(graph)@, final(graph)@, final(self)@, 1),
            final(self)@.fn_return == old(self)@.fn_return,
    {
        let ty = match literal.value {
            LiteralValue::Bool(_) => self.bool_type,
            LiteralValue::Float(_) => self.float_type,
            LiteralValue::Unit => self.unit_type,
        };
        self.current_type = self.primitive_type_ix(graph, ty);
    }

    /// A variable reference: its type is the variable's node.
    pub fn visit_var_ref(&mut self, graph: &mut TypeGraph, ident: &Identifier)
        requires
            old(graph).wf(),
            room_for(old(graph)@, old(self)@, 1),
        ensures
            final(graph).wf(),
            (final(graph)@, final(self)@) == build_expr(old(graph)@, old(self)@, Expression::VariableRef(*ident)),
            grew_within(old(graph)@, final(graph)@, final(self)@, 1),
            final(self)@.fn_return == old(self)@.fn_return,
    {
        if ident.id.is_default() {
            return;
        }
        let ghost g0 = graph@;
        let var = ident.id.clone();
        assert(var@ == ident.id@);
        self.current_type = graph.add_variable(var);
        proof {
            lemma_variable_in_graph(old(graph)@, *ident);
            if assoc_get(g0.variables, ident.id@) is None {
                assert(graph@.nodes == g0.nodes.push(TypeNodeView::VariableType(ident.id@)));
                assert(graph@.variables == g0.variables.push((ident.id@, g0.nodes.len() as int)));
                assert(graph@ == with_variable(g0, *ident).0);
            }
        }
    }

    /// A binary operation: numeric operators take and give numbers,
    /// comparisons take numbers and give a boolean, `==` and `!=` take two
    /// values of one type and give a boolean.
    pub fn visit_binary_op(&mut self, graph: &mut TypeGraph, bin_op: &BinaryOperation)
        requires
            old(graph).wf(),
            room_for(old(graph)@, old(self)@, expr_size(Expression::BinaryOp(*bin_op))),
        ensures
            final(graph).wf(),
            (final(graph)@, final(self)@) == build_expr(old(graph)@, old(self)@, Expression::BinaryOp(*bin_op)),
            grew_within(old(graph)@, final(graph)@, final(self)@, expr_size(Expression::BinaryOp(*bin_op))),
            final(self)@.fn_return == old(self)@.fn_return,
        decreases *bin_op, 0nat,
    {
        let ghost g0 = graph@;
        let ghost c0 = self@;
        self.visit_expression(graph, &bin_op.left);
        let left_type = self.current_type;
        let ghost g1 = graph@;
        let ghost c1 = self@;
        self.visit_expression(graph, &bin_op.right);
        let right_type = self.current_type;
        let ghost g2 = graph@;
        let ghost c2 = self@;
        let binop_type = graph.add_expression();
        let ghost g3 = graph@;
        assert((g3, node_ix(binop_type)) == with_expression(g2));
        match bin_op.operator {
            BinaryOperator::Equality | BinaryOperator::NonEquality => {
                let bool_type = self.primitive_type_ix(graph, self.bool_type);
                graph.add_inference(right_type, left_type, InferenceSource::EqualityOperator);
                graph.add_inference(binop_type, bool_type, InferenceSource::EqualityOperator);
            },
            BinaryOperator::LessThan | BinaryOperator::GreaterThan | BinaryOperator::GreaterThanEquals
            | BinaryOperator::LessThanEquals => {
                let float_type = self.primitive_type_ix(graph, self.float_type);
                let bool_type = self.primitive_type_ix(graph, self.bool_type);
                graph.add_inference(left_type, float_type, InferenceSource::NumericOperator);
                graph.add_inference(right_type, float_type, InferenceSource::NumericOperator);
                graph.add_inference(binop_type, bool_type, InferenceSource::BooleanOperator);
            },
            _ => {
                let float_type = self.primitive_type_ix(graph, self.float_type);
                graph.add_inference(left_type, float_type, InferenceSource::NumericOperator);
                graph.add_inference(right_type, float_type, InferenceSource::NumericOperator);
                graph.add_inference(binop_type, float_type, InferenceSource::NumericOperator);
            },
        }
        self.current_type = binop_type;
        assert(graph@ == binop_edges(g3, c2, bin_op.operator, c1.current, c2.current, node_ix(binop_type)));
    }

    /// A unary operation: its operand must be a number.
    pub fn visit_unary_op(&mut self, graph: &mut TypeGraph, unary_op: &UnaryOperation)
        requires
            old(graph).wf(),
            room_for(old(graph)@, old(self)@, expr_size(Expression::UnaryOp(*unary_op))),
        ensures
            final(graph).wf(),
            (final(graph)@, final(self)@) == build_expr(old(graph)@, old(self)@, Expression::UnaryOp(*unary_op)),
            grew_within(old(graph)@, final(graph)@, final(self)@, expr_size(Expression::UnaryOp(*unary_op))),
            final(self)@.fn_return == old(self)@.fn_return,
        decreases *unary_op, 0nat,
    {
        let float_type = self.primitive_type_ix(graph, self.float_type);
        self.visit_expression(graph, &unary_op.expression);
        graph.add_inference(self.current_type, float_type, InferenceSource::NumericOperator);
        let unary_op_expr_ty = graph.add_expression();
        graph.add_inference(unary_op_expr_ty, float_type, InferenceSource::NumericOperator);
    }

    /// An `if` expression: its condition must be a boolean and its branches
    /// of one type, which is its own.
    pub fn visit_if_expr(&mut self, graph: &mut TypeGraph, if_expr: &IfExpression)
        requires
            old(graph).wf(),
            room_for(old(graph)@, old(self)@, expr_size(Expression::IfExpression(*if_expr))),
        ensures
            final(graph).wf(),
            (final(graph)@, final(self)@) == build_expr(old(graph)@, old(self)@, Expression::IfExpression(*if_expr)),
            grew_within(old(graph)@, final(graph)@, final(self)@, expr_size(Expression::IfExpression(*if_expr))),
            final(self)@.fn_return == old(self)@.fn_return,
        decreases *if_expr, 0nat,
    {
        let if_expr_ty = graph.add_expression();
        self.visit_expression(graph, &if_expr.condition);
        let bool_ty_ix = self.primitive_type_ix(graph, self.bool_type);
        graph.add_inference(self.current_type, bool_ty_ix, InferenceSource::IfConditionalBool);
        self.visit_expression(graph, &if_expr.true_expr);
        let left_ty_id = self.current_type;
        self.visit_expression(graph, &if_expr.else_expr);
        let right_ty_id = self.current_type;
        graph.add_inference(right_ty_id, left_ty_id, InferenceSource::IfBranchesSame);
        graph.add_inference(if_expr_ty, left_ty_id, InferenceSource::IfBranchesSame);
        graph.add_inference(if_expr_ty, right_ty_id, InferenceSource::IfBranchesSame);
        self.current_type = if_expr_ty;
    }

    /// An assignment: the value must have the variable's type; the
    /// assignment's type is `()`.
    pub fn visit_assignment(&mut self, graph: &mut TypeGraph, assign: &Assignment)
        requires
            old(graph).wf(),
            room_for(old(graph)@, old(self)@, expr_size(Expression::Assignment(*assign))),
        ensures
            final(graph).wf(),
            (final(graph)@, final(self)@) == build_expr(old(graph)@, old(self)@, Expression::Assignment(*assign)),
            grew_within(old(graph)@, final(graph)@, final(self)@, expr_size(Expression::Assignment(*assign))),
            final(self)@.fn_return == old(self)@.fn_return,
        decreases *assign, 0nat,
    {
        if assign.lvalue.id.is_default() {
            return;
        }
        let ghost g0 = graph@;
        let var = assign.lvalue.id.clone();
        assert(var@ == assign.lvalue.id@);
        let lvalue_type = graph.add_variable(var);
        proof {
            lemma_variable_in_graph(g0, assign.lvalue);
            if assoc_get(g0.variables, assign.lvalue.id@) is None {
                assert(graph@.nodes == g0.nodes.push(TypeNodeView::VariableType(assign.lvalue.id@)));
                assert(graph@.variables == g0.variables.push((assign.lvalue.id@, g0.nodes.len() as int)));
                assert(graph@ == with_variable(g0, assign.lvalue).0);
            }
        }
        self.visit_expression(graph, &assign.rvalue);
        graph.add_inference(self.current_type, lvalue_type, InferenceSource::Assignment);
        self.current_type = self.primitive_type_ix(graph, self.unit_type);
    }

    /// A call: the function must have a variable node; each argument's
    /// value is visited, and the call's value gets a new expression node.
    pub fn visit_fn_call(&mut self, graph: &mut TypeGraph, fn_call: &FnCall)
        requires
            old(graph).wf(),
            room_for(old(graph)@, old(self)@, expr_size(Expression::FnCall(*fn_call))),
        ensures
            final(graph).wf(),
            (final(graph)@, final(self)@) == build_expr(old(graph)@, old(self)@, Expression::FnCall(*fn_call)),
            grew_within(old(graph)@, final(graph)@, final(self)@, expr_size(Expression::FnCall(*fn_call))),
            final(self)@.fn_return == old(self)@.fn_return,
        decreases *fn_call, 0nat,
    {
        if fn_call.lvalue.id.is_default() {
            return;
        }
        match graph.get_variable(&fn_call.lvalue.id) {
            None => {
                let mut text = "Unknown function ".to_owned();
                text.append(fn_call.lvalue.name());
                let refs: Vec<Token> = Vec::new();
                assert(tokens_view(refs@) =~= Seq::<crate::lex::TokenView>::empty());
                self.errors.add_error(CheckerError::new(fn_call.lvalue.token.clone(), refs, text));
                return;
            },
            Some(_) => {},
        }
        let ghost g0 = graph@;
        let ghost c0 = self@;
        let ghost args = fn_call.args@;
        let n = fn_call.args.len();
        let mut k: usize = 0;
        while k < n
            invariant
                n == args.len(),
                args == fn_call.args@,
                k <= n,
                graph.wf(),
                (graph@, self@) == build_args(g0, c0, args.take(k as int)),
                grew_within(g0, graph@, self@, args_size(args.take(k as int))),
                room_for(g0, c0, expr_size(Expression::FnCall(*fn_call))),
                expr_size(Expression::FnCall(*fn_call)) == 1 + args_size(args),
                self@.fn_return == old(self)@.fn_return,
            decreases n - k,
        {
            proof {
                lemma_args_size_prefix(args, k + 1);
                assert(args.take(k + 1).drop_last() =~= args.take(k as int));
            }
            assert(decreases_to!(*fn_call => fn_call.args@[k as int].value)) by {
                assert(decreases_to!(*fn_call => fn_call.args));
                assert(decreases_to!(fn_call.args => fn_call.args@));
                assert(decreases_to!(fn_call.args@ => fn_call.args@[k as int]));
            };
            self.visit_expression(graph, &fn_call.args[k].value);
            k += 1;
        }
        assert(args.take(n as int) =~= args);
        self.current_type = graph.add_expression();
    }

    /// The node of the variable `ident`, made if there is none yet.
    fn variable_ix(&self, graph: &mut TypeGraph, ident: &Identifier) -> (ix: NodeIndex<u32>)
        requires
            old(graph).wf(),
            old(graph)@.nodes.len() < u32::MAX,
        ensures
            final(graph).wf(),
            (final(graph)@, node_ix(ix)) == with_variable(old(graph)@, *ident),
            0 <= node_ix(ix) < final(graph)@.nodes.len(),
    {
        let ghost g0 = graph@;
        let var = ident.id.clone();
        let ix = graph.add_variable(var);
        proof {
            lemma_variable_in_graph(g0, *ident);
            if assoc_get(g0.variables, ident.id@) is None {
                assert(graph@.nodes == g0.nodes.push(TypeNodeView::VariableType(ident.id@)));
                assert(graph@.variables == g0.variables.push((ident.id@, g0.nodes.len() as int)));
            }
        }
        ix
    }

    /// The type a type expression names, as `resolve_type` says.
    fn resolve(&self, types: &TypeEnvironment, te: &TypeExpression) -> (t: Option<TypeId>)
        ensures
            t == resolve_type(types@.known_type_defs, self@, *te),
    {
        match te {
            TypeExpression::Primitive(Primitive::Int) => Some(self.float_type),
            TypeExpression::Primitive(Primitive::Bool) => Some(self.bool_type),
            TypeExpression::Primitive(Primitive::Unary) => Some(self.unit_type),
            TypeExpression::Named(n) => match types.get_type_def(&n.ident.id) {
                Some(t) => {
                    proof {
                        TypeId::lemma_of_value(t);
                    }
                    Some(t)
                },
                None => None,
            },
            TypeExpression::Function(_) => None,
        }
    }

    /// Visits a statement.
    pub fn visit_statement(&mut self, graph: &mut TypeGraph, types: &TypeEnvironment, stmt: &Statement)
        requires
            old(graph).wf(),
            stmt_room(old(graph)@, old(self)@, stmt_size(*stmt)),
        ensures
            final(graph).wf(),
            (final(graph)@, final(self)@) == build_stmt(old(graph)@, old(self)@, types@.known_type_defs, *stmt),
            grew_within(old(graph)@, final(graph)@, final(self)@, stmt_size(*stmt)),
            final(self)@.fn_return == old(self)@.fn_return,
        decreases *stmt, 2nat,
    {
        match stmt {
            Statement::Expression(e) => self.visit_expression(graph, e),
            Statement::Declaration(d) => self.visit_declaration(graph, types, d),
            Statement::Return(r) => self.visit_return_stmt(graph, r),
            Statement::DoBlock(d) => self.visit_block(graph, types, &d.block),
            Statement::IfBlock(i) => self.visit_if_block(graph, types, i),
        }
    }

    /// A `return`: the value's type, unless it is `()`, is inferred to be
    /// the function's return type; without a value the return type is
    /// inferred to be `()`.
    pub fn visit_return_stmt(&mut self, graph: &mut TypeGraph, return_: &Return)
        requires
            old(graph).wf(),
            stmt_room(old(graph)@, old(self)@, stmt_size(Statement::Return(*return_))),
        ensures
            final(graph).wf(),
            (final(graph)@, final(self)@) == build_return(old(graph)@, old(self)@, *return_),
            grew_within(old(graph)@, final(graph)@, final(self)@, stmt_size(Statement::Return(*return_))),
            final(self)@.fn_return == old(self)@.fn_return,
        decreases *return_, 0nat,
    {
        let unit = self.primitive_type_ix(graph, self.unit_type);
        self.current_type = unit;
        match &return_.value {
            Some(value) => {
                self.visit_expression(graph, value);
                if index_of(self.current_type) != index_of(unit) {
                    graph.add_inference(self.current_type, self.current_fn_return_type, InferenceSource::ExplicitReturn);
                }
            },
            None => {
                graph.add_inference(self.current_fn_return_type, unit, InferenceSource::ExplicitReturn);
            },
        }
    }

    /// A declaration: the variable is inferred to be its declared type,
    /// where one is written and known, and its value's type.
    pub fn visit_declaration(&mut self, graph: &mut TypeGraph, types: &TypeEnvironment, decl: &Declaration)
        requires
            old(graph).wf(),
            stmt_room(old(graph)@, old(self)@, stmt_size(Statement::Declaration(*decl))),
        ensures
            final(graph).wf(),
            (final(graph)@, final(self)@) == build_stmt(
                old(graph)@,
                old(self)@,
                types@.known_type_defs,
                Statement::Declaration(*decl),
            ),
            grew_within(old(graph)@, final(graph)@, final(self)@, stmt_size(Statement::Declaration(*decl))),
            final(self)@.fn_return == old(self)@.fn_return,
        decreases *decl, 0nat,
    {
        let var_ix = self.variable_ix(graph, &decl.ident);
        match &decl.type_decl {
            Some(te) => match self.resolve(types, te) {
                Some(t) => {
                    let ty_ix = self.primitive_type_ix(graph, t);
                    let ident = decl.ident.clone();
                    assert(source_view(InferenceSource::ExplicitDecl(ident)) == SourceView::ExplicitDecl(ident_view(decl.ident)));
                    graph.add_inference(var_ix, ty_ix, InferenceSource::ExplicitDecl(ident));
                },
                None => {},
            },
            None => {},
        }
        self.visit_expression(graph, &decl.value);
        let ident = decl.ident.clone();
        assert(source_view(InferenceSource::Declaration(ident)) == SourceView::Declaration(ident_view(decl.ident)));
        graph.add_inference(var_ix, self.current_type, InferenceSource::Declaration(ident));
        self.current_type = self.primitive_type_ix(graph, self.unit_type);
    }

    /// An `if` block: each condition is inferred to be a boolean and each
    /// block is visited; the block's type is `()`.
    pub fn visit_if_block(&mut self, graph: &mut TypeGraph, types: &TypeEnvironment, if_block: &IfBlock)
        requires
            old(graph).wf(),
            stmt_room(old(graph)@, old(self)@, stmt_size(Statement::IfBlock(*if_block))),
        ensures
            final(graph).wf(),
            (final(graph)@, final(self)@) == build_stmt(
                old(graph)@,
                old(self)@,
                types@.known_type_defs,
                Statement::IfBlock(*if_block),
            ),
            grew_within(old(graph)@, final(graph)@, final(self)@, stmt_size(Statement::IfBlock(*if_block))),
            final(self)@.fn_return == old(self)@.fn_return,
        decreases *if_block, 1nat,
    {
        if if_block.scoped_id.is_default() {
            return;
        }
        let ghost g0 = graph@;
        let _expr_id = graph.add_expression();
        let bool_ty_ix = self.primitive_type_ix(graph, self.bool_type);
        let ghost g2 = graph@;
        let ghost c0 = self@;
        let ghost defs = types@.known_type_defs;
        let ghost cs = if_block.conditionals@;
        let ghost size = stmt_size(Statement::IfBlock(*if_block));
        let n = if_block.conditionals.len();
        let mut k: usize = 0;
        while k < n
            invariant
                n == cs.len(),
                cs == if_block.conditionals@,
                defs == types@.known_type_defs,
                k <= n,
                graph.wf(),
                (graph@, self@) == build_conds(g2, c0, defs, cs.take(k as int), node_ix(bool_ty_ix)),
                grew_within(g2, graph@, self@, conds_size(cs.take(k as int))),
                self@.fn_return == c0.fn_return,
                0 <= c0.fn_return < g2.nodes.len(),
                0 <= node_ix(bool_ty_ix) < g2.nodes.len(),
                g2.nodes.len() <= g0.nodes.len() + 2,
                g2.edges.len() == g0.edges.len(),
                g0.nodes.len() + 4 * size < u32::MAX,
                g0.edges.len() + 4 * size < u32::MAX,
                size == 1 + conds_size(cs) + match if_block.else_block {
                    Some(b) => block_size(b),
                    None => 0,
                },
                forall|i: int| 0 <= i < g0.nodes.len() ==> #[trigger] g2.nodes[i] == g0.nodes[i],
            decreases n - k,
        {
            proof {
                lemma_conds_size_prefix(cs, k + 1);
                assert(cs.take(k + 1).drop_last() =~= cs.take(k as int));
                assert(cs.take(k + 1).last() == cs[k as int]);
            }
            assert(decreases_to!(*if_block => if_block.conditionals@[k as int].block)) by {
                assert(decreases_to!(*if_block => if_block.conditionals));
                assert(decreases_to!(if_block.conditionals => if_block.conditionals@));
                assert(decreases_to!(if_block.conditionals@ => if_block.conditionals@[k as int]));
                assert(decreases_to!(if_block.conditionals@[k as int] => if_block.conditionals@[k as int].block));
            };
            self.visit_expression(graph, &if_block.conditionals[k].condition);
            graph.add_inference(self.current_type, bool_ty_ix, InferenceSource::IfConditionalBool);
            self.current_type = first_node();
            self.visit_block(graph, types, &if_block.conditionals[k].block);
            k += 1;
        }
        assert(cs.take(n as int) =~= cs);
        match &if_block.else_block {
            Some(block) => self.visit_block(graph, types, block),
            None => {},
        }
        self.current_type = self.primitive_type_ix(graph, self.unit_type);
    }

    /// Visits the statements of a block, first to last; a block without a
    /// `ScopedId` is skipped.
    pub fn visit_block(&mut self, graph: &mut TypeGraph, types: &TypeEnvironment, block: &Block)
        requires
            old(graph).wf(),
            stmt_room(old(graph)@, old(self)@, block_size(*block)),
        ensures
            final(graph).wf(),
            (final(graph)@, final(self)@) == build_block(old(graph)@, old(self)@, types@.known_type_defs, *block),
            grew_within(old(graph)@, final(graph)@, final(self)@, block_size(*block)),
            final(self)@.fn_return == old(self)@.fn_return,
        decreases *block, 0nat,
    {
        if block.scope_id.is_default() {
            return;
        }
        let ghost g0 = graph@;
        let ghost c0 = self@;
        let ghost defs = types@.known_type_defs;
        let ghost sts = block.statements@;
        let n = block.statements.len();
        let mut k: usize = 0;
        while k < n
            invariant
                n == sts.len(),
                sts == block.statements@,
                defs == types@.known_type_defs,
                k <= n,
                graph.wf(),
                (graph@, self@) == build_stmts(g0, c0, defs, sts.take(k as int)),
                grew_within(g0, graph@, self@, stmts_size(sts.take(k as int))),
                self@.fn_return == c0.fn_return,
                stmt_room(g0, c0, block_size(*block)),
                block_size(*block) == stmts_size(sts),
            decreases n - k,
        {
            proof {
                lemma_stmts_size_prefix(sts, k + 1);
                assert(sts.take(k + 1).drop_last() =~= sts.take(k as int));
            }
            assert(decreases_to!(*block => block.statements@[k as int])) by {
                assert(decreases_to!(*block => block.statements));
                assert(decreases_to!(block.statements => block.statements@));
                assert(decreases_to!(block.statements@ => block.statements@[k as int]));
            };
            self.visit_statement(graph, types, &block.statements[k]);
            k += 1;
        }
        assert(sts.take(n as int) =~= sts);
    }

    /// A function with a `ScopedId` and a known return type: `return`s in
    /// it use the return type's node, the function and its parameters get
    /// variable nodes, each parameter is inferred to be its type where that
    /// is known, the block is visited, and where the function returns a
    /// value, the value its block ends with is inferred to be the
    /// function's.
    pub fn visit_block_fn_decl(&mut self, graph: &mut TypeGraph, types: &TypeEnvironment, block_fn: &BlockFnDeclaration)
        requires
            old(graph).wf(),
            room_for(old(graph)@, old(self)@, fn_size(*block_fn)),
        ensures
            final(graph).wf(),
            (final(graph)@, final(self)@) == build_fn(old(graph)@, old(self)@, types@.known_type_defs, *block_fn),
            grew_within(old(graph)@, final(graph)@, final(self)@, fn_size(*block_fn)),
    {
        if block_fn.ident.id.is_default() {
            return;
        }
        let rt = match self.resolve(types, &block_fn.ret_ty) {
            Some(t) => t,
            None => {
                return;
            },
        };
        let need_ret_value = rt != self.unit_type;
        self.current_fn_return_type = self.primitive_type_ix(graph, rt);
        let fn_ix = self.variable_ix(graph, &block_fn.ident);
        let ghost g2 = graph@;
        let ghost c1 = self@;
        let ghost defs = types@.known_type_defs;
        let ghost ps = block_fn.params@;
        let n = block_fn.params.len();
        let mut k: usize = 0;
        while k < n
            invariant
                n == ps.len(),
                ps == block_fn.params@,
                defs == types@.known_type_defs,
                k <= n,
                graph.wf(),
                self@ == c1,
                graph@ == build_params(g2, c1, defs, ps.take(k as int)),
                grew_within(g2, graph@, self@, k as nat),
                0 <= node_ix(fn_ix) < g2.nodes.len(),
                0 <= c1.fn_return < g2.nodes.len(),
                g2.nodes.len() + 4 * (n + block_size(block_fn.block)) < u32::MAX,
                g2.edges.len() + 4 * (n + 1 + block_size(block_fn.block)) < u32::MAX,
            decreases n - k,
        {
            proof {
                assert(ps.take(k + 1).drop_last() =~= ps.take(k as int));
                assert(ps.take(k + 1).last() == ps[k as int]);
            }
            let param_ident = &block_fn.params[k].0;
            let param_ix = self.variable_ix(graph, param_ident);
            match self.resolve(types, &block_fn.params[k].1) {
                Some(t) => {
                    let ty_ix = self.primitive_type_ix(graph, t);
                    let ident = param_ident.clone();
                    assert(source_view(InferenceSource::FnParameter(ident)) == SourceView::FnParameter(ident_view(*param_ident)));
                    graph.add_inference(param_ix, ty_ix, InferenceSource::FnParameter(ident));
                },
                None => {},
            }
            k += 1;
        }
        assert(ps.take(n as int) =~= ps);
        self.visit_block(graph, types, &block_fn.block);
        if need_ret_value {
            let ident = block_fn.ident.clone();
            assert(source_view(InferenceSource::FnReturnType(ident)) == SourceView::FnReturnType(ident_view(block_fn.ident)));
            graph.add_inference(self.current_type, fn_ix, InferenceSource::FnReturnType(ident));
        }
    }
}

/// Every variable node entry and every edge of `g0` stands at the same
/// place in `g1`.
pub open spec fn graph_kept(g0: TypeGraphView, g1: TypeGraphView) -> bool {
    &&& g0.variables.len() <= g1.variables.len()
    &&& forall|k: int| 0 <= k < g0.variables.len() ==> #[trigger] g1.variables[k] == g0.variables[k]
    &&& g0.edges.len() <= g1.edges.len()
    &&& forall|k: int| 0 <= k < g0.edges.len() ==> #[trigger] g1.edges[k] == g0.edges[k]
}

/// The variable `var` has a node in `g`.
pub open spec fn has_variable(g: TypeGraphView, var: Seq<usize>) -> bool {
    exists|k: int| 0 <= k < g.variables.len() && #[trigger] g.variables[k].0 == var
}

/// The variable `ident` has a node in `g` with a `Declaration` edge from it.
pub open spec fn has_declaration_edge(g: TypeGraphView, ident: Identifier) -> bool {
    exists|k: int, m: int|
        0 <= k < g.edges.len() && 0 <= m < g.variables.len() && #[trigger] g.variables[m].0 == ident.id@
            && #[trigger] g.edges[k].0 == g.variables[m].1 && g.edges[k].2 == SourceView::Declaration(
            ident_view(ident),
        )
}

proof fn lemma_with_variable_has(g: TypeGraphView, ident: Identifier)
    ensures
        graph_kept(g, with_variable(g, ident).0),
        has_variable(with_variable(g, ident).0, ident.id@),
        exists|m: int|
            0 <= m < with_variable(g, ident).0.variables.len() && #[trigger] with_variable(g, ident).0.variables[m]
                == (ident.id@, with_variable(g, ident).1),
{
    lemma_find_key(g.variables, ident.id@);
    let g1 = with_variable(g, ident).0;
    match crate::check::assoc::find_key(g.variables, ident.id@) {
        Some(k) => {
            assert(g1.variables[k].0 == ident.id@);
            assert(g1.variables[k] == (ident.id@, with_variable(g, ident).1));
        },
        None => {
            assert(g1.variables[g.variables.len() as int].0 == ident.id@);
            assert(g1.variables[g.variables.len() as int] == (ident.id@, with_variable(g, ident).1));
        },
    }
}

proof fn lemma_kept_declaration_edge(g0: TypeGraphView, g1: TypeGraphView, ident: Identifier)
    requires
        graph_kept(g0, g1),
        has_declaration_edge(g0, ident),
    ensures
        has_declaration_edge(g1, ident),
{
    let (k, m) = choose|k: int, m: int|
        0 <= k < g0.edges.len() && 0 <= m < g0.variables.len() && #[trigger] g0.variables[m].0 == ident.id@
            && #[trigger] g0.edges[k].0 == g0.variables[m].1 && g0.edges[k].2 == SourceView::Declaration(
            ident_view(ident),
        );
    assert(g1.variables[m] == g0.variables[m]);
    assert(g1.edges[k] == g0.edges[k]);
}

proof fn lemma_kept_has(g0: TypeGraphView, g1: TypeGraphView, var: Seq<usize>)
    requires
        graph_kept(g0, g1),
        has_variable(g0, var),
    ensures
        has_variable(g1, var),
{
    let k = choose|k: int| 0 <= k < g0.variables.len() && #[trigger] g0.variables[k].0 == var;
    assert(g1.variables[k].0 == var);
}

proof fn lemma_expr_vars(g: TypeGraphView, c: ExprCheckView, e: Expression)
    ensures
        graph_kept(g, build_expr(g, c, e).0),
    decreases e,
{
    match e {
        Expression::VariableRef(ident) => {
            if ident.id@ != spec_default_index() {
                lemma_with_variable_has(g, ident);
            }
        },
        Expression::BinaryOp(b) => {
            let (g1, c1) = build_expr(g, c, *b.left);
            lemma_expr_vars(g, c, *b.left);
            lemma_expr_vars(g1, c1, *b.right);
        },
        Expression::UnaryOp(u) => {
            let (g1, f) = with_concrete(g, c.float_type);
            lemma_expr_vars(g1, c, *u.expression);
        },
        Expression::IfExpression(i) => {
            let (g1, x) = with_expression(g);
            let (g2, c2) = build_expr(g1, c, *i.condition);
            lemma_expr_vars(g1, c, *i.condition);
            let (g3, b) = with_concrete(g2, c2.bool_type);
            let g4 = with_edge(g3, c2.current, b, SourceView::IfConditionalBool);
            let (g5, c5) = build_expr(g4, c2, *i.true_expr);
            lemma_expr_vars(g4, c2, *i.true_expr);
            lemma_expr_vars(g5, c5, *i.else_expr);
        },
        Expression::Assignment(a) => {
            if a.lvalue.id@ != spec_default_index() {
                lemma_with_variable_has(g, a.lvalue);
                let (g1, lv) = with_variable(g, a.lvalue);
                lemma_expr_vars(g1, c, *a.rvalue);
            }
        },
        Expression::FnCall(f) => {
            if f.lvalue.id@ != spec_default_index() {
                if assoc_get(g.variables, f.lvalue.id@) is Some {
                    lemma_args_vars(g, c, f.args@);
                }
            }
        },
        _ => {},
    }
}

proof fn lemma_args_vars(g: TypeGraphView, c: ExprCheckView, args: Seq<CallArgument>)
    ensures
        graph_kept(g, build_args(g, c, args).0),
    decreases args,
{
    if args.len() > 0 {
        lemma_args_vars(g, c, args.drop_last());
        let (g1, c1) = build_args(g, c, args.drop_last());
        lemma_expr_vars(g1, c1, args.last().value);
    }
}

proof fn lemma_stmt_vars(g: TypeGraphView, c: ExprCheckView, defs: Seq<(Seq<usize>, u64)>, st: Statement)
    ensures
        graph_kept(g, build_stmt(g, c, defs, st).0),
        st matches Statement::Declaration(d) ==> has_variable(build_stmt(g, c, defs, st).0, d.ident.id@),
        st matches Statement::Declaration(d) ==> has_declaration_edge(build_stmt(g, c, defs, st).0, d.ident),
    decreases st,
{
    match st {
        Statement::Expression(e) => lemma_expr_vars(g, c, e),
        Statement::Return(r) => {
            let (g1, u) = with_concrete(g, c.unit_type);
            if let Some(v) = r.value {
                lemma_expr_vars(g1, with_current(c, u), *v);
            }
        },
        Statement::Declaration(d) => {
            lemma_with_variable_has(g, d.ident);
            let (g1, v) = with_variable(g, d.ident);
            let g2 = match d.type_decl {
                Some(te) => match resolve_type(defs, c, te) {
                    Some(t) => {
                        let (ga, tx) = with_concrete(g1, t);
                        with_edge(ga, v, tx, SourceView::ExplicitDecl(ident_view(d.ident)))
                    },
                    None => g1,
                },
                None => g1,
            };
            lemma_expr_vars(g2, c, *d.value);
            let (g3, c3) = build_expr(g2, c, *d.value);
            lemma_kept_has(g1, g3, d.ident.id@);
            lemma_kept_has(g3, build_stmt(g, c, defs, st).0, d.ident.id@);
            let m = choose|m: int| 0 <= m < g1.variables.len() && #[trigger] g1.variables[m] == (d.ident.id@, v);
            assert(g2.variables[m] == g1.variables[m]);
            assert(g3.variables[m] == (d.ident.id@, v));
            let g4 = with_edge(g3, v, c3.current, SourceView::Declaration(ident_view(d.ident)));
            let k = g3.edges.len() as int;
            assert(g4.edges[k] == (v, c3.current, SourceView::Declaration(ident_view(d.ident))));
            assert(g4.variables[m].0 == d.ident.id@ && g4.edges[k].0 == g4.variables[m].1);
            assert(has_declaration_edge(g4, d.ident));
            let g5 = with_concrete(g4, c3.unit_type).0;
            lemma_kept_declaration_edge(g4, g5, d.ident);
        },
        Statement::DoBlock(d) => lemma_block_vars(g, c, defs, *d.block),
        Statement::IfBlock(i) => {
            if i.scoped_id@ != spec_default_index() {
                let (g1, _x) = with_expression(g);
                let (g2, b) = with_concrete(g1, c.bool_type);
                lemma_conds_vars(g2, c, defs, i.conditionals@, b);
                let (g3, c3) = build_conds(g2, c, defs, i.conditionals@, b);
                if let Some(bl) = i.else_block {
                    lemma_block_vars(g3, c3, defs, bl);
                }
            }
        },
    }
}

proof fn lemma_conds_vars(g: TypeGraphView, c: ExprCheckView, defs: Seq<(Seq<usize>, u64)>, cs: Seq<Conditional>, b: int)
    ensures
        graph_kept(g, build_conds(g, c, defs, cs, b).0),
    decreases cs,
{
    if cs.len() > 0 {
        lemma_conds_vars(g, c, defs, cs.drop_last(), b);
        let (g1, c1) = build_conds(g, c, defs, cs.drop_last(), b);
        lemma_expr_vars(g1, c1, cs.last().condition);
        let (g2, c2) = build_expr(g1, c1, cs.last().condition);
        let g3 = with_edge(g2, c2.current, b, SourceView::IfConditionalBool);
        lemma_block_vars(g3, with_current(c2, 0), defs, cs.last().block);
    }
}

proof fn lemma_stmts_vars(g: TypeGraphView, c: ExprCheckView, defs: Seq<(Seq<usize>, u64)>, sts: Seq<Statement>)
    ensures
        graph_kept(g, build_stmts(g, c, defs, sts).0),
    decreases sts,
{
    if sts.len() > 0 {
        lemma_stmts_vars(g, c, defs, sts.drop_last());
        let (g1, c1) = build_stmts(g, c, defs, sts.drop_last());
        lemma_stmt_vars(g1, c1, defs, sts.last());
    }
}

proof fn lemma_block_vars(g: TypeGraphView, c: ExprCheckView, defs: Seq<(Seq<usize>, u64)>, b: Block)
    ensures
        graph_kept(g, build_block(g, c, defs, b).0),
    decreases b,
{
    if b.scope_id@ != spec_default_index() {
        lemma_stmts_vars(g, c, defs, b.statements@);
    }
}

/// Visiting the statements after the first `k` keeps their variables.
proof fn lemma_stmts_take_vars(g: TypeGraphView, c: ExprCheckView, defs: Seq<(Seq<usize>, u64)>, sts: Seq<Statement>, k: int)
    requires
        0 <= k <= sts.len(),
    ensures
        graph_kept(build_stmts(g, c, defs, sts.take(k)).0, build_stmts(g, c, defs, sts).0),
    decreases sts.len() - k,
{
    if k < sts.len() {
        lemma_stmts_take_vars(g, c, defs, sts, k + 1);
        assert(sts.take(k + 1).drop_last() =~= sts.take(k));
        assert(sts.take(k + 1).last() == sts[k]);
        let (g1, c1) = build_stmts(g, c, defs, sts.take(k));
        lemma_stmt_vars(g1, c1, defs, sts[k]);
    } else {
        assert(sts.take(k) =~= sts);
    }
}

/// A variable declared directly in an identified block has, after the
/// block, a variable node with a `Declaration` edge from it.
proof fn lemma_block_declaration(g: TypeGraphView, c: ExprCheckView, defs: Seq<(Seq<usize>, u64)>, bl: Block, j: int)
    requires
        bl.scope_id@ != spec_default_index(),
        0 <= j < bl.statements@.len(),
        bl.statements@[j] is Declaration,
    ensures
        bl.statements@[j] matches Statement::Declaration(d) && has_variable(build_block(g, c, defs, bl).0, d.ident.id@)
            && has_declaration_edge(build_block(g, c, defs, bl).0, d.ident),
{
    let sts = bl.statements@;
    if let Statement::Declaration(d) = sts[j] {
        let (gj, cj) = build_stmts(g, c, defs, sts.take(j));
        lemma_stmt_vars(gj, cj, defs, sts[j]);
        assert(sts.take(j + 1).drop_last() =~= sts.take(j));
        assert(sts.take(j + 1).last() == sts[j]);
        lemma_stmts_take_vars(g, c, defs, sts, j + 1);
        let gm = build_stmts(g, c, defs, sts.take(j + 1)).0;
        let g4 = build_stmts(g, c, defs, sts).0;
        lemma_kept_has(gm, g4, d.ident.id@);
        lemma_kept_declaration_edge(gm, g4, d.ident);
    }
}

/// Visiting the conditionals after the first `k` keeps their variables and
/// edges.
proof fn lemma_conds_take_vars(
    g: TypeGraphView,
    c: ExprCheckView,
    defs: Seq<(Seq<usize>, u64)>,
    cs: Seq<Conditional>,
    b: int,
    k: int,
)
    requires
        0 <= k <= cs.len(),
    ensures
        graph_kept(build_conds(g, c, defs, cs.take(k), b).0, build_conds(g, c, defs, cs, b).0),
    decreases cs.len() - k,
{
    if k < cs.len() {
        lemma_conds_take_vars(g, c, defs, cs, b, k + 1);
        assert(cs.take(k + 1).drop_last() =~= cs.take(k));
        assert(cs.take(k + 1).last() == cs[k]);
        let (g1, c1) = build_conds(g, c, defs, cs.take(k), b);
        lemma_expr_vars(g1, c1, cs[k].condition);
        let (g2, c2) = build_expr(g1, c1, cs[k].condition);
        let g3 = with_edge(g2, c2.current, b, SourceView::IfConditionalBool);
        lemma_block_vars(g3, with_current(c2, 0), defs, cs[k].block);
    } else {
        assert(cs.take(k) =~= cs);
    }
}

/// Every variable declared directly in the `else` block of an `if` block
/// gets a variable node in the graph, with a `Declaration` edge from that
/// node: after the `if` block the graph has both, whatever the conditionals
/// and the rest of the `else` block hold.
pub proof fn law_else_declarations_get_nodes(
    g: TypeGraphView,
    c: ExprCheckView,
    defs: Seq<(Seq<usize>, u64)>,
    i: IfBlock,
    j: int,
)
    requires
        i.scoped_id@ != spec_default_index(),
        i.else_block is Some,
        i.else_block.unwrap().scope_id@ != spec_default_index(),
        0 <= j < i.else_block.unwrap().statements@.len(),
        i.else_block.unwrap().statements@[j] is Declaration,
    ensures
        i.else_block.unwrap().statements@[j] matches Statement::Declaration(d) && has_variable(
            build_stmt(g, c, defs, Statement::IfBlock(i)).0,
            d.ident.id@,
        ) && has_declaration_edge(build_stmt(g, c, defs, Statement::IfBlock(i)).0, d.ident),
{
    let bl = i.else_block.unwrap();
    let (g1, _x) = with_expression(g);
    let (g2, b) = with_concrete(g1, c.bool_type);
    let (g3, c3) = build_conds(g2, c, defs, i.conditionals@, b);
    lemma_block_declaration(g3, c3, defs, bl, j);
    let g4 = build_block(g3, c3, defs, bl).0;
    let fin = build_stmt(g, c, defs, Statement::IfBlock(i)).0;
    assert(fin.variables == g4.variables);
    assert(fin.edges == g4.edges);
}

/// Every variable declared directly in the block of one of an identified
/// `if` block's conditionals gets a variable node with a `Declaration` edge
/// from it, whatever the other conditionals and the `else` block hold.
pub proof fn law_conditional_declarations_get_nodes(
    g: TypeGraphView,
    c: ExprCheckView,
    defs: Seq<(Seq<usize>, u64)>,
    i: IfBlock,
    k: int,
    j: int,
)
    requires
        i.scoped_id@ != spec_default_index(),
        0 <= k < i.conditionals@.len(),
        i.conditionals@[k].block.scope_id@ != spec_default_index(),
        0 <= j < i.conditionals@[k].block.statements@.len(),
        i.conditionals@[k].block.statements@[j] is Declaration,
    ensures
        i.conditionals@[k].block.statements@[j] matches Statement::Declaration(d) && has_variable(
            build_stmt(g, c, defs, Statement::IfBlock(i)).0,
            d.ident.id@,
        ) && has_declaration_edge(build_stmt(g, c, defs, Statement::IfBlock(i)).0, d.ident),
{
    let cs = i.conditionals@;
    if let Statement::Declaration(d) = cs[k].block.statements@[j] {
        let (g1, _x) = with_expression(g);
        let (g2, b) = with_concrete(g1, c.bool_type);
        let (gk, ck) = build_conds(g2, c, defs, cs.take(k), b);
        let (ge, ce) = build_expr(gk, ck, cs[k].condition);
        let g3 = with_edge(ge, ce.current, b, SourceView::IfConditionalBool);
        lemma_block_declaration(g3, with_current(ce, 0), defs, cs[k].block, j);
        assert(cs.take(k + 1).drop_last() =~= cs.take(k));
        assert(cs.take(k + 1).last() == cs[k]);
        let gm = build_conds(g2, c, defs, cs.take(k + 1), b).0;
        assert(gm == build_block(g3, with_current(ce, 0), defs, cs[k].block).0);
        lemma_conds_take_vars(g2, c, defs, cs, b, k + 1);
        let (gc, cc) = build_conds(g2, c, defs, cs, b);
        lemma_kept_has(gm, gc, d.ident.id@);
        lemma_kept_declaration_edge(gm, gc, d.ident);
        let g4 = match i.else_block {
            Some(bl) => build_block(gc, cc, defs, bl).0,
            None => gc,
        };
        if let Some(bl) = i.else_block {
            lemma_block_vars(gc, cc, defs, bl);
        }
        lemma_kept_has(gc, g4, d.ident.id@);
        lemma_kept_declaration_edge(gc, g4, d.ident);
        let fin = build_stmt(g, c, defs, Statement::IfBlock(i)).0;
        assert(fin.variables == g4.variables);
        assert(fin.edges == g4.edges);
    }
}

/// Every variable declared directly in an identified `do` block gets a
/// variable node with a `Declaration` edge from it.
pub proof fn law_do_block_declarations_get_nodes(
    g: TypeGraphView,
    c: ExprCheckView,
    defs: Seq<(Seq<usize>, u64)>,
    d: DoBlock,
    j: int,
)
    requires
        d.block.scope_id@ != spec_default_index(),
        0 <= j < d.block.statements@.len(),
        d.block.statements@[j] is Declaration,
    ensures
        d.block.statements@[j] matches Statement::Declaration(x) && has_variable(
            build_stmt(g, c, defs, Statement::DoBlock(d)).0,
            x.ident.id@,
        ) && has_declaration_edge(build_stmt(g, c, defs, Statement::DoBlock(d)).0, x.ident),
{
    lemma_block_declaration(g, c, defs, *d.block, j);
}

} // verus!
