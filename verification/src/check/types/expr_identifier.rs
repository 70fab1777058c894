//! Identifies `TypeId`s in expressions and creates type equations for them.
//!
//! Each identifier gets a `TypeId` from a `TypeBuilder`, each value a new
//! one, and each operator, condition, assignment and call adds equations
//! between them, with the sources that explain them.

use vstd::prelude::*;

use crate::ast::{
    Assignment, BinaryOperation, BinaryOperator, Block, BlockFnDeclaration, CallArgument, Conditional, Declaration, DoBlock,
    Expression, FnCall, Identifier, IfBlock, IfExpression, Literal, LiteralValue, Primitive, Return, ScopedId,
    Statement, TypeExpression, UnaryOperation,
};
use crate::check::assoc::{assoc_get, lemma_find_key_is, lemma_find_key_none};
use crate::check::scope::scope::spec_default_index;
use crate::check::types::concrete_type::{ConcreteType, ConcreteTypeView};
use crate::check::types::environment::TypeId;
use crate::check::types::identify::expr_checker::{args_size, expr_size};
use crate::check::types::identify::InferenceSource;
use crate::check::types::identify::type_graph::{SourceView, ident_view, source_view};
use crate::check::types::inferred_type::{InferredType, InferredTypeView, TypeEquation, equation_view, params_view};
use crate::lex::TokenView;

verus! {

/// Hands out `TypeId`s, gives each `ScopedId` one, and collects type
/// equations with the sources of the types in them.
pub struct TypeBuilder {
    current_id: TypeId,
    ids: Vec<(ScopedId, TypeId)>,
    equations: Vec<TypeEquation>,
    sources: Vec<(TypeId, InferenceSource)>,
}

/// The mathematical value of a `TypeBuilder`.
pub ghost struct BuilderView {
    /// The last id handed out.
    pub current_id: u64,
    /// The id of each `ScopedId` that has one, in the order they got them.
    pub ids: Seq<(Seq<usize>, u64)>,
    /// The equations, in the order they were added.
    pub equations: Seq<(u64, InferredTypeView)>,
    /// The sources of types, in the order they were added.
    pub sources: Seq<(u64, SourceView)>,
}

impl View for TypeBuilder {
    type V = BuilderView;

    closed spec fn view(&self) -> BuilderView {
        BuilderView {
            current_id: self.current_id.value(),
            ids: self.ids@.map_values(|e: (ScopedId, TypeId)| (e.0@, e.1.value())),
            equations: self.equations@.map_values(|e: TypeEquation| equation_view(e)),
            sources: self.sources@.map_values(|e: (TypeId, InferenceSource)| (e.0.value(), source_view(e.1))),
        }
    }
}

impl BuilderView {
    /// Every id given to a `ScopedId` was handed out already.
    pub open spec fn wf(self) -> bool {
        forall|i: int| 0 <= i < self.ids.len() ==> #[trigger] self.ids[i].1 <= self.current_id
    }
}

/// The builder after handing out a new id, and that id.
pub open spec fn b_fresh(b: BuilderView) -> (BuilderView, u64) {
    let t = (b.current_id + 1) as u64;
    (BuilderView { current_id: t, ..b }, t)
}

/// The builder after looking up the id of `id`, giving it a new one where
/// it has none, and that id.
pub open spec fn b_get_id(b: BuilderView, id: Seq<usize>) -> (BuilderView, u64) {
    match assoc_get(b.ids, id) {
        Some(t) => (b, t),
        None => {
            let t = (b.current_id + 1) as u64;
            (BuilderView { current_id: t, ids: b.ids.push((id, t)), ..b }, t)
        },
    }
}

/// The builder with the equation `lhs = rhs`.
pub open spec fn b_eq(b: BuilderView, lhs: u64, rhs: InferredTypeView) -> BuilderView {
    BuilderView { equations: b.equations.push((lhs, rhs)), ..b }
}

/// The builder with a source for the type `id`.
pub open spec fn b_src(b: BuilderView, id: u64, source: SourceView) -> BuilderView {
    BuilderView { sources: b.sources.push((id, source)), ..b }
}

/// A known primitive type.
pub open spec fn known(p: Primitive) -> InferredTypeView {
    InferredTypeView::Known(ConcreteTypeView::Primitive(p))
}

impl TypeBuilder {
    /// Every id given to a `ScopedId` was handed out already: none is above
    /// the last id handed out.
    #[verifier::type_invariant]
    spec fn ids_handed_out(&self) -> bool {
        forall|i: int| 0 <= i < self.ids@.len() ==> #[trigger] self.ids@[i].1.value() <= self.current_id.value()
    }

    proof fn lemma_view_wf(&self)
        requires
            self.ids_handed_out(),
        ensures
            self@.wf(),
    {
        assert forall|i: int| 0 <= i < self@.ids.len() implies #[trigger] self@.ids[i].1 <= self@.current_id by {
            assert(self@.ids[i].1 == self.ids@[i].1.value());
        }
    }

    /// A builder with no ids, equations or sources; the first id it hands
    /// out is `1`.
    pub fn new() -> (b: TypeBuilder)
        ensures
            b@ == (BuilderView { current_id: 0, ids: seq![], equations: seq![], sources: seq![] }),
    {
        let b = TypeBuilder { current_id: TypeId::default(), ids: Vec::new(), equations: Vec::new(), sources: Vec::new() };
        assert(b@.ids =~= seq![]);
        assert(b@.equations =~= seq![]);
        assert(b@.sources =~= seq![]);
        b
    }

    /// A new id, one above the last.
    pub fn fresh_id(&mut self) -> (t: TypeId)
        requires
            old(self)@.current_id < u64::MAX,
        ensures
            (final(self)@, t.value()) == b_fresh(old(self)@),
            old(self)@.wf() && final(self)@.wf(),
            forall|i: int| 0 <= i < old(self)@.ids.len() ==> #[trigger] old(self)@.ids[i].1 < t.value(),
    {
        proof {
            use_type_invariant(&*self);
            self.lemma_view_wf();
        }
        self.current_id = self.current_id.next();
        proof { self.lemma_view_wf_after(); }
        self.current_id
    }

    proof fn lemma_view_wf_after(&self)
        ensures
            self.ids_handed_out() ==> self@.wf(),
    {
        if self.ids_handed_out() {
            self.lemma_view_wf();
        }
    }

    /// The id of a `ScopedId`: the one it was given, or else a new one,
    /// which is recorded for it.
    pub fn get_id(&mut self, id: ScopedId) -> (t: TypeId)
        requires
            old(self)@.current_id < u64::MAX,
        ensures
            (final(self)@, t.value()) == b_get_id(old(self)@, id@),
            t.value() <= final(self)@.current_id,
    {
        proof {
            use_type_invariant(&*self);
            self.lemma_view_wf();
        }
        let ghost ids = self@.ids;
        let n = self.ids.len();
        let mut i: usize = 0;
        while i < n
            invariant
                n == self.ids@.len(),
                ids == self@.ids,
                *self == *old(self),
                self@.wf(),
                i <= n,
                forall|m: int| 0 <= m < i ==> ids[m].0 != id@,
            decreases n - i,
        {
            assert(ids[i as int] == (self.ids@[i as int].0@, self.ids@[i as int].1.value()));
            if self.ids[i].0.same_as(&id) {
                proof { lemma_find_key_is(ids, id@, i as int); }
                return self.ids[i].1;
            }
            i += 1;
        }
        proof { lemma_find_key_none(ids, id@); }
        let t = self.fresh_id();
        let ghost key = id@;
        let mut table: Vec<(ScopedId, TypeId)> = Vec::new();
        std::mem::swap(&mut table, &mut self.ids);
        let ghost old_table = table@;
        table.push((id, t));
        assert forall|i: int| 0 <= i < table@.len() implies #[trigger] table@[i].1.value() <= self.current_id.value() by {
            if i < old_table.len() {
                assert(table@[i] == old_table[i]);
                assert(ids[i] == (old_table[i].0@, old_table[i].1.value()));
            }
        }
        std::mem::swap(&mut table, &mut self.ids);
        assert(self@.ids =~= ids.push((key, t.value())));
        t
    }

    /// Adds an equation.
    pub fn add_equation(&mut self, equation: TypeEquation)
        ensures
            final(self)@ == b_eq(old(self)@, equation_view(equation).0, equation_view(equation).1),
    {
        proof { use_type_invariant(&*self); }
        let ghost e = equation_view(equation);
        let mut list: Vec<TypeEquation> = Vec::new();
        std::mem::swap(&mut list, &mut self.equations);
        list.push(equation);
        std::mem::swap(&mut list, &mut self.equations);
        assert(self@.equations =~= old(self)@.equations.push(e));
    }

    /// Adds a source for the type `id`.
    pub fn add_source(&mut self, id: TypeId, source: InferenceSource)
        ensures
            final(self)@ == b_src(old(self)@, id.value(), source_view(source)),
    {
        proof { use_type_invariant(&*self); }
        let ghost sv = source_view(source);
        let mut list: Vec<(TypeId, InferenceSource)> = Vec::new();
        std::mem::swap(&mut list, &mut self.sources);
        list.push((id, source));
        std::mem::swap(&mut list, &mut self.sources);
        assert(self@.sources =~= old(self)@.sources.push((id.value(), sv)));
    }

    /// The equations, in the order they were added.
    pub fn equations(&self) -> (e: &[TypeEquation])
        ensures
            e@.map_values(|x: TypeEquation| equation_view(x)) == self@.equations,
    {
        self.equations.as_slice()
    }

    /// The sources of types, in the order they were added.
    pub fn sources(&self) -> (s: &[(TypeId, InferenceSource)])
        ensures
            s@.map_values(|x: (TypeId, InferenceSource)| (x.0.value(), source_view(x.1))) == self@.sources,
    {
        self.sources.as_slice()
    }
}

/// The equations of a binary operation with operands of types `l` and `r`:
/// `==` and `!=` make the operands one type and give a boolean, the
/// comparisons take and give numbers and a boolean, and arithmetic takes
/// and gives numbers.
pub open spec fn binop_equations(b: BuilderView, op: BinaryOperator, l: u64, r: u64) -> (BuilderView, u64) {
    match op {
        BinaryOperator::Equality | BinaryOperator::NonEquality => {
            let b1 = b_src(b_eq(b, l, InferredTypeView::Variable(r)), l, SourceView::EqualityOperator);
            let b2 = b_src(b_eq(b1, r, InferredTypeView::Variable(l)), r, SourceView::EqualityOperator);
            let (b3, x) = b_fresh(b2);
            (b_src(b_eq(b3, x, known(Primitive::Bool)), x, SourceView::EqualityOperator), x)
        },
        BinaryOperator::LessThan | BinaryOperator::GreaterThan | BinaryOperator::GreaterThanEquals
        | BinaryOperator::LessThanEquals => {
            let b1 = b_src(b_eq(b, l, known(Primitive::Int)), l, SourceView::NumericOperator);
            let b2 = b_src(b_eq(b1, r, known(Primitive::Int)), r, SourceView::NumericOperator);
            let (b3, x) = b_fresh(b2);
            (b_src(b_eq(b3, x, known(Primitive::Bool)), x, SourceView::BooleanOperator), x)
        },
        _ => {
            let b1 = b_src(b_eq(b, l, known(Primitive::Int)), l, SourceView::NumericOperator);
            let b2 = b_src(b_eq(b1, r, known(Primitive::Int)), r, SourceView::NumericOperator);
            let (b3, x) = b_fresh(b2);
            (b_src(b_eq(b3, x, known(Primitive::Int)), x, SourceView::NumericOperator), x)
        },
    }
}

/// The builder and current type after visiting `e` with current type `t`.
///
/// - A literal gets a new id, equal to its primitive type.
/// - A variable's type is its identifier's id; an identifier without a
///   `ScopedId` changes nothing.
/// - An `if` expression's condition is a boolean and its branches equal;
///   its type is that of its second branch.
/// - A unary operation's operand is a number, and its value a new id that
///   is a number.
/// - A binary operation adds `binop_equations`.
/// - An assignment's variable equals its value; it has no type.
/// - A call's function equals a function type from the call's arguments,
///   by parameter name, to a new id, which is the call's type.
pub open spec fn ident_expr(b: BuilderView, t: u64, e: Expression) -> (BuilderView, u64)
    decreases e,
{
    match e {
        Expression::Literal(l) => {
            let (b1, id) = b_fresh(b);
            let p = match l.value {
                LiteralValue::Bool(_) => Primitive::Bool,
                LiteralValue::Float(_) => Primitive::Int,
                LiteralValue::Unit => Primitive::Unary,
            };
            (b_src(b_eq(b1, id, known(p)), id, SourceView::LiteralValue), id)
        },
        Expression::VariableRef(i) => if i.id@ == spec_default_index() {
            (b, t)
        } else {
            b_get_id(b, i.id@)
        },
        Expression::IfExpression(x) => {
            let (b1, c) = ident_expr(b, 0, *x.condition);
            let b2 = b_src(b_eq(b1, c, known(Primitive::Bool)), c, SourceView::IfConditionalBool);
            let (b3, l) = ident_expr(b2, c, *x.true_expr);
            let (b4, r) = ident_expr(b3, l, *x.else_expr);
            (
                b_src(
                    b_src(b_eq(b4, l, InferredTypeView::Variable(r)), l, SourceView::IfBranchesSame),
                    r,
                    SourceView::IfBranchesSame,
                ),
                r,
            )
        },
        Expression::UnaryOp(u) => {
            let (b1, i) = ident_expr(b, t, *u.expression);
            let b2 = b_src(b_eq(b1, i, known(Primitive::Int)), i, SourceView::NumericOperator);
            let (b3, x) = b_fresh(b2);
            (b_src(b_eq(b3, x, known(Primitive::Int)), x, SourceView::NumericOperator), x)
        },
        Expression::BinaryOp(o) => {
            let (b1, l) = ident_expr(b, t, *o.left);
            let (b2, r) = ident_expr(b1, l, *o.right);
            binop_equations(b2, o.operator, l, r)
        },
        Expression::Assignment(a) => if a.lvalue.id@ == spec_default_index() {
            (b, t)
        } else {
            let (b1, lv) = b_get_id(b, a.lvalue.id@);
            let (b2, rv) = ident_expr(b1, t, *a.rvalue);
            (b_src(b_eq(b2, lv, InferredTypeView::Variable(rv)), lv, SourceView::Assignment), 0)
        },
        Expression::FnCall(f) => if f.lvalue.id@ == spec_default_index() {
            (b, t)
        } else {
            let (b1, result) = b_fresh(b);
            let (b2, _t2, ps) = ident_args(b1, t, f.lvalue, f.args@);
            let (b3, fid) = b_get_id(b2, f.lvalue.id@);
            (
                b_src(
                    b_eq(b3, fid, InferredTypeView::Fn(ps, Box::new(InferredTypeView::Variable(result)))),
                    result,
                    SourceView::CallReturnType(ident_view(f.lvalue)),
                ),
                result,
            )
        },
    }
}

/// The builder, current type and parameter types after visiting the
/// arguments `args` of a call of `callee`, first to last.
pub open spec fn ident_args(b: BuilderView, t: u64, callee: Identifier, args: Seq<CallArgument>) -> (
    BuilderView,
    u64,
    Seq<(Seq<char>, InferredTypeView)>,
)
    decreases args,
{
    if args.len() == 0 {
        (b, t, seq![])
    } else {
        let (b1, t1, ps) = ident_args(b, t, callee, args.drop_last());
        let (b2, a) = ident_expr(b1, t1, args.last().value);
        (
            b_src(b2, a, SourceView::CallArgument(ident_view(callee))),
            a,
            ps.push((args.last().param.token.text@, InferredTypeView::Variable(a))),
        )
    }
}

/// Visiting an expression of size `size` hands out at most two ids for
/// each of its expressions and keeps every id, equation and source.
pub open spec fn builder_grew(b0: BuilderView, b1: BuilderView, size: nat) -> bool {
    &&& b0.current_id <= b1.current_id <= b0.current_id + 2 * size
    &&& b0.ids.len() <= b1.ids.len()
    &&& forall|i: int| 0 <= i < b0.ids.len() ==> #[trigger] b1.ids[i] == b0.ids[i]
    &&& b0.equations.len() <= b1.equations.len()
    &&& forall|i: int| 0 <= i < b0.equations.len() ==> #[trigger] b1.equations[i] == b0.equations[i]
    &&& b0.sources.len() <= b1.sources.len()
    &&& forall|i: int| 0 <= i < b0.sources.len() ==> #[trigger] b1.sources[i] == b0.sources[i]
}

proof fn lemma_args_size_prefix(args: Seq<CallArgument>, k: int)
    requires
        0 <= k <= args.len(),
    ensures
        args_size(args.take(k)) <= args_size(args),
    decreases args.len() - k,
{
    if k < args.len() {
        lemma_args_size_prefix(args, k + 1);
        assert(args.take(k + 1).drop_last() =~= args.take(k));
    } else {
        assert(args.take(k) =~= args);
    }
}


/// What the identifier reads and changes at the level of statements: the
/// builder, the type of the expression visited last, and the return type
/// of the function being visited.
pub ghost struct IdentState {
    pub builder: BuilderView,
    pub var_type: u64,
    pub return_type: u64,
}

/// The state of a builder and an identifier.
pub open spec fn state_of(b: BuilderView, i: ExprTypeIdentifier) -> IdentState {
    IdentState { builder: b, var_type: i.var_type().value(), return_type: i.return_type().value() }
}

/// The state after visiting the expression `e`.
pub open spec fn with_expr(s: IdentState, e: Expression) -> IdentState {
    let (b, t) = ident_expr(s.builder, s.var_type, e);
    IdentState { builder: b, var_type: t, ..s }
}

/// The type written in a declaration: a primitive type is known; other
/// type expressions say nothing here.
pub open spec fn declared_inferred(te: TypeExpression) -> Option<InferredTypeView> {
    match te {
        TypeExpression::Primitive(p) => Some(known(p)),
        _ => None,
    }
}

/// The state after visiting a statement.
///
/// - A declaration's variable equals its declared type, where a primitive
///   one is written, and its value; it has no type itself.
/// - A `return` makes the function's return type, where there is one, equal
///   to its value, or `()` without a value.
/// - An `if` block's conditions are booleans, and its blocks are visited;
///   one without a `ScopedId` is skipped.
/// - A `do` block's statements are visited.
pub open spec fn ident_stmt(s: IdentState, st: Statement) -> IdentState
    decreases st,
{
    match st {
        Statement::Expression(e) => with_expr(s, e),
        Statement::Declaration(d) => {
            let (b1, v) = b_get_id(s.builder, d.ident.id@);
            let b2 = match d.type_decl {
                Some(te) => match declared_inferred(te) {
                    Some(t) => b_src(b_eq(b1, v, t), v, SourceView::ExplicitDecl(ident_view(d.ident))),
                    None => b1,
                },
                None => b1,
            };
            let s3 = with_expr(IdentState { builder: b2, ..s }, *d.value);
            IdentState {
                builder: b_src(
                    b_eq(s3.builder, v, InferredTypeView::Variable(s3.var_type)),
                    v,
                    SourceView::Declaration(ident_view(d.ident)),
                ),
                var_type: 0,
                ..s3
            }
        },
        Statement::Return(r) => match r.value {
            Some(value) => {
                let s1 = with_expr(IdentState { var_type: 0, ..s }, *value);
                let b2 = if s1.return_type != 0 {
                    b_eq(s1.builder, s1.return_type, InferredTypeView::Variable(s1.var_type))
                } else {
                    s1.builder
                };
                IdentState { builder: b_src(b2, s1.return_type, SourceView::ExplicitReturn), ..s1 }
            },
            None => IdentState {
                builder: b_src(
                    b_eq(s.builder, s.return_type, known(Primitive::Unary)),
                    s.return_type,
                    SourceView::ExplicitReturn,
                ),
                var_type: 0,
                ..s
            },
        },
        Statement::DoBlock(d) => ident_block(s, *d.block),
        Statement::IfBlock(i) => if i.scoped_id@ == spec_default_index() {
            s
        } else {
            let s1 = ident_conds(s, i.conditionals@);
            match i.else_block {
                Some(b) => ident_block(s1, b),
                None => s1,
            }
        },
    }
}

/// The state after visiting the conditionals of an `if` block, first to
/// last: each condition is a boolean, then its block is visited.
pub open spec fn ident_conds(s: IdentState, cs: Seq<Conditional>) -> IdentState
    decreases cs,
{
    if cs.len() == 0 {
        s
    } else {
        let s1 = ident_conds(s, cs.drop_last());
        let s2 = with_expr(s1, cs.last().condition);
        let c = s2.var_type;
        let b3 = b_src(b_eq(s2.builder, c, known(Primitive::Bool)), c, SourceView::IfConditionalBool);
        ident_block(IdentState { builder: b3, var_type: 0, ..s2 }, cs.last().block)
    }
}

/// The state after visiting statements, first to last.
pub open spec fn ident_stmts(s: IdentState, sts: Seq<Statement>) -> IdentState
    decreases sts,
{
    if sts.len() == 0 {
        s
    } else {
        ident_stmt(ident_stmts(s, sts.drop_last()), sts.last())
    }
}

/// The state after visiting a block; one without a `ScopedId` is skipped.
pub open spec fn ident_block(s: IdentState, b: Block) -> IdentState
    decreases b,
{
    if b.scope_id@ == spec_default_index() {
        s
    } else {
        ident_stmts(s, b.statements@)
    }
}

/// The builder and the parameter types after giving each parameter its id,
/// equal to its primitive type.
pub open spec fn ident_params(b: BuilderView, ps: Seq<(Identifier, TypeExpression)>) -> (
    BuilderView,
    Seq<(Seq<char>, InferredTypeView)>,
)
    decreases ps.len(),
{
    if ps.len() == 0 {
        (b, seq![])
    } else {
        let (b1, types) = ident_params(b, ps.drop_last());
        let (ident, te) = ps.last();
        let (b2, pid) = b_get_id(b1, ident.id@);
        let t = match te {
            TypeExpression::Primitive(p) => known(p),
            _ => known(Primitive::Unary),
        };
        (
            b_src(b_eq(b2, pid, t), pid, SourceView::FnParameter(ident_view(ident))),
            types.push((ident.token.text@, InferredTypeView::Variable(pid))),
        )
    }
}

/// Every parameter of `f` has a primitive type, the only kind of parameter
/// type the parser gives.
pub open spec fn primitive_params(f: BlockFnDeclaration) -> bool {
    forall|i: int| 0 <= i < f.params@.len() ==> #[trigger] f.params@[i].1 is Primitive
}

/// The state after visiting a function that has a `ScopedId`: its id equals
/// the function type from its parameters' types to a new return type id,
/// which equals its declared primitive return type; its block is visited
/// with that return type; and where it returns a value, the value its block
/// ends with is of the return type.
pub open spec fn ident_fn(s: IdentState, f: BlockFnDeclaration) -> IdentState {
    if f.ident.id@ == spec_default_index() {
        s
    } else {
        let (b1, fid) = b_get_id(s.builder, f.ident.id@);
        let (b2, ps) = ident_params(b1, f.params@);
        let (b3, ret) = b_fresh(b2);
        let b4 = match f.ret_ty {
            TypeExpression::Primitive(p) => b_eq(b3, ret, known(p)),
            _ => b3,
        };
        let b5 = b_src(
            b_eq(b4, fid, InferredTypeView::Fn(ps, Box::new(InferredTypeView::Variable(ret)))),
            fid,
            SourceView::FnSignature(ident_view(f.ident)),
        );
        let s6 = ident_block(IdentState { builder: b5, var_type: 0, return_type: ret }, f.block);
        if !(f.ret_ty == TypeExpression::Primitive(Primitive::Unary)) && s6.var_type != 0 {
            IdentState {
                builder: b_src(
                    b_eq(s6.builder, ret, InferredTypeView::Variable(s6.var_type)),
                    ret,
                    SourceView::FnReturnType(ident_view(f.ident)),
                ),
                ..s6
            }
        } else {
            s6
        }
    }
}

/// The number of expressions and declarations in a statement.
pub open spec fn stmt_size(st: Statement) -> nat
    decreases st,
{
    match st {
        Statement::Expression(e) => expr_size(e),
        Statement::Declaration(d) => 1 + expr_size(*d.value),
        Statement::Return(r) => match r.value {
            Some(v) => expr_size(*v),
            None => 0,
        },
        Statement::DoBlock(d) => block_size(*d.block),
        Statement::IfBlock(i) => conds_size(i.conditionals@) + match i.else_block {
            Some(b) => block_size(b),
            None => 0,
        },
    }
}

/// The number of expressions and declarations in conditionals.
pub open spec fn conds_size(cs: Seq<Conditional>) -> nat
    decreases cs,
{
    if cs.len() == 0 {
        0
    } else {
        conds_size(cs.drop_last()) + expr_size(cs.last().condition) + block_size(cs.last().block)
    }
}

/// The number of expressions and declarations in statements.
pub open spec fn stmts_size(sts: Seq<Statement>) -> nat
    decreases sts,
{
    if sts.len() == 0 {
        0
    } else {
        stmts_size(sts.drop_last()) + stmt_size(sts.last())
    }
}

/// The number of expressions and declarations in a block.
pub open spec fn block_size(b: Block) -> nat
    decreases b,
{
    stmts_size(b.statements@)
}

/// A bound on the ids that visiting a function hands out, halved.
pub open spec fn fn_size(f: BlockFnDeclaration) -> nat {
    2 + f.params@.len() + block_size(f.block)
}

proof fn lemma_stmts_size_prefix(sts: Seq<Statement>, k: int)
    requires
        0 <= k <= sts.len(),
    ensures
        stmts_size(sts.take(k)) <= stmts_size(sts),
    decreases sts.len() - k,
{
    if k < sts.len() {
        lemma_stmts_size_prefix(sts, k + 1);
        assert(sts.take(k + 1).drop_last() =~= sts.take(k));
    } else {
        assert(sts.take(k) =~= sts);
    }
}

proof fn lemma_conds_size_prefix(cs: Seq<Conditional>, k: int)
    requires
        0 <= k <= cs.len(),
    ensures
        conds_size(cs.take(k)) <= conds_size(cs),
    decreases cs.len() - k,
{
    if k < cs.len() {
        lemma_conds_size_prefix(cs, k + 1);
        assert(cs.take(k + 1).drop_last() =~= cs.take(k));
    } else {
        assert(cs.take(k) =~= cs);
    }
}

/// A known primitive type.
fn known_primitive(p: Primitive) -> (t: InferredType)
    ensures
        crate::check::types::inferred_type::inferred_view(t) == known(p),
{
    InferredType::Known(ConcreteType::Primitive(p))
}

/// Creates the type equations of expressions.
pub struct ExprTypeIdentifier {
    /// The type of the expression visited last.
    var_type_id: TypeId,
    /// The return type of the function being visited.
    return_ty_id: TypeId,
}

impl ExprTypeIdentifier {
    /// An identifier whose current type is the unassigned id `0`.
    pub fn new() -> (i: ExprTypeIdentifier)
        ensures
            i.var_type().value() == 0,
            i.return_type().value() == 0,
    {
        ExprTypeIdentifier { var_type_id: TypeId::default(), return_ty_id: TypeId::default() }
    }

    /// The return type of the function being visited; the unassigned id
    /// `0` outside a function.
    pub closed spec fn return_type(&self) -> TypeId {
        self.return_ty_id
    }

    /// The type of the expression visited last.
    pub closed spec fn var_type(&self) -> TypeId {
        self.var_type_id
    }

    /// The type of the expression visited last.
    pub fn get_var_type(&self) -> (t: TypeId)
        ensures
            t == self.var_type(),
    {
        self.var_type_id
    }

    /// Visits an expression.
    pub fn visit_expression(&mut self, builder: &mut TypeBuilder, expr: &Expression)
        requires
            old(builder)@.current_id + 2 * expr_size(*expr) < u64::MAX,
        ensures
            (final(builder)@, final(self).var_type().value()) == ident_expr(
                old(builder)@,
                old(self).var_type().value(),
                *expr,
            ),
            builder_grew(old(builder)@, final(builder)@, expr_size(*expr)),
            old(self).var_type().value() <= old(builder)@.current_id ==> final(self).var_type().value()
                <= final(builder)@.current_id,
            final(self).return_type() == old(self).return_type(),
        decreases *expr, 1nat,
    {
        match expr {
            Expression::Literal(l) => self.visit_literal_expr(builder, l),
            Expression::VariableRef(i) => self.visit_var_ref(builder, i),
            Expression::BinaryOp(b) => self.visit_binary_op(builder, b),
            Expression::UnaryOp(u) => self.visit_unary_op(builder, u),
            Expression::IfExpression(i) => self.visit_if_expr(builder, i),
            Expression::Assignment(a) => self.visit_assignment(builder, a),
            Expression::FnCall(f) => self.visit_fn_call(builder, f),
        }
    }

    /// A literal: a new id, which is its primitive type.
    pub fn visit_literal_expr(&mut self, builder: &mut TypeBuilder, literal: &Literal)
        requires
            old(builder)@.current_id + 2 < u64::MAX,
        ensures
            (final(builder)@, final(self).var_type().value()) == ident_expr(
                old(builder)@,
                old(self).var_type().value(),
                Expression::Literal(*literal),
            ),
            builder_grew(old(builder)@, final(builder)@, 1),
            old(self).var_type().value() <= old(builder)@.current_id ==> final(self).var_type().value()
                <= final(builder)@.current_id,
            final(self).return_type() == old(self).return_type(),
    {
        let literal_type_id = builder.fresh_id();
        let p = match literal.value {
            LiteralValue::Bool(_) => Primitive::Bool,
            LiteralValue::Float(_) => Primitive::Int,
            LiteralValue::Unit => Primitive::Unary,
        };
        builder.add_equation(TypeEquation::new(literal_type_id, known_primitive(p)));
        builder.add_source(literal_type_id, InferenceSource::LiteralValue);
        self.var_type_id = literal_type_id;
    }

    /// A variable reference: its type is its identifier's id.
    pub fn visit_var_ref(&mut self, builder: &mut TypeBuilder, ident: &Identifier)
        requires
            old(builder)@.current_id + 2 < u64::MAX,
        ensures
            (final(builder)@, final(self).var_type().value()) == ident_expr(
                old(builder)@,
                old(self).var_type().value(),
                Expression::VariableRef(*ident),
            ),
            builder_grew(old(builder)@, final(builder)@, 1),
            old(self).var_type().value() <= old(builder)@.current_id ==> final(self).var_type().value()
                <= final(builder)@.current_id,
            final(self).return_type() == old(self).return_type(),
    {
        if ident.id.is_default() {
            return;
        }
        self.var_type_id = builder.get_id(ident.id.clone());
    }

    /// An `if` expression: the condition is a boolean and the branches
    /// have one type.
    pub fn visit_if_expr(&mut self, builder: &mut TypeBuilder, if_expr: &IfExpression)
        requires
            old(builder)@.current_id + 2 * expr_size(Expression::IfExpression(*if_expr)) < u64::MAX,
        ensures
            (final(builder)@, final(self).var_type().value()) == ident_expr(
                old(builder)@,
                old(self).var_type().value(),
                Expression::IfExpression(*if_expr),
            ),
            builder_grew(old(builder)@, final(builder)@, expr_size(Expression::IfExpression(*if_expr))),
            old(self).var_type().value() <= old(builder)@.current_id ==> final(self).var_type().value()
                <= final(builder)@.current_id,
            final(self).return_type() == old(self).return_type(),
        decreases *if_expr, 0nat,
    {
        self.var_type_id = TypeId::default();
        self.visit_expression(builder, &if_expr.condition);
        let cond_ty = self.var_type_id;
        builder.add_equation(TypeEquation::new(cond_ty, known_primitive(Primitive::Bool)));
        builder.add_source(cond_ty, InferenceSource::IfConditionalBool);
        self.visit_expression(builder, &if_expr.true_expr);
        let left_ty_id = self.var_type_id;
        self.visit_expression(builder, &if_expr.else_expr);
        let right_ty_id = self.var_type_id;
        builder.add_equation(TypeEquation::new(left_ty_id, InferredType::Variable(right_ty_id)));
        builder.add_source(left_ty_id, InferenceSource::IfBranchesSame);
        builder.add_source(right_ty_id, InferenceSource::IfBranchesSame);
    }

    /// A unary operation: the operand is a number, and so is its value.
    pub fn visit_unary_op(&mut self, builder: &mut TypeBuilder, unary_op: &UnaryOperation)
        requires
            old(builder)@.current_id + 2 * expr_size(Expression::UnaryOp(*unary_op)) < u64::MAX,
        ensures
            (final(builder)@, final(self).var_type().value()) == ident_expr(
                old(builder)@,
                old(self).var_type().value(),
                Expression::UnaryOp(*unary_op),
            ),
            builder_grew(old(builder)@, final(builder)@, expr_size(Expression::UnaryOp(*unary_op))),
            old(self).var_type().value() <= old(builder)@.current_id ==> final(self).var_type().value()
                <= final(builder)@.current_id,
            final(self).return_type() == old(self).return_type(),
        decreases *unary_op, 0nat,
    {
        self.visit_expression(builder, &unary_op.expression);
        let inner_type_id = self.var_type_id;
        builder.add_equation(TypeEquation::new(inner_type_id, known_primitive(Primitive::Int)));
        builder.add_source(inner_type_id, InferenceSource::NumericOperator);
        let expr_type_id = builder.fresh_id();
        builder.add_equation(TypeEquation::new(expr_type_id, known_primitive(Primitive::Int)));
        builder.add_source(expr_type_id, InferenceSource::NumericOperator);
        self.var_type_id = expr_type_id;
    }

    /// A binary operation: `==` and `!=` make their operands one type and
    /// give a boolean; comparisons take numbers and give a boolean;
    /// arithmetic takes and gives numbers.
    pub fn visit_binary_op(&mut self, builder: &mut TypeBuilder, bin_op: &BinaryOperation)
        requires
            old(builder)@.current_id + 2 * expr_size(Expression::BinaryOp(*bin_op)) < u64::MAX,
        ensures
            (final(builder)@, final(self).var_type().value()) == ident_expr(
                old(builder)@,
                old(self).var_type().value(),
                Expression::BinaryOp(*bin_op),
            ),
            builder_grew(old(builder)@, final(builder)@, expr_size(Expression::BinaryOp(*bin_op))),
            old(self).var_type().value() <= old(builder)@.current_id ==> ({
                let (b1, l) = ident_expr(old(builder)@, old(self).var_type().value(), *bin_op.left);
                let (_b2, r) = ident_expr(b1, l, *bin_op.right);
                &&& l < final(self).var_type().value()
                &&& r < final(self).var_type().value()
            }),
            old(self).var_type().value() <= old(builder)@.current_id ==> final(self).var_type().value()
                <= final(builder)@.current_id,
            final(self).return_type() == old(self).return_type(),
        decreases *bin_op, 0nat,
    {
        self.visit_expression(builder, &bin_op.left);
        let left_type_id = self.var_type_id;
        self.visit_expression(builder, &bin_op.right);
        let right_type_id = self.var_type_id;
        match bin_op.operator {
            BinaryOperator::Equality | BinaryOperator::NonEquality => {
                builder.add_equation(TypeEquation::new(left_type_id, InferredType::Variable(right_type_id)));
                builder.add_source(left_type_id, InferenceSource::EqualityOperator);
                builder.add_equation(TypeEquation::new(right_type_id, InferredType::Variable(left_type_id)));
                builder.add_source(right_type_id, InferenceSource::EqualityOperator);
                let expr_type_id = builder.fresh_id();
                builder.add_equation(TypeEquation::new(expr_type_id, known_primitive(Primitive::Bool)));
                builder.add_source(expr_type_id, InferenceSource::EqualityOperator);
                self.var_type_id = expr_type_id;
            },
            BinaryOperator::LessThan | BinaryOperator::GreaterThan | BinaryOperator::GreaterThanEquals
            | BinaryOperator::LessThanEquals => {
                builder.add_equation(TypeEquation::new(left_type_id, known_primitive(Primitive::Int)));
                builder.add_source(left_type_id, InferenceSource::NumericOperator);
                builder.add_equation(TypeEquation::new(right_type_id, known_primitive(Primitive::Int)));
                builder.add_source(right_type_id, InferenceSource::NumericOperator);
                let expr_type_id = builder.fresh_id();
                builder.add_equation(TypeEquation::new(expr_type_id, known_primitive(Primitive::Bool)));
                builder.add_source(expr_type_id, InferenceSource::BooleanOperator);
                self.var_type_id = expr_type_id;
            },
            _ => {
                builder.add_equation(TypeEquation::new(left_type_id, known_primitive(Primitive::Int)));
                builder.add_source(left_type_id, InferenceSource::NumericOperator);
                builder.add_equation(TypeEquation::new(right_type_id, known_primitive(Primitive::Int)));
                builder.add_source(right_type_id, InferenceSource::NumericOperator);
                let expr_type_id = builder.fresh_id();
                builder.add_equation(TypeEquation::new(expr_type_id, known_primitive(Primitive::Int)));
                builder.add_source(expr_type_id, InferenceSource::NumericOperator);
                self.var_type_id = expr_type_id;
            },
        }
    }

    /// An assignment: the variable equals its value; an assignment has no
    /// value, so no type.
    pub fn visit_assignment(&mut self, builder: &mut TypeBuilder, assign: &Assignment)
        requires
            old(builder)@.current_id + 2 * expr_size(Expression::Assignment(*assign)) < u64::MAX,
        ensures
            (final(builder)@, final(self).var_type().value()) == ident_expr(
                old(builder)@,
                old(self).var_type().value(),
                Expression::Assignment(*assign),
            ),
            builder_grew(old(builder)@, final(builder)@, expr_size(Expression::Assignment(*assign))),
            old(self).var_type().value() <= old(builder)@.current_id ==> final(self).var_type().value()
                <= final(builder)@.current_id,
            final(self).return_type() == old(self).return_type(),
        decreases *assign, 0nat,
    {
        if assign.lvalue.id.is_default() {
            return;
        }
        let lvalue_type = builder.get_id(assign.lvalue.id.clone());
        self.visit_expression(builder, &assign.rvalue);
        let rvalue_type = self.var_type_id;
        builder.add_equation(TypeEquation::new(lvalue_type, InferredType::Variable(rvalue_type)));
        builder.add_source(lvalue_type, InferenceSource::Assignment);
        self.var_type_id = TypeId::default();
    }

    /// A call: the function's id equals the function type from the
    /// arguments' types, by parameter name, to a new id, the call's type.
    pub fn visit_fn_call(&mut self, builder: &mut TypeBuilder, fn_call: &FnCall)
        requires
            old(builder)@.current_id + 2 * expr_size(Expression::FnCall(*fn_call)) < u64::MAX,
        ensures
            (final(builder)@, final(self).var_type().value()) == ident_expr(
                old(builder)@,
                old(self).var_type().value(),
                Expression::FnCall(*fn_call),
            ),
            builder_grew(old(builder)@, final(builder)@, expr_size(Expression::FnCall(*fn_call))),
            old(self).var_type().value() <= old(builder)@.current_id ==> final(self).var_type().value()
                <= final(builder)@.current_id,
            final(self).return_type() == old(self).return_type(),
        decreases *fn_call, 0nat,
    {
        if fn_call.lvalue.id.is_default() {
            return;
        }
        let result_id = builder.fresh_id();
        let ghost b1 = builder@;
        let ghost t0 = self.var_type_id.value();
        let ghost args = fn_call.args@;
        let mut param_ids: Vec<(String, InferredType)> = Vec::new();
        assert(params_view(param_ids@) =~= seq![]);
        let n = fn_call.args.len();
        let mut k: usize = 0;
        while k < n
            invariant
                n == args.len(),
                args == fn_call.args@,
                k <= n,
                (builder@, self.var_type_id.value(), params_view(param_ids@)) == ident_args(
                    b1,
                    t0,
                    fn_call.lvalue,
                    args.take(k as int),
                ),
                builder_grew(b1, builder@, args_size(args.take(k as int))),
                b1.current_id + 2 * args_size(args) + 1 < u64::MAX,
                self.return_ty_id == old(self).return_ty_id,
                expr_size(Expression::FnCall(*fn_call)) == 1 + args_size(args),
            decreases n - k,
        {
            proof {
                lemma_args_size_prefix(args, k + 1);
                assert(args.take(k + 1).drop_last() =~= args.take(k as int));
            }
            assert(decreases_to!(*fn_call => fn_call.args@[k as int].value)) by {
                assert(decreases_to!(*fn_call => fn_call.args));
                assert(decreases_to!(fn_call.args => fn_call.args@));
                assert(decreases_to!(fn_call.args@ => fn_call.args@[k as int]));
            };
            let ghost (bk, tk, pk) = ident_args(b1, t0, fn_call.lvalue, args.take(k as int));
            self.visit_expression(builder, &fn_call.args[k].value);
            let arg_id = self.var_type_id;
            let callee = fn_call.lvalue.clone();
            assert(source_view(InferenceSource::CallArgument(callee)) == SourceView::CallArgument(ident_view(fn_call.lvalue)));
            builder.add_source(arg_id, InferenceSource::CallArgument(callee));
            let ghost before = param_ids@;
            let name = fn_call.args[k].param.name().to_owned();
            assert(name@ == args[k as int].param.token.text@);
            param_ids.push((name, InferredType::Variable(arg_id)));
            assert(param_ids@.drop_last() =~= before);
            assert(params_view(before) == pk);
            assert(param_ids@.last().0@ == args[k as int].param.token.text@);
            assert(crate::check::types::inferred_type::inferred_view(param_ids@.last().1) == InferredTypeView::Variable(arg_id.value()));
            assert(params_view(param_ids@) == pk.push((args[k as int].param.token.text@, InferredTypeView::Variable(arg_id.value()))));
            assert(args.take(k + 1).last() == args[k as int]);
            k += 1;
        }
        assert(args.take(n as int) =~= args);
        let ghost (b2, _t2, ps) = ident_args(b1, t0, fn_call.lvalue, args);
        assert(builder@ == b2 && params_view(param_ids@) == ps);
        let fn_id = builder.get_id(fn_call.lvalue.id.clone());
        let ghost b3 = builder@;
        assert((b3, fn_id.value()) == b_get_id(b2, fn_call.lvalue.id@));
        let ret = InferredType::Variable(result_id);
        assert(crate::check::types::inferred_type::inferred_view(ret) == InferredTypeView::Variable(result_id.value()));
        let equation = TypeEquation::new(
            fn_id,
            InferredType::Fn { params: param_ids, return_type: Box::new(ret) },
        );
        assert(equation_view(equation) == (fn_id.value(), InferredTypeView::Fn(ps, Box::new(InferredTypeView::Variable(result_id.value())))));
        builder.add_equation(equation);
        let callee = fn_call.lvalue.clone();
        assert(source_view(InferenceSource::CallReturnType(callee)) == SourceView::CallReturnType(ident_view(fn_call.lvalue)));
        builder.add_source(result_id, InferenceSource::CallReturnType(callee));
        self.var_type_id = result_id;
    }

    /// Visits a statement.
    pub fn visit_statement(&mut self, builder: &mut TypeBuilder, stmt: &Statement)
        requires
            old(builder)@.current_id + 2 * stmt_size(*stmt) < u64::MAX,
        ensures
            state_of(final(builder)@, *final(self)) == ident_stmt(state_of(old(builder)@, *old(self)), *stmt),
            builder_grew(old(builder)@, final(builder)@, stmt_size(*stmt)),
        decreases *stmt, 2nat,
    {
        match stmt {
            Statement::Expression(e) => self.visit_expression(builder, e),
            Statement::Declaration(d) => self.visit_declaration(builder, d),
            Statement::Return(r) => self.visit_return_stmt(builder, r),
            Statement::DoBlock(d) => self.visit_block(builder, &d.block),
            Statement::IfBlock(i) => self.visit_if_block(builder, i),
        }
    }

    /// A declaration: its variable equals its declared type, where a
    /// primitive one is written, and its value.
    pub fn visit_declaration(&mut self, builder: &mut TypeBuilder, decl: &Declaration)
        requires
            old(builder)@.current_id + 2 * stmt_size(Statement::Declaration(*decl)) < u64::MAX,
        ensures
            state_of(final(builder)@, *final(self)) == ident_stmt(
                state_of(old(builder)@, *old(self)),
                Statement::Declaration(*decl),
            ),
            builder_grew(old(builder)@, final(builder)@, stmt_size(Statement::Declaration(*decl))),
        decreases *decl, 0nat,
    {
        let var_type_id = builder.get_id(decl.ident.id.clone());
        match &decl.type_decl {
            Some(TypeExpression::Primitive(p)) => {
                builder.add_equation(TypeEquation::new(var_type_id, known_primitive(*p)));
                let ident = decl.ident.clone();
                assert(source_view(InferenceSource::ExplicitDecl(ident)) == SourceView::ExplicitDecl(ident_view(decl.ident)));
                builder.add_source(var_type_id, InferenceSource::ExplicitDecl(ident));
            },
            _ => {},
        }
        self.visit_expression(builder, &decl.value);
        let expr_type_id = self.var_type_id;
        builder.add_equation(TypeEquation::new(var_type_id, InferredType::Variable(expr_type_id)));
        let ident = decl.ident.clone();
        assert(source_view(InferenceSource::Declaration(ident)) == SourceView::Declaration(ident_view(decl.ident)));
        builder.add_source(var_type_id, InferenceSource::Declaration(ident));
        self.var_type_id = TypeId::default();
    }

    /// A `return`: the function's return type, where there is one, equals
    /// its value, or `()` without a value.
    pub fn visit_return_stmt(&mut self, builder: &mut TypeBuilder, return_: &Return)
        requires
            old(builder)@.current_id + 2 * stmt_size(Statement::Return(*return_)) < u64::MAX,
        ensures
            state_of(final(builder)@, *final(self)) == ident_stmt(
                state_of(old(builder)@, *old(self)),
                Statement::Return(*return_),
            ),
            builder_grew(old(builder)@, final(builder)@, stmt_size(Statement::Return(*return_))),
        decreases *return_, 0nat,
    {
        self.var_type_id = TypeId::default();
        match &return_.value {
            Some(value) => {
                self.visit_expression(builder, value);
                if !self.return_ty_id.is_default() {
                    builder.add_equation(TypeEquation::new(self.return_ty_id, InferredType::Variable(self.var_type_id)));
                }
            },
            None => {
                builder.add_equation(TypeEquation::new(self.return_ty_id, known_primitive(Primitive::Unary)));
            },
        }
        builder.add_source(self.return_ty_id, InferenceSource::ExplicitReturn);
    }

    /// An `if` block: each condition is a boolean, and the blocks are
    /// visited.
    pub fn visit_if_block(&mut self, builder: &mut TypeBuilder, if_block: &IfBlock)
        requires
            old(builder)@.current_id + 2 * stmt_size(Statement::IfBlock(*if_block)) < u64::MAX,
        ensures
            state_of(final(builder)@, *final(self)) == ident_stmt(
                state_of(old(builder)@, *old(self)),
                Statement::IfBlock(*if_block),
            ),
            builder_grew(old(builder)@, final(builder)@, stmt_size(Statement::IfBlock(*if_block))),
        decreases *if_block, 1nat,
    {
        if if_block.scoped_id.is_default() {
            return;
        }
        let ghost s0 = state_of(builder@, *self);
        let ghost b0 = builder@;
        let ghost cs = if_block.conditionals@;
        let n = if_block.conditionals.len();
        let mut k: usize = 0;
        while k < n
            invariant
                n == cs.len(),
                cs == if_block.conditionals@,
                k <= n,
                state_of(builder@, *self) == ident_conds(s0, cs.take(k as int)),
                builder_grew(b0, builder@, conds_size(cs.take(k as int))),
                b0.current_id + 2 * stmt_size(Statement::IfBlock(*if_block)) < u64::MAX,
                conds_size(cs) <= stmt_size(Statement::IfBlock(*if_block)),
            decreases n - k,
        {
            proof {
                lemma_conds_size_prefix(cs, k + 1);
                assert(cs.take(k + 1).drop_last() =~= cs.take(k as int));
                assert(cs.take(k + 1).last() == cs[k as int]);
            }
            assert(decreases_to!(*if_block => if_block.conditionals@[k as int].block)) by {
                assert(decreases_to!(*if_block => if_block.conditionals));
                assert(decreases_to!(if_block.conditionals => if_block.conditionals@));
                assert(decreases_to!(if_block.conditionals@ => if_block.conditionals@[k as int]));
                assert(decreases_to!(if_block.conditionals@[k as int] => if_block.conditionals@[k as int].block));
            };
            self.visit_expression(builder, &if_block.conditionals[k].condition);
            let cond_ty_id = self.var_type_id;
            builder.add_equation(TypeEquation::new(cond_ty_id, known_primitive(Primitive::Bool)));
            builder.add_source(cond_ty_id, InferenceSource::IfConditionalBool);
            self.var_type_id = TypeId::default();
            self.visit_block(builder, &if_block.conditionals[k].block);
            k += 1;
        }
        assert(cs.take(n as int) =~= cs);
        match &if_block.else_block {
            Some(block) => self.visit_block(builder, block),
            None => {},
        }
    }

    /// Visits the statements of a block, first to last; a block without a
    /// `ScopedId` is skipped.
    pub fn visit_block(&mut self, builder: &mut TypeBuilder, block: &Block)
        requires
            old(builder)@.current_id + 2 * block_size(*block) < u64::MAX,
        ensures
            state_of(final(builder)@, *final(self)) == ident_block(state_of(old(builder)@, *old(self)), *block),
            builder_grew(old(builder)@, final(builder)@, block_size(*block)),
        decreases *block, 0nat,
    {
        if block.scope_id.is_default() {
            return;
        }
        let ghost s0 = state_of(builder@, *self);
        let ghost b0 = builder@;
        let ghost sts = block.statements@;
        let n = block.statements.len();
        let mut k: usize = 0;
        while k < n
            invariant
                n == sts.len(),
                sts == block.statements@,
                k <= n,
                state_of(builder@, *self) == ident_stmts(s0, sts.take(k as int)),
                builder_grew(b0, builder@, stmts_size(sts.take(k as int))),
                b0.current_id + 2 * block_size(*block) < u64::MAX,
                block_size(*block) == stmts_size(sts),
            decreases n - k,
        {
            proof {
                lemma_stmts_size_prefix(sts, k + 1);
                assert(sts.take(k + 1).drop_last() =~= sts.take(k as int));
            }
            assert(decreases_to!(*block => block.statements@[k as int])) by {
                assert(decreases_to!(*block => block.statements));
                assert(decreases_to!(block.statements => block.statements@));
                assert(decreases_to!(block.statements@ => block.statements@[k as int]));
            };
            self.visit_statement(builder, &block.statements[k]);
            k += 1;
        }
        assert(sts.take(n as int) =~= sts);
    }

    /// A function with a `ScopedId`: its id equals the function type from
    /// its parameters' types to a new return type id, which equals its
    /// declared primitive return type; its block is visited with that
    /// return type; where it returns a value, the value its block ends with
    /// is of the return type.
    pub fn visit_block_fn_decl(&mut self, builder: &mut TypeBuilder, block_fn: &BlockFnDeclaration)
        requires
            old(builder)@.current_id + 2 * fn_size(*block_fn) < u64::MAX,
            primitive_params(*block_fn),
        ensures
            state_of(final(builder)@, *final(self)) == ident_fn(state_of(old(builder)@, *old(self)), *block_fn),
            builder_grew(old(builder)@, final(builder)@, fn_size(*block_fn)),
    {
        if block_fn.ident.id.is_default() {
            return;
        }
        let ghost b0 = builder@;
        let fn_type_id = builder.get_id(block_fn.ident.id.clone());
        let ghost b1 = builder@;
        let ghost ps = block_fn.params@;
        let mut param_types: Vec<(String, InferredType)> = Vec::new();
        assert(params_view(param_types@) =~= seq![]);
        let n = block_fn.params.len();
        let mut k: usize = 0;
        while k < n
            invariant
                n == ps.len(),
                ps == block_fn.params@,
                k <= n,
                (builder@, params_view(param_types@)) == ident_params(b1, ps.take(k as int)),
                builder_grew(b1, builder@, k as nat),
                b1.current_id + 2 * (n + 1 + block_size(block_fn.block)) < u64::MAX,
            decreases n - k,
        {
            proof {
                assert(ps.take(k + 1).drop_last() =~= ps.take(k as int));
                assert(ps.take(k + 1).last() == ps[k as int]);
            }
            let ghost (bk, tk) = ident_params(b1, ps.take(k as int));
            let param_ident = &block_fn.params[k].0;
            let param_id = builder.get_id(param_ident.id.clone());
            let t = match &block_fn.params[k].1 {
                TypeExpression::Primitive(p) => known_primitive(*p),
                _ => known_primitive(Primitive::Unary),
            };
            builder.add_equation(TypeEquation::new(param_id, t));
            let ident = param_ident.clone();
            assert(source_view(InferenceSource::FnParameter(ident)) == SourceView::FnParameter(ident_view(*param_ident)));
            builder.add_source(param_id, InferenceSource::FnParameter(ident));
            let ghost before = param_types@;
            let name = param_ident.name().to_owned();
            param_types.push((name, InferredType::Variable(param_id)));
            assert(param_types@.drop_last() =~= before);
            assert(crate::check::types::inferred_type::inferred_view(param_types@.last().1) == InferredTypeView::Variable(param_id.value()));
            assert(params_view(param_types@) == tk.push((param_ident.token.text@, InferredTypeView::Variable(param_id.value()))));
            k += 1;
        }
        assert(ps.take(n as int) =~= ps);
        let ret_id = builder.fresh_id();
        match &block_fn.ret_ty {
            TypeExpression::Primitive(p) => builder.add_equation(TypeEquation::new(ret_id, known_primitive(*p))),
            _ => {},
        }
        let ghost pv = params_view(param_types@);
        let ret = InferredType::Variable(ret_id);
        assert(crate::check::types::inferred_type::inferred_view(ret) == InferredTypeView::Variable(ret_id.value()));
        let equation = TypeEquation::new(fn_type_id, InferredType::Fn { params: param_types, return_type: Box::new(ret) });
        assert(equation_view(equation) == (fn_type_id.value(), InferredTypeView::Fn(pv, Box::new(InferredTypeView::Variable(ret_id.value())))));
        builder.add_equation(equation);
        let ident = block_fn.ident.clone();
        assert(source_view(InferenceSource::FnSignature(ident)) == SourceView::FnSignature(ident_view(block_fn.ident)));
        builder.add_source(fn_type_id, InferenceSource::FnSignature(ident));
        self.var_type_id = TypeId::default();
        self.return_ty_id = ret_id;
        self.visit_block(builder, &block_fn.block);
        let needs_value = match &block_fn.ret_ty {
            TypeExpression::Primitive(Primitive::Unary) => false,
            _ => true,
        };
        if needs_value && !self.var_type_id.is_default() {
            builder.add_equation(TypeEquation::new(ret_id, InferredType::Variable(self.var_type_id)));
            let ident = block_fn.ident.clone();
            assert(source_view(InferenceSource::FnReturnType(ident)) == SourceView::FnReturnType(ident_view(block_fn.ident)));
            builder.add_source(ret_id, InferenceSource::FnReturnType(ident));
        }
    }
}

/// Every equation of `b0` stands at the same place in `b1`.
pub open spec fn equations_kept(b0: BuilderView, b1: BuilderView) -> bool {
    &&& b0.equations.len() <= b1.equations.len()
    &&& forall|k: int| 0 <= k < b0.equations.len() ==> #[trigger] b1.equations[k] == b0.equations[k]
}

proof fn lemma_expr_kept(b: BuilderView, t: u64, e: Expression)
    ensures
        equations_kept(b, ident_expr(b, t, e).0),
    decreases e,
{
    match e {
        Expression::IfExpression(x) => {
            let (b1, c) = ident_expr(b, 0, *x.condition);
            lemma_expr_kept(b, 0, *x.condition);
            let b2 = b_src(b_eq(b1, c, known(Primitive::Bool)), c, SourceView::IfConditionalBool);
            let (b3, l) = ident_expr(b2, c, *x.true_expr);
            lemma_expr_kept(b2, c, *x.true_expr);
            lemma_expr_kept(b3, l, *x.else_expr);
        },
        Expression::UnaryOp(u) => lemma_expr_kept(b, t, *u.expression),
        Expression::BinaryOp(o) => {
            let (b1, l) = ident_expr(b, t, *o.left);
            lemma_expr_kept(b, t, *o.left);
            lemma_expr_kept(b1, l, *o.right);
        },
        Expression::Assignment(a) => {
            if a.lvalue.id@ != spec_default_index() {
                let (b1, lv) = b_get_id(b, a.lvalue.id@);
                lemma_expr_kept(b1, t, *a.rvalue);
            }
        },
        Expression::FnCall(f) => {
            if f.lvalue.id@ != spec_default_index() {
                let (b1, result) = b_fresh(b);
                lemma_args_kept(b1, t, f.lvalue, f.args@);
            }
        },
        _ => {},
    }
}

proof fn lemma_args_kept(b: BuilderView, t: u64, callee: Identifier, args: Seq<CallArgument>)
    ensures
        equations_kept(b, ident_args(b, t, callee, args).0),
    decreases args,
{
    if args.len() > 0 {
        lemma_args_kept(b, t, callee, args.drop_last());
        let (b1, t1, ps) = ident_args(b, t, callee, args.drop_last());
        lemma_expr_kept(b1, t1, args.last().value);
    }
}

proof fn lemma_stmt_kept(s: IdentState, st: Statement)
    ensures
        equations_kept(s.builder, ident_stmt(s, st).builder),
        ident_stmt(s, st).return_type == s.return_type,
    decreases st,
{
    match st {
        Statement::Expression(e) => lemma_expr_kept(s.builder, s.var_type, e),
        Statement::Declaration(d) => {
            let (b1, v) = b_get_id(s.builder, d.ident.id@);
            let b2 = match d.type_decl {
                Some(te) => match declared_inferred(te) {
                    Some(t) => b_src(b_eq(b1, v, t), v, SourceView::ExplicitDecl(ident_view(d.ident))),
                    None => b1,
                },
                None => b1,
            };
            lemma_expr_kept(b2, s.var_type, *d.value);
        },
        Statement::Return(r) => {
            if let Some(value) = r.value {
                lemma_expr_kept(s.builder, 0, *value);
            }
        },
        Statement::DoBlock(d) => lemma_block_kept(s, *d.block),
        Statement::IfBlock(i) => {
            if i.scoped_id@ != spec_default_index() {
                lemma_conds_kept(s, i.conditionals@);
                if let Some(b) = i.else_block {
                    lemma_block_kept(ident_conds(s, i.conditionals@), b);
                }
            }
        },
    }
}

proof fn lemma_conds_kept(s: IdentState, cs: Seq<Conditional>)
    ensures
        equations_kept(s.builder, ident_conds(s, cs).builder),
        ident_conds(s, cs).return_type == s.return_type,
    decreases cs,
{
    if cs.len() > 0 {
        lemma_conds_kept(s, cs.drop_last());
        let s1 = ident_conds(s, cs.drop_last());
        lemma_expr_kept(s1.builder, s1.var_type, cs.last().condition);
        let s2 = with_expr(s1, cs.last().condition);
        let c = s2.var_type;
        let b3 = b_src(b_eq(s2.builder, c, known(Primitive::Bool)), c, SourceView::IfConditionalBool);
        lemma_block_kept(IdentState { builder: b3, var_type: 0, ..s2 }, cs.last().block);
    }
}

proof fn lemma_stmts_kept(s: IdentState, sts: Seq<Statement>)
    ensures
        equations_kept(s.builder, ident_stmts(s, sts).builder),
        ident_stmts(s, sts).return_type == s.return_type,
    decreases sts,
{
    if sts.len() > 0 {
        lemma_stmts_kept(s, sts.drop_last());
        lemma_stmt_kept(ident_stmts(s, sts.drop_last()), sts.last());
    }
}

proof fn lemma_block_kept(s: IdentState, b: Block)
    ensures
        equations_kept(s.builder, ident_block(s, b).builder),
        ident_block(s, b).return_type == s.return_type,
    decreases b,
{
    if b.scope_id@ != spec_default_index() {
        lemma_stmts_kept(s, b.statements@);
    }
}

/// Visiting the statements after the first `k` keeps their equations.
proof fn lemma_stmts_take_kept(s: IdentState, sts: Seq<Statement>, k: int)
    requires
        0 <= k <= sts.len(),
    ensures
        equations_kept(ident_stmts(s, sts.take(k)).builder, ident_stmts(s, sts).builder),
    decreases sts.len() - k,
{
    if k < sts.len() {
        lemma_stmts_take_kept(s, sts, k + 1);
        assert(sts.take(k + 1).drop_last() =~= sts.take(k));
        assert(sts.take(k + 1).last() == sts[k]);
        lemma_stmt_kept(ident_stmts(s, sts.take(k)), sts[k]);
    } else {
        assert(sts.take(k) =~= sts);
    }
}

/// The equation that a `return` without a value gives in a function whose
/// return type is `rt`: `rt = ()`.
pub open spec fn unit_return(rt: u64) -> (u64, InferredTypeView) {
    (rt, InferredTypeView::Known(ConcreteTypeView::Primitive(Primitive::Unary)))
}

/// `st` is a `return` without a value.
pub open spec fn is_bare_return(st: Statement) -> bool {
    st matches Statement::Return(r) && r.value is None
}

/// A `return` without a value directly in an identified block gives the
/// equation of the return type with `()`.
proof fn lemma_block_return(s: IdentState, b: Block, j: int)
    requires
        b.scope_id@ != spec_default_index(),
        0 <= j < b.statements@.len(),
        is_bare_return(b.statements@[j]),
    ensures
        ident_block(s, b).builder.equations.contains(unit_return(s.return_type)),
{
    let sts = b.statements@;
    let sj = ident_stmts(s, sts.take(j));
    lemma_stmts_kept(s, sts.take(j));
    let e = unit_return(s.return_type);
    let after = ident_stmt(sj, sts[j]);
    assert(after.builder.equations[sj.builder.equations.len() as int] == e);
    assert(sts.take(j + 1).drop_last() =~= sts.take(j));
    assert(sts.take(j + 1).last() == sts[j]);
    assert(ident_stmts(s, sts.take(j + 1)) == after);
    lemma_stmts_take_kept(s, sts, j + 1);
    let fin = ident_stmts(s, sts);
    assert(fin.builder.equations[sj.builder.equations.len() as int] == e);
}

/// Visiting the conditionals after the first `k` keeps their equations.
proof fn lemma_conds_take_kept(s: IdentState, cs: Seq<Conditional>, k: int)
    requires
        0 <= k <= cs.len(),
    ensures
        equations_kept(ident_conds(s, cs.take(k)).builder, ident_conds(s, cs).builder),
    decreases cs.len() - k,
{
    if k < cs.len() {
        lemma_conds_take_kept(s, cs, k + 1);
        assert(cs.take(k + 1).drop_last() =~= cs.take(k));
        assert(cs.take(k + 1).last() == cs[k]);
        let s1 = ident_conds(s, cs.take(k));
        lemma_expr_kept(s1.builder, s1.var_type, cs[k].condition);
        let s2 = with_expr(s1, cs[k].condition);
        let c = s2.var_type;
        let b3 = b_src(b_eq(s2.builder, c, known(Primitive::Bool)), c, SourceView::IfConditionalBool);
        lemma_block_kept(IdentState { builder: b3, var_type: 0, ..s2 }, cs[k].block);
    } else {
        assert(cs.take(k) =~= cs);
    }
}

/// A `return` without a value written directly in the `else` block of an
/// `if` block equates the return type of the function being visited with
/// `()`: the equations after the `if` block hold that equation, whatever
/// its conditionals and the rest of the `else` block hold.
pub proof fn law_else_returns_are_equated(s: IdentState, i: IfBlock, j: int)
    requires
        i.scoped_id@ != spec_default_index(),
        i.else_block is Some,
        i.else_block.unwrap().scope_id@ != spec_default_index(),
        0 <= j < i.else_block.unwrap().statements@.len(),
        is_bare_return(i.else_block.unwrap().statements@[j]),
    ensures
        ident_stmt(s, Statement::IfBlock(i)).builder.equations.contains(unit_return(s.return_type)),
{
    let s1 = ident_conds(s, i.conditionals@);
    lemma_conds_kept(s, i.conditionals@);
    lemma_block_return(s1, i.else_block.unwrap(), j);
}

/// A `return` without a value written directly in the block of one of an
/// identified `if` block's conditionals equates the function's return type
/// with `()`.
pub proof fn law_conditional_returns_are_equated(s: IdentState, i: IfBlock, k: int, j: int)
    requires
        i.scoped_id@ != spec_default_index(),
        0 <= k < i.conditionals@.len(),
        i.conditionals@[k].block.scope_id@ != spec_default_index(),
        0 <= j < i.conditionals@[k].block.statements@.len(),
        is_bare_return(i.conditionals@[k].block.statements@[j]),
    ensures
        ident_stmt(s, Statement::IfBlock(i)).builder.equations.contains(unit_return(s.return_type)),
{
    let cs = i.conditionals@;
    let e = unit_return(s.return_type);
    let sk = ident_conds(s, cs.take(k));
    lemma_conds_kept(s, cs.take(k));
    let s2 = with_expr(sk, cs[k].condition);
    let c = s2.var_type;
    let b3 = b_src(b_eq(s2.builder, c, known(Primitive::Bool)), c, SourceView::IfConditionalBool);
    let t = IdentState { builder: b3, var_type: 0, ..s2 };
    lemma_block_return(t, cs[k].block, j);
    assert(cs.take(k + 1).drop_last() =~= cs.take(k));
    assert(cs.take(k + 1).last() == cs[k]);
    assert(ident_conds(s, cs.take(k + 1)) == ident_block(t, cs[k].block));
    let m = choose|m: int| 0 <= m < ident_block(t, cs[k].block).builder.equations.len()
        && ident_block(t, cs[k].block).builder.equations[m] == e;
    lemma_conds_take_kept(s, cs, k + 1);
    let s1 = ident_conds(s, cs);
    assert(s1.builder.equations[m] == e);
    if let Some(b) = i.else_block {
        lemma_block_kept(s1, b);
        assert(ident_block(s1, b).builder.equations[m] == e);
    }
}

/// A `return` without a value written directly in an identified `do` block
/// equates the function's return type with `()`.
pub proof fn law_do_block_returns_are_equated(s: IdentState, d: DoBlock, j: int)
    requires
        d.block.scope_id@ != spec_default_index(),
        0 <= j < d.block.statements@.len(),
        is_bare_return(d.block.statements@[j]),
    ensures
        ident_stmt(s, Statement::DoBlock(d)).builder.equations.contains(unit_return(s.return_type)),
{
    lemma_block_return(s, *d.block, j);
}

} // verus!
