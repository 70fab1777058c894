//! Collecting type constraints from expressions.

use protosnirk::ast::{
    Assignment, BinaryOperation, BinaryOperator, Block, BlockFnDeclaration, CallArgument, Declaration, DoBlock,
    Expression, FnCall, Identifier, IfExpression, Item, Literal, NamedTypeExpression, Primitive, ScopedId, Statement,
    TypeExpression, UnaryOperation, UnaryOperator, Unit,
};
use protosnirk::check::types::environment::{ConstraintSource, TypeConstraint, TypeEnvironment, TypeId};
use protosnirk::check::types::expression_collector::ExpressionTypeCollector;
use protosnirk::lex::{Span, TextLocation, Token, TokenData};

fn loc(index: usize) -> TextLocation {
    TextLocation { index, line: 0, column: index }
}

fn ident(name: &str, id: &[usize]) -> Identifier {
    let mut ident = Identifier::new(Token { location: loc(0), text: name.to_string(), data: TokenData::Ident });
    ident.id = ScopedId::new(id.to_vec());
    ident
}

fn var_ref(name: &str, id: &[usize]) -> Expression {
    Expression::VariableRef(ident(name, id))
}

fn number(text: &str) -> Expression {
    let token = Token { location: loc(0), text: text.to_string(), data: TokenData::NumberLiteral };
    Expression::Literal(Literal::new_float(token, text.to_string()))
}

fn binary(operator: BinaryOperator, left: Expression, right: Expression) -> Expression {
    Expression::BinaryOp(BinaryOperation::new(operator, Box::new(left), Box::new(right)))
}

fn same(a: u64, b: u64, source: ConstraintSource) -> (TypeConstraint, ConstraintSource) {
    (TypeConstraint::TypesAreSame(TypeId::new(a), TypeId::new(b)), source)
}

fn known(id: &[usize], t: u64) -> (TypeConstraint, ConstraintSource) {
    (TypeConstraint::VarIdentKnownType(ScopedId::new(id.to_vec()), TypeId::new(t)), ConstraintSource::Unknown)
}

#[test]
fn arithmetic_operands_are_numbers() {
    let mut env = TypeEnvironment::new();
    let mut collector = ExpressionTypeCollector::new();
    collector.visit_expression(&mut env, &binary(BinaryOperator::Addition, var_ref("x", &[1]), number("1")));
    // `x` gets the new type 3; a literal leaves the current type as it was.
    assert_eq!(
        env.constraints(),
        &[
            known(&[1], 3),
            same(3, 1, ConstraintSource::NumericOperator),
            same(3, 1, ConstraintSource::NumericOperator),
        ][..]
    );
    assert_eq!(collector.get_expr_type(), TypeId::new(1));
}

#[test]
fn equality_operands_share_a_type_and_give_a_boolean() {
    let mut env = TypeEnvironment::new();
    let mut collector = ExpressionTypeCollector::new();
    collector.visit_expression(&mut env, &binary(BinaryOperator::Equality, var_ref("a", &[1]), var_ref("b", &[2])));
    assert_eq!(
        env.constraints(),
        &[known(&[1], 3), known(&[2], 4), same(3, 4, ConstraintSource::EqualityOperator)][..]
    );
    assert_eq!(collector.get_expr_type(), TypeId::new(2));

    // A variable seen before keeps its type.
    collector.visit_expression(&mut env, &binary(BinaryOperator::LessThan, var_ref("a", &[1]), var_ref("b", &[2])));
    assert_eq!(env.constraints().len(), 5);
    assert_eq!(env.constraints()[3], same(3, 1, ConstraintSource::NumericOperator));
    assert_eq!(env.constraints()[4], same(4, 1, ConstraintSource::NumericOperator));
    assert_eq!(collector.get_expr_type(), TypeId::new(2));
}

#[test]
fn if_conditions_are_booleans_and_branches_agree() {
    let mut env = TypeEnvironment::new();
    let mut collector = ExpressionTypeCollector::new();
    let e = Expression::IfExpression(IfExpression::new(
        loc(0),
        Box::new(var_ref("c", &[1])),
        Box::new(var_ref("x", &[2])),
        Box::new(var_ref("y", &[3])),
    ));
    collector.visit_expression(&mut env, &e);
    assert_eq!(
        env.constraints(),
        &[
            known(&[1], 3),
            same(3, 2, ConstraintSource::IfConditionalBool),
            known(&[2], 4),
            known(&[3], 5),
            same(4, 5, ConstraintSource::IfBranchesSame),
        ][..]
    );
    assert_eq!(collector.get_expr_type(), TypeId::new(5));
}

#[test]
fn negation_takes_a_number() {
    let mut env = TypeEnvironment::new();
    let mut collector = ExpressionTypeCollector::new();
    let e = Expression::UnaryOp(UnaryOperation::new(loc(0), UnaryOperator::Negation, Box::new(var_ref("n", &[1]))));
    collector.visit_expression(&mut env, &e);
    assert_eq!(env.constraints(), &[known(&[1], 3), same(3, 1, ConstraintSource::NumericOperator)][..]);
    assert_eq!(collector.get_expr_type(), TypeId::new(1));
}

#[test]
fn assignments_match_the_variable_and_have_no_type() {
    let mut env = TypeEnvironment::new();
    let mut collector = ExpressionTypeCollector::new();
    collector.visit_expression(&mut env, &var_ref("z", &[4]));
    let e = Expression::Assignment(Assignment::new(ident("z", &[4]), Box::new(var_ref("w", &[5]))));
    collector.visit_expression(&mut env, &e);
    assert_eq!(
        env.constraints(),
        &[known(&[4], 3), known(&[5], 4), same(3, 4, ConstraintSource::VarAssignment)][..]
    );
    assert!(collector.get_expr_type().is_default());
}

#[test]
fn calls_pass_values_to_parameters_and_return_a_new_type() {
    let mut env = TypeEnvironment::new();
    let mut collector = ExpressionTypeCollector::new();
    let call = Expression::FnCall(FnCall::new(
        Span::from_locations(loc(0), loc(5)),
        ident("f", &[6]),
        vec![CallArgument::named(ident("x", &[6, 1]), var_ref("v", &[2]))],
    ));
    collector.visit_expression(&mut env, &call);
    assert_eq!(
        env.constraints(),
        &[
            known(&[2], 3),
            (
                TypeConstraint::ValueForFnArg(ScopedId::new(vec![6]), ScopedId::new(vec![6, 1]), TypeId::new(3)),
                ConstraintSource::FnSignature
            ),
            (TypeConstraint::TypeIsFnReturned(TypeId::new(4), ScopedId::new(vec![6])), ConstraintSource::FnSignature),
        ][..]
    );
    assert_eq!(collector.get_expr_type(), TypeId::new(4));
    assert_eq!(env.get_type_id_of_var(&ScopedId::new(vec![2])), Some(TypeId::new(3)));
    assert_eq!(env.get_type_id_of_var(&ScopedId::new(vec![9])), None);
}

fn declaration(name: &str, id: &[usize], type_decl: Option<TypeExpression>, value: Expression) -> Statement {
    let mut decl = Declaration::new(loc(0), ident(name, &[]), false, type_decl, Box::new(value));
    decl.ident.id = ScopedId::new(id.to_vec());
    Statement::Declaration(decl)
}

#[test]
fn declarations_give_variables_new_types() {
    let mut env = TypeEnvironment::new();
    let mut collector = ExpressionTypeCollector::new();
    // `let x: float = y`: `float` is the type name defined with id `[1]`.
    let float_name = TypeExpression::Named(NamedTypeExpression::new(ident("float", &[1])));
    collector.visit_statement(&mut env, &declaration("x", &[3], Some(float_name), var_ref("y", &[4])));
    assert_eq!(
        env.constraints(),
        &[
            known(&[3], 3),
            same(3, 1, ConstraintSource::ExplicitVarDecl),
            known(&[4], 4),
            same(3, 4, ConstraintSource::VarDeclValue),
        ][..]
    );
    // A name with no definition gives the unassigned id.
    let unknown_name = TypeExpression::Named(NamedTypeExpression::new(ident("thing", &[8])));
    collector.visit_statement(&mut env, &declaration("z", &[5], Some(unknown_name), var_ref("x", &[3])));
    assert_eq!(env.constraints()[5], same(5, 0, ConstraintSource::ExplicitVarDecl));
    assert_eq!(env.constraints()[6], same(5, 3, ConstraintSource::VarDeclValue));
}

#[test]
fn units_visit_the_bodies_of_identified_functions() {
    let mut env = TypeEnvironment::new();
    let mut collector = ExpressionTypeCollector::new();
    let body = Block::new(vec![
        declaration("a", &[1, 1], None, var_ref("b", &[1, 2])),
        Statement::DoBlock(DoBlock::new(loc(0), Box::new(Block::new(vec![Statement::Expression(var_ref("c", &[1, 3]))])))),
    ]);
    let mut identified = BlockFnDeclaration::new(
        loc(0),
        ident("main", &[]),
        vec![],
        TypeExpression::Primitive(Primitive::Unary),
        false,
        body,
    );
    identified.ident.id = ScopedId::new(vec![1]);
    let unidentified = BlockFnDeclaration::new(
        loc(0),
        ident("other", &[0]),
        vec![],
        TypeExpression::Primitive(Primitive::Unary),
        false,
        Block::new(vec![Statement::Expression(var_ref("d", &[2, 1]))]),
    );
    let unit = Unit::new(
        Span::from_locations(loc(0), loc(9)),
        vec![Item::BlockFnDeclaration(identified), Item::BlockFnDeclaration(unidentified)],
    );
    collector.visit_unit(&mut env, &unit);
    assert_eq!(
        env.constraints(),
        &[
            known(&[1, 1], 3),
            known(&[1, 2], 4),
            same(3, 4, ConstraintSource::VarDeclValue),
            known(&[1, 3], 5),
        ][..]
    );
}
