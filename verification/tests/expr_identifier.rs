//! Type equations of expressions.

use protosnirk::ast::{
    Assignment, BinaryOperation, BinaryOperator, Block, BlockFnDeclaration, CallArgument, Conditional, Declaration,
    Expression, FnCall, Identifier, IfBlock, IfExpression, Literal, Primitive, Return, ScopedId, Statement,
    TypeExpression, UnaryOperation, UnaryOperator,
};
use protosnirk::check::types::concrete_type::ConcreteType;
use protosnirk::check::types::environment::TypeId;
use protosnirk::check::types::expr_identifier::{ExprTypeIdentifier, TypeBuilder};
use protosnirk::check::types::identify::InferenceSource;
use protosnirk::check::types::inferred_type::{InferredType, TypeEquation};
use protosnirk::lex::{Span, TextLocation, Token, TokenData};

fn loc(index: usize) -> TextLocation {
    TextLocation { index, line: 0, column: index }
}

fn ident(name: &str, id: &[usize]) -> Identifier {
    let mut ident = Identifier::new(Token { location: loc(0), text: name.to_string(), data: TokenData::Ident });
    ident.id = ScopedId::new(id.to_vec());
    ident
}

fn var_ref(name: &str, id: &[usize]) -> Expression {
    Expression::VariableRef(ident(name, id))
}

fn number(text: &str) -> Expression {
    let token = Token { location: loc(0), text: text.to_string(), data: TokenData::NumberLiteral };
    Expression::Literal(Literal::new_float(token, text.to_string()))
}

fn binary(operator: BinaryOperator, left: Expression, right: Expression) -> Expression {
    Expression::BinaryOp(BinaryOperation::new(operator, Box::new(left), Box::new(right)))
}

fn known(lhs: u64, p: Primitive) -> TypeEquation {
    TypeEquation::new(TypeId::new(lhs), InferredType::Known(ConcreteType::Primitive(p)))
}

fn same(lhs: u64, rhs: u64) -> TypeEquation {
    TypeEquation::new(TypeId::new(lhs), InferredType::Variable(TypeId::new(rhs)))
}

#[test]
fn arithmetic_makes_numbers() {
    let mut builder = TypeBuilder::new();
    let mut identifier = ExprTypeIdentifier::new();
    identifier.visit_expression(&mut builder, &binary(BinaryOperator::Addition, var_ref("x", &[1]), number("1")));
    assert_eq!(
        builder.equations(),
        &[known(2, Primitive::Int), known(1, Primitive::Int), known(2, Primitive::Int), known(3, Primitive::Int)][..]
    );
    assert_eq!(identifier.get_var_type(), TypeId::new(3));
    assert_eq!(
        builder.sources(),
        &[
            (TypeId::new(2), InferenceSource::LiteralValue),
            (TypeId::new(1), InferenceSource::NumericOperator),
            (TypeId::new(2), InferenceSource::NumericOperator),
            (TypeId::new(3), InferenceSource::NumericOperator),
        ][..]
    );
}

#[test]
fn equality_makes_operands_equal_and_a_boolean() {
    let mut builder = TypeBuilder::new();
    let mut identifier = ExprTypeIdentifier::new();
    identifier.visit_expression(&mut builder, &binary(BinaryOperator::NonEquality, var_ref("a", &[1]), var_ref("b", &[2])));
    assert_eq!(builder.equations(), &[same(1, 2), same(2, 1), known(3, Primitive::Bool)][..]);
    assert_eq!(identifier.get_var_type(), TypeId::new(3));

    // The same variable keeps its id.
    identifier.visit_expression(&mut builder, &binary(BinaryOperator::LessThan, var_ref("a", &[1]), number("2")));
    assert_eq!(builder.equations().len(), 7);
    assert_eq!(builder.equations()[3], known(4, Primitive::Int));
    assert_eq!(builder.equations()[4], known(1, Primitive::Int));
    assert_eq!(builder.equations()[6], known(5, Primitive::Bool));
    assert_eq!(builder.sources()[6], (TypeId::new(5), InferenceSource::BooleanOperator));
}

#[test]
fn conditions_are_booleans_and_branches_equal() {
    let mut builder = TypeBuilder::new();
    let mut identifier = ExprTypeIdentifier::new();
    let e = Expression::IfExpression(IfExpression::new(
        loc(0),
        Box::new(var_ref("c", &[1])),
        Box::new(var_ref("x", &[2])),
        Box::new(var_ref("y", &[3])),
    ));
    identifier.visit_expression(&mut builder, &e);
    assert_eq!(builder.equations(), &[known(1, Primitive::Bool), same(2, 3)][..]);
    assert_eq!(identifier.get_var_type(), TypeId::new(3));
}

#[test]
fn negation_gives_a_new_number() {
    let mut builder = TypeBuilder::new();
    let mut identifier = ExprTypeIdentifier::new();
    let e = Expression::UnaryOp(UnaryOperation::new(loc(0), UnaryOperator::Negation, Box::new(var_ref("n", &[1]))));
    identifier.visit_expression(&mut builder, &e);
    assert_eq!(builder.equations(), &[known(1, Primitive::Int), known(2, Primitive::Int)][..]);
    assert_eq!(identifier.get_var_type(), TypeId::new(2));
}

#[test]
fn assignments_equal_their_variable_and_have_no_type() {
    let mut builder = TypeBuilder::new();
    let mut identifier = ExprTypeIdentifier::new();
    let e = Expression::Assignment(Assignment::new(ident("a", &[1]), Box::new(number("4"))));
    identifier.visit_expression(&mut builder, &e);
    assert_eq!(builder.equations(), &[known(2, Primitive::Int), same(1, 2)][..]);
    assert!(identifier.get_var_type().is_default());
}

#[test]
fn calls_equal_the_function_to_a_function_type() {
    let mut builder = TypeBuilder::new();
    let mut identifier = ExprTypeIdentifier::new();
    let call = Expression::FnCall(FnCall::new(
        Span::from_locations(loc(0), loc(5)),
        ident("f", &[5]),
        vec![CallArgument::named(ident("x", &[5, 1]), var_ref("v", &[2]))],
    ));
    identifier.visit_expression(&mut builder, &call);
    let fn_type = InferredType::Fn {
        params: vec![("x".to_string(), InferredType::Variable(TypeId::new(2)))],
        return_type: Box::new(InferredType::Variable(TypeId::new(1))),
    };
    assert_eq!(builder.equations(), &[TypeEquation::new(TypeId::new(3), fn_type)][..]);
    assert_eq!(identifier.get_var_type(), TypeId::new(1));
    assert_eq!(
        builder.sources(),
        &[
            (TypeId::new(2), InferenceSource::CallArgument(ident("f", &[5]))),
            (TypeId::new(1), InferenceSource::CallReturnType(ident("f", &[5]))),
        ][..]
    );
}

fn block(id: &[usize], statements: Vec<Statement>) -> Block {
    let mut b = Block::new(statements);
    b.scope_id = ScopedId::new(id.to_vec());
    b
}

#[test]
fn functions_equal_their_signature_and_their_returns() {
    // fn f(x: int) -> int { let y: int = x; return y }
    let mut decl = Declaration::new(
        loc(0),
        ident("y", &[1, 2]),
        false,
        Some(TypeExpression::Primitive(Primitive::Int)),
        Box::new(var_ref("x", &[1, 1])),
    );
    decl.ident.id = ScopedId::new(vec![1, 2]);
    let body = block(
        &[1, 0],
        vec![
            Statement::Declaration(decl),
            Statement::Return(Return::new(loc(0), Some(Box::new(var_ref("y", &[1, 2]))))),
        ],
    );
    let f = BlockFnDeclaration::new(
        loc(0),
        ident("f", &[1]),
        vec![(ident("x", &[1, 1]), TypeExpression::Primitive(Primitive::Int))],
        TypeExpression::Primitive(Primitive::Int),
        true,
        body,
    );
    let mut builder = TypeBuilder::new();
    let mut identifier = ExprTypeIdentifier::new();
    identifier.visit_block_fn_decl(&mut builder, &f);
    let fn_type = InferredType::Fn {
        params: vec![("x".to_string(), InferredType::Variable(TypeId::new(2)))],
        return_type: Box::new(InferredType::Variable(TypeId::new(3))),
    };
    assert_eq!(
        builder.equations(),
        &[
            known(2, Primitive::Int),
            known(3, Primitive::Int),
            TypeEquation::new(TypeId::new(1), fn_type),
            known(4, Primitive::Int),
            same(4, 2),
            same(3, 4),
            same(3, 4),
        ][..]
    );
    assert_eq!(
        builder.sources(),
        &[
            (TypeId::new(2), InferenceSource::FnParameter(ident("x", &[1, 1]))),
            (TypeId::new(1), InferenceSource::FnSignature(ident("f", &[1]))),
            (TypeId::new(4), InferenceSource::ExplicitDecl(ident("y", &[1, 2]))),
            (TypeId::new(4), InferenceSource::Declaration(ident("y", &[1, 2]))),
            (TypeId::new(3), InferenceSource::ExplicitReturn),
            (TypeId::new(3), InferenceSource::FnReturnType(ident("f", &[1]))),
        ][..]
    );
}

#[test]
fn if_blocks_take_boolean_conditions() {
    let inner = block(&[2, 1], vec![Statement::Return(Return::new(loc(0), None))]);
    let cond = Conditional::new(loc(0), var_ref("c", &[3]), inner);
    let mut if_block = IfBlock::new(loc(0), vec![cond], Some(block(&[2, 2], vec![])));
    if_block.scoped_id = ScopedId::new(vec![2]);
    let mut builder = TypeBuilder::new();
    let mut identifier = ExprTypeIdentifier::new();
    identifier.visit_statement(&mut builder, &Statement::IfBlock(if_block));
    // Outside a function the return type is the unassigned id 0.
    assert_eq!(builder.equations(), &[known(1, Primitive::Bool), known(0, Primitive::Unary)][..]);
    assert_eq!(
        builder.sources(),
        &[(TypeId::new(1), InferenceSource::IfConditionalBool), (TypeId::new(0), InferenceSource::ExplicitReturn)][..]
    );

    // A block without a `ScopedId` is skipped.
    let mut builder = TypeBuilder::new();
    identifier.visit_block(&mut builder, &Block::new(vec![Statement::Expression(var_ref("z", &[9]))]));
    assert_eq!(builder.equations().len(), 0);
    assert_eq!(builder.sources().len(), 0);
}
