//! Building the type graph from expressions.

use protosnirk::ast::{
    Assignment, BinaryOperation, BinaryOperator, Block, BlockFnDeclaration, CallArgument, Conditional, Declaration,
    Expression, FnCall, Identifier, IfBlock, IfExpression, Literal, NamedTypeExpression, Primitive, Return, ScopedId,
    Statement, TypeExpression, UnaryOperation, UnaryOperator,
};
use protosnirk::check::collector::ErrorCollector;
use protosnirk::check::types::environment::{TypeEnvironment, TypeId};
use protosnirk::check::types::identify::expr_checker::ExprTypeChecker;
use protosnirk::check::types::identify::TypeGraph;
use protosnirk::check::types::type_concretifier::TypeConcretifier;
use protosnirk::lex::{Span, TextLocation, Token, TokenData};

fn loc(index: usize) -> TextLocation {
    TextLocation { index, line: 0, column: index }
}

fn token(text: &str, index: usize, data: TokenData) -> Token {
    Token { location: loc(index), text: text.to_string(), data }
}

fn var(name: &str, id: &[usize]) -> Identifier {
    let mut ident = Identifier::new(token(name, 0, TokenData::Ident));
    ident.id = ScopedId::new(id.to_vec());
    ident
}

fn var_ref(name: &str, id: &[usize]) -> Expression {
    Expression::VariableRef(var(name, id))
}

fn number(text: &str) -> Expression {
    Expression::Literal(Literal::new_float(token(text, 0, TokenData::NumberLiteral), text.to_string()))
}

fn boolean(value: bool) -> Expression {
    Expression::Literal(Literal::new_bool(token("true", 0, TokenData::BoolLiteral), value))
}

fn binary(operator: BinaryOperator, left: Expression, right: Expression) -> Expression {
    Expression::BinaryOp(BinaryOperation::new(operator, Box::new(left), Box::new(right)))
}

const FLOAT: u64 = 1;
const BOOL: u64 = 2;
const UNIT: u64 = 3;

/// A graph holding the three primitive types, and a checker for it.
fn setup() -> (TypeGraph, ExprTypeChecker) {
    let mut graph = TypeGraph::new();
    graph.add_concrete_type(TypeId::new(FLOAT));
    graph.add_concrete_type(TypeId::new(BOOL));
    graph.add_concrete_type(TypeId::new(UNIT));
    let checker = ExprTypeChecker::new(TypeId::new(FLOAT), TypeId::new(BOOL), TypeId::new(UNIT), ErrorCollector::new());
    (graph, checker)
}

#[test]
fn literals_have_their_primitive_types() {
    let (mut graph, mut checker) = setup();
    checker.visit_expression(&mut graph, &number("1"));
    assert_eq!(checker.current_type().index(), 0);
    checker.visit_expression(&mut graph, &boolean(true));
    assert_eq!(checker.current_type().index(), 1);
}

#[test]
fn operands_of_arithmetic_are_numbers() {
    let (mut graph, mut checker) = setup();
    let e = binary(BinaryOperator::Addition, var_ref("x", &[1]), number("1"));
    checker.visit_expression(&mut graph, &e);
    // Nodes: the three primitives, `x`, then the operation's own node.
    assert_eq!(checker.current_type().index(), 4);
    assert_eq!(graph.infer_type_of_var(&ScopedId::new(vec![1])), Some(TypeId::new(FLOAT)));
}

#[test]
fn comparisons_take_numbers() {
    let (mut graph, mut checker) = setup();
    let e = binary(BinaryOperator::LessThan, var_ref("x", &[1]), var_ref("y", &[2]));
    checker.visit_expression(&mut graph, &e);
    assert_eq!(graph.infer_type_of_var(&ScopedId::new(vec![1])), Some(TypeId::new(FLOAT)));
    assert_eq!(graph.infer_type_of_var(&ScopedId::new(vec![2])), Some(TypeId::new(FLOAT)));
}

#[test]
fn equality_points_the_right_operand_at_the_left() {
    let (mut graph, mut checker) = setup();
    let e = binary(BinaryOperator::Equality, boolean(true), var_ref("b", &[1]));
    checker.visit_expression(&mut graph, &e);
    assert_eq!(graph.infer_type_of_var(&ScopedId::new(vec![1])), Some(TypeId::new(BOOL)));

    let (mut graph, mut checker) = setup();
    let e = binary(BinaryOperator::NonEquality, var_ref("b", &[1]), boolean(true));
    checker.visit_expression(&mut graph, &e);
    assert_eq!(graph.infer_type_of_var(&ScopedId::new(vec![1])), None);
}

#[test]
fn negated_variables_are_numbers() {
    let (mut graph, mut checker) = setup();
    let e = Expression::UnaryOp(UnaryOperation::new(
        loc(0),
        UnaryOperator::Negation,
        Box::new(var_ref("n", &[3])),
    ));
    checker.visit_expression(&mut graph, &e);
    // The operand's node stays the current type.
    assert_eq!(checker.current_type().index(), 3);
    assert_eq!(graph.infer_type_of_var(&ScopedId::new(vec![3])), Some(TypeId::new(FLOAT)));
}

#[test]
fn if_conditions_are_booleans_and_assignments_are_unit() {
    let (mut graph, mut checker) = setup();
    let cond = var_ref("c", &[1]);
    let e = Expression::IfExpression(IfExpression::new(
        loc(0),
        Box::new(cond),
        Box::new(number("1")),
        Box::new(var_ref("z", &[2])),
    ));
    checker.visit_expression(&mut graph, &e);
    // The `if` node was made first, after the three primitives.
    assert_eq!(checker.current_type().index(), 3);
    assert_eq!(graph.infer_type_of_var(&ScopedId::new(vec![1])), Some(TypeId::new(BOOL)));
    assert_eq!(graph.infer_type_of_var(&ScopedId::new(vec![2])), Some(TypeId::new(FLOAT)));

    let assign = Expression::Assignment(Assignment::new(var("a", &[4]), Box::new(boolean(false))));
    checker.visit_expression(&mut graph, &assign);
    assert_eq!(checker.current_type().index(), 2);
}

#[test]
fn calls_of_unknown_functions_are_reported() {
    let (mut graph, mut checker) = setup();
    let call = Expression::FnCall(FnCall::new(
        Span::from_locations(loc(0), loc(5)),
        var("f", &[9]),
        vec![CallArgument::named(var("x", &[]), number("2"))],
    ));
    checker.visit_expression(&mut graph, &call);
    let errors = checker.into_errors();
    assert_eq!(errors.get_errors().len(), 1);
    assert_eq!(errors.get_errors()[0].text(), "Unknown function f");
}

#[test]
fn calls_of_known_functions_get_a_new_node() {
    let (mut graph, mut checker) = setup();
    graph.add_variable(ScopedId::new(vec![9]));
    let call = Expression::FnCall(FnCall::new(
        Span::from_locations(loc(0), loc(5)),
        var("f", &[9]),
        vec![CallArgument::named(var("x", &[]), number("2"))],
    ));
    checker.visit_expression(&mut graph, &call);
    assert_eq!(checker.current_type().index(), 4);
    assert_eq!(checker.into_errors().get_errors().len(), 0);
}

#[test]
fn concretifier_reports_variables_without_a_type() {
    let (mut graph, mut checker) = setup();
    let e = binary(BinaryOperator::Multiplication, var_ref("x", &[1]), number("2"));
    checker.visit_expression(&mut graph, &e);
    graph.add_variable(ScopedId::new(vec![2]));
    let mut concretifier = TypeConcretifier::new(ErrorCollector::new());
    let x_token = token("x", 4, TokenData::Ident);
    let y_token = token("y", 9, TokenData::Ident);
    assert!(concretifier.infer_var(&mut graph, &ScopedId::new(vec![1]), &x_token, "Variable x"));
    assert!(!concretifier.infer_var(&mut graph, &ScopedId::new(vec![2]), &y_token, "Variable y"));
    let errors = concretifier.into_errors();
    assert_eq!(errors.get_errors().len(), 1);
    assert_eq!(errors.get_errors()[0].text(), "Could not determine type of Variable y (conflicts)");
    assert_eq!(errors.get_errors()[0].token().location, loc(9));
}

fn named(id: &[usize]) -> TypeExpression {
    TypeExpression::Named(NamedTypeExpression::new(var("type", id)))
}

fn block_of(id: &[usize], statements: Vec<Statement>) -> Block {
    let mut b = Block::new(statements);
    b.scope_id = ScopedId::new(id.to_vec());
    b
}

#[test]
fn functions_tie_parameters_declarations_and_returned_values() {
    // fn f(x: float) -> float { let y = x; y }, with `float` the type
    // name `[1]` that `TypeEnvironment::new` defines.
    let (mut graph, mut checker) = setup();
    let types = TypeEnvironment::new();
    let body = block_of(
        &[5, 0],
        vec![
            Statement::Declaration(Declaration::new(loc(0), var("y", &[5, 2]), false, None, Box::new(var_ref("x", &[5, 1])))),
            Statement::Expression(var_ref("y", &[5, 2])),
        ],
    );
    let f = BlockFnDeclaration::new(loc(0), var("f", &[5]), vec![(var("x", &[5, 1]), named(&[1]))], named(&[1]), true, body);
    checker.visit_block_fn_decl(&mut graph, &types, &f);
    // Nodes: the primitives, `f`, `x`, `y`.
    assert_eq!(checker.current_type().index(), 5);
    assert_eq!(graph.infer_type_of_var(&ScopedId::new(vec![5, 1])), Some(TypeId::new(FLOAT)));
    assert_eq!(graph.infer_type_of_var(&ScopedId::new(vec![5, 2])), Some(TypeId::new(FLOAT)));
    // The function's own node has no type to reach: the graph has no node
    // for function types.
    assert_eq!(graph.infer_type_of_var(&ScopedId::new(vec![5])), None);
}

#[test]
fn returned_values_have_the_return_type() {
    let (mut graph, mut checker) = setup();
    let types = TypeEnvironment::new();
    let body = block_of(&[6, 0], vec![Statement::Return(Return::new(loc(0), Some(Box::new(var_ref("b", &[6, 1])))))]);
    let g = BlockFnDeclaration::new(loc(0), var("g", &[6]), vec![], TypeExpression::Primitive(Primitive::Bool), true, body);
    checker.visit_block_fn_decl(&mut graph, &types, &g);
    assert_eq!(graph.infer_type_of_var(&ScopedId::new(vec![6, 1])), Some(TypeId::new(BOOL)));
}

#[test]
fn if_blocks_and_typed_declarations() {
    let (mut graph, mut checker) = setup();
    let types = TypeEnvironment::new();
    let cond = Conditional::new(loc(0), var_ref("c", &[7]), block_of(&[7, 0], vec![]));
    let mut if_block = IfBlock::new(loc(0), vec![cond], None);
    if_block.scoped_id = ScopedId::new(vec![7, 9]);
    checker.visit_statement(&mut graph, &types, &Statement::IfBlock(if_block));
    assert_eq!(checker.current_type().index(), 2);
    assert_eq!(graph.infer_type_of_var(&ScopedId::new(vec![7])), Some(TypeId::new(BOOL)));

    // let z: bool = w
    let decl = Declaration::new(loc(0), var("z", &[8]), false, Some(named(&[2])), Box::new(var_ref("w", &[8, 1])));
    checker.visit_statement(&mut graph, &types, &Statement::Declaration(decl));
    assert_eq!(checker.current_type().index(), 2);
    assert_eq!(graph.infer_type_of_var(&ScopedId::new(vec![8])), Some(TypeId::new(BOOL)));
}
