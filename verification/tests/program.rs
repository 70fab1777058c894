//! Checking whole units, and the parser-facing helpers of expressions.

use protosnirk::ast::{
    Assignment, Block, BlockFnDeclaration, CallArgument, Declaration, Expression, FnCall, Identifier, Item,
    Literal, NamedTypeExpression, Statement, TypeExpression, Unit,
};
use protosnirk::check::program_checker::UnitChecker;
use protosnirk::check::types::environment::{ConstraintSource, TypeConstraint, TypeEnvironment, TypeId};
use protosnirk::check::types::types::{FnType, Type};
use protosnirk::lex::{Span, TextLocation, Token, TokenData};
use protosnirk::parse::{ExpectedNextType, ParseError};
use protosnirk::ast::ScopedId;
use protosnirk::check::symbol::symbol::VariableSymbol;

fn loc(index: usize) -> TextLocation {
    TextLocation { index, line: 0, column: index }
}

fn token(text: &str, index: usize, data: TokenData) -> Token {
    Token { location: loc(index), text: text.to_string(), data }
}

fn ident(text: &str, index: usize) -> Identifier {
    Identifier::new(token(text, index, TokenData::Ident))
}

fn number(text: &str, index: usize) -> Expression {
    Expression::Literal(Literal::new_float(token(text, index, TokenData::NumberLiteral), text.to_string()))
}

fn call(name: &str, index: usize, args: Vec<(&str, Expression)>) -> Expression {
    let args = args.into_iter().enumerate().map(|(i, (p, v))| CallArgument::named(ident(p, index + 10 + i), v)).collect();
    Expression::FnCall(FnCall::new(Span::from_locations(loc(index), loc(index + 20)), ident(name, index), args))
}

fn function(name: &str, at: usize, params: Vec<&str>, body: Vec<Statement>) -> Item {
    let params = params
        .into_iter()
        .enumerate()
        .map(|(i, p)| (ident(p, at + 10 + i), TypeExpression::Named(NamedTypeExpression::new(ident("float", at + 20 + i)))))
        .collect();
    let ret = TypeExpression::Named(NamedTypeExpression::new(ident("float", at + 30)));
    Item::BlockFnDeclaration(BlockFnDeclaration::new(loc(at), ident(name, at + 3), params, ret, true, Block::new(body)))
}

fn unit_of(items: Vec<Item>) -> Unit {
    Unit::new(Span::from_locations(loc(0), loc(1000)), items)
}

#[test]
fn unit_with_bad_calls_and_assignments_is_refused() {
    let unit = unit_of(vec![
        function("add", 0, vec!["x"], vec![Statement::Expression(Expression::VariableRef(ident("x", 40)))]),
        function(
            "main",
            100,
            vec![],
            vec![
                Statement::Expression(call("add", 140, vec![("x", number("1", 170)), ("y", number("2", 175))])),
                Statement::Expression(call("nope", 200, vec![("a", number("3", 230))])),
                Statement::Declaration(Declaration::new(loc(300), ident("z", 304), false, None, Box::new(number("1", 308)))),
                Statement::Expression(Expression::Assignment(Assignment::new(ident("z", 320), Box::new(number("2", 324))))),
            ],
        ),
    ]);
    let result = UnitChecker {}.verify_unit(unit);
    let errors = match result {
        Err(errors) => errors,
        Ok(_) => panic!("expected errors"),
    };
    let texts: Vec<&str> = errors.get_errors().iter().map(|e| e.text()).collect();
    assert_eq!(
        texts,
        vec![
            "Function add: expected 1 args, got 2",
            "Unknown parameter y",
            "Unknown function nope",
            "Variable z was not declared mutable"
        ]
    );
    assert_eq!(errors.get_errors()[1].token().location, loc(140));
    assert_eq!(errors.get_errors()[1].references().len(), 1);
    assert_eq!(errors.get_errors()[1].references()[0].location, loc(151));
    assert_eq!(errors.get_errors()[2].token().location, loc(200));
}

#[test]
fn call_with_a_wrongly_named_argument_is_refused() {
    let unit = unit_of(vec![
        function("f", 0, vec!["x"], vec![Statement::Expression(Expression::VariableRef(ident("x", 40)))]),
        function("main", 100, vec![], vec![Statement::Expression(call("f", 140, vec![("y", number("1", 170))]))]),
    ]);
    let errors = match (UnitChecker {}).verify_unit(unit) {
        Err(errors) => errors,
        Ok(_) => panic!("expected errors"),
    };
    let texts: Vec<&str> = errors.get_errors().iter().map(|e| e.text()).collect();
    assert_eq!(texts, vec!["Unknown parameter y"]);
    assert_eq!(errors.get_errors()[0].token().location, loc(140));
    assert_eq!(errors.get_errors()[0].references()[0].location, loc(150));
}

#[test]
fn unit_without_errors_becomes_a_program() {
    let unit = unit_of(vec![
        function("f", 0, vec!["x"], vec![Statement::Expression(Expression::VariableRef(ident("x", 40)))]),
        function(
            "main",
            100,
            vec![],
            vec![
                Statement::Declaration(Declaration::new(loc(110), ident("y", 114), true, None, Box::new(call("f", 120, vec![("x", number("1", 150))])))),
                Statement::Expression(Expression::Assignment(Assignment::new(ident("y", 160), Box::new(number("3", 164))))),
            ],
        ),
    ]);
    let program = match (UnitChecker {}).verify_unit(unit) {
        Ok(program) => program,
        Err(_) => panic!("expected a program"),
    };
    assert!(program.has_errors());
    assert_eq!(program.get_errors().get_errors().len(), 0);
    let mut warnings: Vec<&str> = program.get_errors().get_warnings().iter().map(|w| w.text()).collect();
    warnings.sort();
    assert_eq!(warnings, vec!["Function main is declared but never used", "Variable y is declared but never used"]);
}

#[test]
fn expressions_with_values_pass_and_assignments_do_not() {
    let n = number("4", 0);
    assert_eq!(n.expect_value(), Ok(number("4", 0)));
    let assign = Expression::Assignment(Assignment::new(ident("a", 5), Box::new(number("1", 9))));
    let again = Expression::Assignment(Assignment::new(ident("a", 5), Box::new(number("1", 9))));
    assert_eq!(
        assign.expect_value(),
        Err(ParseError::ExpectedExpression { expected: ExpectedNextType::AnyExpression, got: again })
    );
}

#[test]
fn only_variable_references_are_lvalues() {
    assert_eq!(Expression::VariableRef(ident("q", 3)).expect_identifier(), Ok(ident("q", 3)));
    assert_eq!(number("7", 1).expect_identifier(), Err(ParseError::ExpectedLValue(number("7", 1))));
}

#[test]
fn fn_type_finds_arguments_by_name() {
    let f = FnType::new(Box::new(Type::Boolean), vec![("a".to_string(), Type::Float), ("b".to_string(), Type::Boolean)]);
    assert_eq!(f.get_arg("b"), Some((1, &Type::Boolean)));
    assert_eq!(f.get_arg("c"), None);
    assert_eq!(f.get_return(), &Type::Boolean);
}

#[test]
fn environment_numbers_types_and_records_constraints() {
    let mut env = TypeEnvironment::new();
    assert_eq!(env.get_type_def(&ScopedId::new(vec![1])), Some(TypeId::new(1)));
    assert_eq!(env.get_type_def(&ScopedId::new(vec![2])), Some(TypeId::new(2)));
    assert_eq!(env.get_type_def(&ScopedId::new(vec![3])), None);
    assert_eq!(env.declare_new_type_def(ScopedId::new(vec![3])), TypeId::new(3));
    assert_eq!(env.get_type_def(&ScopedId::new(vec![3])), Some(TypeId::new(3)));
    assert_eq!(env.declare_var_new_type(ScopedId::new(vec![7, 1])), TypeId::new(4));
    assert_eq!(env.declare_new_type(), TypeId::new(5));
    env.add_constraint(TypeConstraint::TypesAreSame(TypeId::new(4), TypeId::new(5)), ConstraintSource::IfBranchesSame);
    assert_eq!(
        env.constraints(),
        &[
            (TypeConstraint::VarIdentKnownType(ScopedId::new(vec![7, 1]), TypeId::new(4)), ConstraintSource::Unknown),
            (TypeConstraint::TypesAreSame(TypeId::new(4), TypeId::new(5)), ConstraintSource::IfBranchesSame),
        ][..]
    );
}

#[test]
fn declared_type_ids_are_fresh() {
    let mut env = TypeEnvironment::new();
    let a = env.declare_new_type();
    let b = env.declare_var_new_type(ScopedId::new(vec![3]));
    let c = env.declare_new_type();
    // `float` and `bool` hold 1 and 2; each new id is above every earlier one.
    assert_eq!((a, b, c), (TypeId::new(3), TypeId::new(4), TypeId::new(5)));
    assert!(a != TypeId::new(1) && a != TypeId::new(2));
}

#[test]
fn variable_symbols_are_equal_exactly_when_their_flags_are() {
    assert_eq!(VariableSymbol::new(true), VariableSymbol::new(true));
    assert_eq!(VariableSymbol::new(false), VariableSymbol::new(false));
    assert_ne!(VariableSymbol::new(true), VariableSymbol::new(false));
}
