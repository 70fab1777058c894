//! Naming functions, parameters and types of hand-built units.

use protosnirk::ast::{
    Block, BlockFnDeclaration, Declaration, DoBlock, Expression, Identifier, Item, Literal,
    NamedTypeExpression, Primitive, ScopedId, Statement, TypeExpression, Unit,
};
use protosnirk::check::collector::ErrorCollector;
use protosnirk::check::errors::CheckerError;
use protosnirk::check::scope::names::ItemVarIdentifier;
use protosnirk::check::scope::types::{default_type_scope, ExpressionTypeIdentifier, ItemTypeIdentifier};
use protosnirk::check::scope::ASTIdentifier;
use protosnirk::check::symbol::table_builder::SymbolTableBuilder;
use protosnirk::lex::{Span, TextLocation, Token, TokenData};

fn loc(index: usize) -> TextLocation {
    TextLocation { index, line: 0, column: index }
}

fn token(text: &str, index: usize) -> Token {
    Token { location: loc(index), text: text.to_string(), data: TokenData::Ident }
}

fn ident(text: &str, index: usize) -> Identifier {
    Identifier::new(token(text, index))
}

fn named(text: &str, index: usize) -> TypeExpression {
    TypeExpression::Named(NamedTypeExpression::new(ident(text, index)))
}

fn id(ixs: &[usize]) -> ScopedId {
    ScopedId::new(ixs.to_vec())
}

fn unit_of(items: Vec<Item>) -> Unit {
    Unit::new(Span::from_locations(loc(0), loc(100)), items)
}

fn function(name: &str, at: usize, params: Vec<(Identifier, TypeExpression)>, ret: TypeExpression, body: Vec<Statement>) -> Item {
    Item::BlockFnDeclaration(BlockFnDeclaration::new(loc(at), ident(name, at + 3), params, ret, true, Block::new(body)))
}

fn typed_let(name: &str, at: usize, ty: TypeExpression) -> Statement {
    let value = Expression::Literal(Literal::new_bool(Token { location: loc(at + 20), text: "true".to_string(), data: TokenData::BoolLiteral }, true));
    Statement::Declaration(Declaration::new(loc(at), ident(name, at + 4), false, Some(ty), Box::new(value)))
}

fn error_at(text: &str, index: usize, message: &str) -> CheckerError {
    CheckerError::new(token(text, index), vec![], message.to_string())
}

fn fn_decl(item: &Item) -> &BlockFnDeclaration {
    match item {
        Item::BlockFnDeclaration(f) => f,
        Item::Typedef(_) => panic!("expected a function"),
    }
}

fn named_id(t: &TypeExpression) -> &ScopedId {
    match t {
        TypeExpression::Named(n) => n.get_id(),
        _ => panic!("expected a named type"),
    }
}

#[test]
fn default_type_scope_numbers_builtin_types() {
    let types = default_type_scope();
    assert_eq!(types.get("int"), Some(&id(&[1])));
    assert_eq!(types.get("float"), Some(&id(&[2])));
    assert_eq!(types.get("bool"), Some(&id(&[3])));
    assert_eq!(types.get("string"), None);
}

#[test]
fn functions_and_parameters_are_numbered_in_order() {
    let mut unit = unit_of(vec![
        function("foo", 0, vec![(ident("x", 10), named("int", 13)), (ident("y", 18), named("float", 21))], named("bool", 30), vec![]),
        function("bar", 40, vec![(ident("x", 50), named("int", 53))], TypeExpression::Primitive(Primitive::Unary), vec![]),
    ]);
    let mut errors = ErrorCollector::new();
    let mut builder = SymbolTableBuilder::new();
    let mut namer = ItemVarIdentifier::new(ScopedId::default());
    namer.visit_unit(&mut errors, &mut builder, &mut unit);
    assert_eq!(namer.into_last_id(), id(&[2]));
    assert_eq!(errors.get_errors(), &[][..]);
    let foo = fn_decl(&unit.items[0]);
    assert_eq!(foo.ident.id, id(&[1]));
    assert_eq!(foo.params[0].0.id, id(&[1, 1]));
    assert_eq!(foo.params[1].0.id, id(&[1, 2]));
    let bar = fn_decl(&unit.items[1]);
    assert_eq!(bar.ident.id, id(&[2]));
    assert_eq!(bar.params[0].0.id, id(&[2, 1]));
    assert_eq!(builder.get("foo:y"), Some(&id(&[1, 2])));
    assert_eq!(builder.get("bar:x"), Some(&id(&[2, 1])));
}

#[test]
fn duplicate_function_is_reported_and_left_unnamed() {
    let mut unit = unit_of(vec![
        function("foo", 0, vec![], TypeExpression::Primitive(Primitive::Unary), vec![]),
        function("foo", 20, vec![(ident("a", 30), named("int", 33))], TypeExpression::Primitive(Primitive::Unary), vec![]),
    ]);
    let mut errors = ErrorCollector::new();
    let mut builder = SymbolTableBuilder::new();
    let mut namer = ItemVarIdentifier::new(ScopedId::default());
    namer.visit_unit(&mut errors, &mut builder, &mut unit);
    assert_eq!(errors.get_errors(), &[error_at("foo", 23, "Function foo is already declared")][..]);
    let second = fn_decl(&unit.items[1]);
    assert_eq!(second.ident.id, ScopedId::default());
    assert_eq!(second.params[0].0.id, ScopedId::default());
    assert_eq!(namer.into_last_id(), id(&[1]));
}

#[test]
fn duplicate_parameter_stops_parameter_naming() {
    let mut unit = unit_of(vec![function(
        "bar",
        0,
        vec![(ident("x", 10), named("int", 13)), (ident("x", 18), named("int", 21)), (ident("y", 26), named("int", 29))],
        TypeExpression::Primitive(Primitive::Unary),
        vec![],
    )]);
    let mut errors = ErrorCollector::new();
    let mut builder = SymbolTableBuilder::new();
    let mut namer = ItemVarIdentifier::new(ScopedId::default());
    namer.visit_unit(&mut errors, &mut builder, &mut unit);
    assert_eq!(errors.get_errors(), &[error_at("bar", 3, "Parameter x of function bar is already declared")][..]);
    let bar = fn_decl(&unit.items[0]);
    assert_eq!(bar.ident.id, id(&[1]));
    assert_eq!(bar.params[0].0.id, id(&[1, 1]));
    assert_eq!(bar.params[1].0.id, ScopedId::default());
    assert_eq!(bar.params[2].0.id, ScopedId::default());
}

#[test]
fn signature_types_are_named_or_reported() {
    let mut unit = unit_of(vec![function(
        "foo",
        0,
        vec![(ident("x", 10), named("int", 13)), (ident("y", 18), named("strange", 21))],
        named("bool", 35),
        vec![],
    )]);
    let types = default_type_scope();
    let mut errors = ErrorCollector::new();
    ItemTypeIdentifier::new().visit_unit(&types, &mut errors, &mut unit);
    assert_eq!(errors.get_errors(), &[error_at("strange", 21, "Unknown type strange")][..]);
    let foo = fn_decl(&unit.items[0]);
    assert_eq!(named_id(&foo.params[0].1), &id(&[1]));
    assert_eq!(named_id(&foo.params[1].1), &ScopedId::default());
    assert_eq!(named_id(&foo.ret_ty), &id(&[3]));
}

#[test]
fn declaration_types_are_named_in_nested_blocks() {
    let inner = Statement::DoBlock(DoBlock::new(loc(60), Box::new(Block::new(vec![typed_let("b", 64, named("quux", 70))]))));
    let mut unit = unit_of(vec![function(
        "foo",
        0,
        vec![],
        TypeExpression::Primitive(Primitive::Unary),
        vec![typed_let("a", 10, named("float", 17)), inner],
    )]);
    let types = default_type_scope();
    let mut errors = ErrorCollector::new();
    ExpressionTypeIdentifier::new().visit_unit(&types, &mut errors, &mut unit);
    assert_eq!(errors.get_errors(), &[error_at("quux", 70, "Unknown type quux")][..]);
    let foo = fn_decl(&unit.items[0]);
    match &foo.block.statements[0] {
        Statement::Declaration(d) => assert_eq!(named_id(d.type_decl.as_ref().unwrap()), &id(&[2])),
        _ => panic!("expected a declaration"),
    }
}

#[test]
fn ast_identifier_runs_the_passes_in_order() {
    let mut unit = unit_of(vec![
        function("foo", 0, vec![(ident("x", 10), named("nope", 13))], named("int", 20), vec![typed_let("a", 30, named("what", 37))]),
        function("foo", 50, vec![], TypeExpression::Primitive(Primitive::Unary), vec![]),
    ]);
    let mut errors = ErrorCollector::new();
    ASTIdentifier::new().check_unit(&mut errors, &mut unit);
    assert_eq!(
        errors.get_errors(),
        &[
            error_at("foo", 53, "Function foo is already declared"),
            error_at("nope", 13, "Unknown type nope"),
            error_at("what", 37, "Unknown type what"),
        ][..]
    );
    let foo = fn_decl(&unit.items[0]);
    assert_eq!(foo.ident.id, id(&[1]));
    assert_eq!(foo.params[0].0.id, id(&[1, 1]));
    assert_eq!(named_id(&foo.ret_ty), &id(&[1]));
}
