//! Collecting type constraints from function signatures.

use protosnirk::ast::{
    Block, BlockFnDeclaration, Identifier, Item, NamedTypeExpression, Primitive, ScopedId, TypeExpression, Unit,
};
use protosnirk::check::types::environment::{ConstraintSource, TypeConstraint, TypeEnvironment, TypeId};
use protosnirk::check::types::item_collector::ItemTypeCollector;
use protosnirk::lex::{Span, TextLocation, Token, TokenData};

fn loc(index: usize) -> TextLocation {
    TextLocation { index, line: 0, column: index }
}

fn ident_with(text: &str, index: usize, id: &[usize]) -> Identifier {
    let mut ident = Identifier::new(Token { location: loc(index), text: text.to_string(), data: TokenData::Ident });
    ident.id = ScopedId::new(id.to_vec());
    ident
}

fn named(text: &str, index: usize, id: &[usize]) -> TypeExpression {
    TypeExpression::Named(NamedTypeExpression::new(ident_with(text, index, id)))
}

fn id(ixs: &[usize]) -> ScopedId {
    ScopedId::new(ixs.to_vec())
}

fn function(name: &str, fn_id: &[usize], params: Vec<(Identifier, TypeExpression)>, ret: TypeExpression) -> BlockFnDeclaration {
    BlockFnDeclaration::new(loc(0), ident_with(name, 3, fn_id), params, ret, true, Block::new(vec![]))
}

#[test]
fn signature_constraints_are_collected_in_order() {
    let mut env = TypeEnvironment::new();
    let mut collector = ItemTypeCollector::new();
    let f = function(
        "foo",
        &[3],
        vec![(ident_with("x", 10, &[3, 1]), named("float", 13, &[1])), (ident_with("y", 20, &[3, 2]), named("bool", 23, &[2]))],
        named("mystery", 30, &[9]),
    );
    collector.visit_block_fn_decl(&mut env, &f);
    assert_eq!(
        env.constraints(),
        &[
            (TypeConstraint::DeclaredFn(id(&[3]), vec![id(&[3, 1]), id(&[3, 2])]), ConstraintSource::FnSignature),
            (TypeConstraint::VarIdentKnownType(id(&[3, 1]), TypeId::new(1)), ConstraintSource::ParamDecl),
            (TypeConstraint::VarIdentKnownType(id(&[3, 2]), TypeId::new(2)), ConstraintSource::ParamDecl),
            // A type name without a definition leaves the last type found.
            (TypeConstraint::FnReturnType(id(&[3]), TypeId::new(2)), ConstraintSource::FnSignature),
        ][..]
    );
}

#[test]
fn unnamed_types_have_the_default_id() {
    let mut env = TypeEnvironment::new();
    let mut collector = ItemTypeCollector::new();
    let unit = Unit::new(
        Span::from_locations(loc(0), loc(40)),
        vec![
            Item::BlockFnDeclaration(function("a", &[1], vec![(ident_with("p", 5, &[1, 1]), named("what", 8, &[0]))], named("float", 12, &[1]))),
            Item::BlockFnDeclaration(function("b", &[2], vec![], TypeExpression::Primitive(Primitive::Unary))),
        ],
    );
    collector.visit_unit(&mut env, &unit);
    assert_eq!(
        env.constraints(),
        &[
            (TypeConstraint::DeclaredFn(id(&[1]), vec![id(&[1, 1])]), ConstraintSource::FnSignature),
            (TypeConstraint::VarIdentKnownType(id(&[1, 1]), TypeId::new(0)), ConstraintSource::ParamDecl),
            (TypeConstraint::FnReturnType(id(&[1]), TypeId::new(1)), ConstraintSource::FnSignature),
            (TypeConstraint::DeclaredFn(id(&[2]), vec![]), ConstraintSource::FnSignature),
            // A primitive return type leaves the type id of the previous function.
            (TypeConstraint::FnReturnType(id(&[2]), TypeId::new(1)), ConstraintSource::FnSignature),
        ][..]
    );
}
