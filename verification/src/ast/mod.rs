//! Abstract syntax tree definitions.
//!
//! This module contains definitions of all of the AST node types of a
//! protosnirk program, with a `Unit` being the root of the syntax tree.
//!
//! The checking passes do not transform the AST. Instead, identifiers and
//! blocks carry `ScopedId`s which point into tables collected in the
//! various passes, such as symbol or type information.

pub mod index;
pub mod expression;
pub mod item;
pub mod stmt;
pub mod operator;
pub mod types;

pub use self::index::ScopedId;
pub use self::expression::{
    Expression, LiteralValue, Literal, BinaryOperation, UnaryOperation, Assignment,
    IfExpression, FnCall, CallArgument,
};
pub use self::item::{Unit, Item, BlockFnDeclaration, Typedef};
pub use self::stmt::{Statement, Return, Declaration, DoBlock, IfBlock, Conditional};
pub use self::operator::{BinaryOperator, UnaryOperator};
pub use self::types::{TypeExpression, NamedTypeExpression, FnTypeExpression, Primitive};
pub use self::node::{Identifier, Block};

pub mod node;
