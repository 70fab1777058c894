//! Errors a parser reports about the shape of what it read.

use vstd::prelude::*;

use crate::ast::Expression;

verus! {

/// What kind of construct a parser expected next.
#[derive(Debug, PartialEq, Eq, Clone, Copy, Structural)]
pub enum ExpectedNextType {
    /// Any expression with a value.
    AnyExpression,
    /// An identifier.
    Identifier,
}

/// An error in the structure of parsed code.
#[derive(Debug, PartialEq)]
pub enum ParseError {
    /// An expression of the given kind was expected, but `got` was found.
    ExpectedExpression { expected: ExpectedNextType, got: Expression },
    /// An assignable name was expected, but this expression was found.
    ExpectedLValue(Expression),
}

/// The result of parsing.
pub type ParseResult<T> = Result<T, ParseError>;

} // verus!
