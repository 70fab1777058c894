//! Type expressions: the ways a program writes down a type.

use vstd::prelude::*;

use crate::lex::{Span, spec_token_end};
use crate::ast::{ScopedId, Identifier};
use crate::check::scope::scope::spec_default_index;

verus! {

/// Represents type expressions in protosnirk.
#[derive(Debug, PartialEq, Eq)]
pub enum TypeExpression {
    /// Expression for a primitive type.
    Primitive(Primitive),
    /// Named type, such as `String`
    Named(NamedTypeExpression),
    /// Function type, such as `(x: float) -> bool`
    Function(FnTypeExpression),
}

impl TypeExpression {
    /// The span of the type's text, where the type was written with a name
    /// (a primitive carries no text of its own).
    pub fn span(&self) -> (span: Option<Span>)
        ensures
            span is Some <==> type_span_token(*self) is Some,
            span matches Some(s) ==> s.start() == type_span_token(*self).unwrap().location && s.end()
                == spec_token_end(
                type_span_token(*self).unwrap().location,
                type_span_token(*self).unwrap().text@.len(),
            ),
        decreases self,
    {
        match self {
            TypeExpression::Primitive(_) => None,
            TypeExpression::Named(named) => Some(named.ident.span()),
            TypeExpression::Function(f) => match &f.return_type {
                Some(ret) => ret.span(),
                None => None,
            },
        }
    }
}

/// The token whose text a type expression's span covers: the name of a
/// named type, or that of a function type's return type; primitives and
/// function types without a return type have none.
pub open spec fn type_span_token(t: TypeExpression) -> Option<crate::lex::Token>
    decreases t,
{
    match t {
        TypeExpression::Primitive(_) => None,
        TypeExpression::Named(named) => Some(named.ident.token),
        TypeExpression::Function(f) => match f.return_type {
            Some(ret) => type_span_token(*ret),
            None => None,
        },
    }
}

/// A named type expression, such as `float` or `bool`.
#[derive(Debug, PartialEq, Eq)]
pub struct NamedTypeExpression {
    pub ident: Identifier,
}

impl NamedTypeExpression {
    /// Create a new `NamedTypeExpression` with the given name.
    pub fn new(ident: Identifier) -> (t: NamedTypeExpression)
        ensures
            t.ident == ident,
    {
        NamedTypeExpression { ident }
    }

    /// Gets the identifier of this type.
    pub fn get_ident(&self) -> (i: &Identifier)
        ensures
            i == &self.ident,
    {
        &self.ident
    }

    /// Gets the `ScopedId` of the type's name.
    pub fn get_id(&self) -> (id: &ScopedId)
        ensures
            id == &self.ident.id,
    {
        &self.ident.id
    }
}

/// A function type expression: the parameters and return type that follow
/// the name of a function.
#[derive(Debug, PartialEq, Eq)]
pub struct FnTypeExpression {
    pub params: Vec<(Identifier, TypeExpression)>,
    pub return_type: Option<Box<TypeExpression>>,
    pub id: ScopedId,
}

impl FnTypeExpression {
    /// Create a new `FnTypeExpression` with the given parameters, return
    /// type and the default `ScopedId`.
    pub fn new(params: Vec<(Identifier, TypeExpression)>, return_type: Option<TypeExpression>) -> (t:
        FnTypeExpression)
        ensures
            t.params == params,
            match return_type {
                Some(r) => t.return_type == Some(Box::new(r)),
                None => t.return_type is None,
            },
            t.id@ == spec_default_index(),
    {
        let return_type = match return_type {
            Some(r) => Some(Box::new(r)),
            None => None,
        };
        FnTypeExpression { params, return_type, id: ScopedId::default() }
    }

    /// Get the parameter list of this function type.
    pub fn get_params(&self) -> (p: &[(Identifier, TypeExpression)])
        ensures
            p@ == self.params@,
    {
        self.params.as_slice()
    }

    /// Get the return type of this function type; `None` where it is
    /// undeclared (and so `()`).
    pub fn get_return_type(&self) -> (r: Option<&TypeExpression>)
        ensures
            match self.return_type {
                Some(b) => r == Some(&*b),
                None => r is None,
            },
    {
        match &self.return_type {
            Some(b) => Some(&**b),
            None => None,
        }
    }

    /// Get the `ScopedId` of this type.
    pub fn get_id(&self) -> (id: &ScopedId)
        ensures
            id == &self.id,
    {
        &self.id
    }

    /// Set the `ScopedId` of this type expression.
    pub fn set_id(&mut self, new_id: ScopedId)
        ensures
            final(self).params == old(self).params,
            final(self).return_type == old(self).return_type,
            final(self).id == new_id,
    {
        self.id = new_id;
    }
}

/// Type expression for a primitive type.
#[derive(Debug, PartialEq, Eq, Clone, Copy, Hash, Structural)]
pub enum Primitive {
    /// () or void
    Unary,
    /// `int` becomes `Int64`
    Int,
    /// `bool` becomes `Bool`
    Bool,
}

} // verus!
