//! Item values
//!
//! An `Item` is a declaration made in the root context of a program,
//! such as a function or a type alias.

use vstd::prelude::*;

use crate::lex::{Location, Span, spec_token_end};
use crate::ast::stmt::spec_block_end;
use crate::ast::types::type_span_token;
use crate::ast::{Identifier, Block, TypeExpression, ScopedId};

verus! {

/// A single "unit" of parsed code.
#[derive(Debug, PartialEq)]
pub struct Unit {
    pub items: Vec<Item>,
    pub span: Span,
}

impl Unit {
    /// Create a new unit with the given items
    pub fn new(span: Span, items: Vec<Item>) -> (u: Unit)
        ensures
            u.span == span,
            u.items == items,
    {
        Unit { span, items }
    }

    /// Gets the collection of exported items
    pub fn items(&self) -> (i: &[Item])
        ensures
            i@ == self.items@,
    {
        self.items.as_slice()
    }

    pub fn span(&self) -> (s: Span)
        ensures
            s == self.span,
    {
        self.span
    }
}

/// Items exported from a protosnirk program
#[derive(Debug, PartialEq)]
pub enum Item {
    /// Declaration of a function
    BlockFnDeclaration(BlockFnDeclaration),
    /// Declaration of a type alias
    Typedef(Typedef),
}

/// Declaration of a function
#[derive(Debug, PartialEq)]
pub struct BlockFnDeclaration {
    pub ident: Identifier,
    pub params: Vec<(Identifier, TypeExpression)>,
    pub ret_ty: TypeExpression,
    pub explicit_ret_ty: bool,
    pub block: Block,
    pub span: Span,
}

impl BlockFnDeclaration {
    /// Create a new function declaration starting at `start`; its span
    /// ends with its block (or at `start` for an empty block).
    pub fn new(
        start: Location,
        ident: Identifier,
        params: Vec<(Identifier, TypeExpression)>,
        ret_ty: TypeExpression,
        explicit_ret_ty: bool,
        block: Block,
    ) -> (f: BlockFnDeclaration)
        ensures
            f.ident == ident,
            f.params == params,
            f.ret_ty == ret_ty,
            f.explicit_ret_ty == explicit_ret_ty,
            f.block == block,
            f.span.start() == start,
            f.span.end() == spec_block_end(start, block),
    {
        let end = match block.span() {
            Some(s) => s.end(),
            None => start,
        };
        BlockFnDeclaration {
            span: Span::from_locations(start, end),
            ident,
            params,
            ret_ty,
            explicit_ret_ty,
            block,
        }
    }

    /// Get the identifier of the function
    pub fn ident(&self) -> (i: &Identifier)
        ensures
            i == &self.ident,
    {
        &self.ident
    }

    pub fn params(&self) -> (p: &[(Identifier, TypeExpression)])
        ensures
            p@ == self.params@,
    {
        self.params.as_slice()
    }

    pub fn return_type(&self) -> (t: &TypeExpression)
        ensures
            t == &self.ret_ty,
    {
        &self.ret_ty
    }

    pub fn has_explicit_return_type(&self) -> (b: bool)
        ensures
            b == self.explicit_ret_ty,
    {
        self.explicit_ret_ty
    }

    pub fn id(&self) -> (id: &ScopedId)
        ensures
            id == &self.ident.id,
    {
        &self.ident.id
    }

    pub fn set_id(&mut self, id: ScopedId)
        requires
            id@ != crate::check::scope::scope::spec_default_index(),
        ensures
            final(self).ident.token == old(self).ident.token,
            final(self).ident.id == id,
            final(self).params == old(self).params,
            final(self).ret_ty == old(self).ret_ty,
            final(self).explicit_ret_ty == old(self).explicit_ret_ty,
            final(self).block == old(self).block,
            final(self).span == old(self).span,
    {
        self.ident.set_id(id);
    }

    /// Get the textual name of the function
    pub fn name(&self) -> (s: &str)
        ensures
            s@ == self.ident.token.text@,
    {
        self.ident.name()
    }

    /// Get the block inside the function
    pub fn block(&self) -> (b: &Block)
        ensures
            b == &self.block,
    {
        &self.block
    }

    pub fn span(&self) -> (s: Span)
        ensures
            s == self.span,
    {
        self.span
    }
}

/// Declaration of a type alias
#[derive(Debug, PartialEq)]
pub struct Typedef {
    pub alias_ident: Identifier,
    pub type_expr: TypeExpression,
    pub span: Span,
}

impl Typedef {
    /// A type alias starting at `start`; its span ends with the aliased
    /// type where that has text of its own, else with the alias name.
    pub fn new(start: Location, alias_ident: Identifier, type_expr: TypeExpression) -> (t: Typedef)
        ensures
            t.alias_ident == alias_ident,
            t.type_expr == type_expr,
            t.span.start() == start,
            t.span.end() == match type_span_token(type_expr) {
                Some(tok) => spec_token_end(tok.location, tok.text@.len()),
                None => spec_token_end(alias_ident.token.location, alias_ident.token.text@.len()),
            },
    {
        let end = match type_expr.span() {
            Some(s) => s.end(),
            None => alias_ident.span().end(),
        };
        Typedef { span: Span::from_locations(start, end), alias_ident, type_expr }
    }

    pub fn ident(&self) -> (i: &Identifier)
        ensures
            i == &self.alias_ident,
    {
        &self.alias_ident
    }

    pub fn id(&self) -> (id: &ScopedId)
        ensures
            id == &self.alias_ident.id,
    {
        &self.alias_ident.id
    }

    pub fn set_id(&mut self, id: ScopedId)
        requires
            id@ != crate::check::scope::scope::spec_default_index(),
        ensures
            final(self).alias_ident.token == old(self).alias_ident.token,
            final(self).alias_ident.id == id,
            final(self).type_expr == old(self).type_expr,
            final(self).span == old(self).span,
    {
        self.alias_ident.set_id(id)
    }

    pub fn name(&self) -> (s: &str)
        ensures
            s@ == self.alias_ident.token.text@,
    {
        self.alias_ident.name()
    }

    pub fn type_expr(&self) -> (t: &TypeExpression)
        ensures
            t == &self.type_expr,
    {
        &self.type_expr
    }

    pub fn span(&self) -> (s: Span)
        ensures
            s == self.span,
    {
        self.span
    }
}

} // verus!
