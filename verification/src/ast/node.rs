//! Identifiers and blocks.

use vstd::prelude::*;

use crate::lex::{Token, Span, spec_token_end};
use crate::ast::{ScopedId, Statement};
use crate::ast::stmt::{stmt_end, stmt_start};
use crate::check::scope::scope::spec_default_index;

verus! {

/// Basic identifier type: the token naming something, and the `ScopedId`
/// it was given by the checking passes (`[0]` until then).
#[derive(Debug, PartialEq, Eq)]
pub struct Identifier {
    pub token: Token,
    pub id: ScopedId,
}

impl Identifier {
    /// An identifier for the given token, with the default `ScopedId`.
    pub fn new(token: Token) -> (ident: Identifier)
        ensures
            ident.token == token,
            ident.id@ == spec_default_index(),
    {
        Identifier { token, id: ScopedId::default() }
    }

    /// The name of the identifier, its token's text.
    pub fn name(&self) -> (s: &str)
        ensures
            s@ == self.token.text@,
    {
        self.token.text()
    }

    /// The identifier's token.
    pub fn token(&self) -> (t: &Token)
        ensures
            t == &self.token,
    {
        &self.token
    }

    /// The identifier's `ScopedId`.
    pub fn id(&self) -> (id: &ScopedId)
        ensures
            id == &self.id,
    {
        &self.id
    }

    /// Gives the identifier its `ScopedId`; the default index is no id.
    pub fn set_id(&mut self, index: ScopedId)
        requires
            index@ != spec_default_index(),
        ensures
            final(self).token == old(self).token,
            final(self).id == index,
    {
        self.id = index;
    }

    /// The span of the identifier's token.
    pub fn span(&self) -> (span: Span)
        ensures
            span.start() == self.token.location,
            span.end() == spec_token_end(self.token.location, self.token.text@.len()),
    {
        self.token.span()
    }
}

impl Clone for Identifier {
    fn clone(&self) -> (ident: Identifier)
        ensures
            ident.token@ == self.token@,
            ident.id@ == self.id@,
    {
        Identifier { token: self.token.clone(), id: self.id.clone() }
    }
}

/// Collection of statements which may have an expression value
#[derive(Debug, PartialEq)]
pub struct Block {
    /// Statements in the block
    pub statements: Vec<Statement>,
    /// Identifier used for typechecking.
    pub scope_id: ScopedId,
    /// What uses the value of this block as an expression?
    pub source: Option<ScopedId>,
}

impl Block {
    /// Create a new block from the given statements.
    pub fn new(statements: Vec<Statement>) -> (block: Block)
        ensures
            block.statements == statements,
            block.scope_id@ == spec_default_index(),
            block.source is None,
    {
        Block { statements, scope_id: ScopedId::default(), source: None }
    }

    /// The statements of the block.
    pub fn stmts(&self) -> (s: &[Statement])
        ensures
            s@ == self.statements@,
    {
        self.statements.as_slice()
    }

    /// The block's `ScopedId`.
    pub fn id(&self) -> (id: &ScopedId)
        ensures
            id == &self.scope_id,
    {
        &self.scope_id
    }

    /// Sets the block's `ScopedId`.
    pub fn set_id(&mut self, id: ScopedId)
        ensures
            final(self).statements == old(self).statements,
            final(self).source == old(self).source,
            final(self).scope_id == id,
    {
        self.scope_id = id;
    }

    /// What uses the value of the block, if anything.
    pub fn source(&self) -> (s: &Option<ScopedId>)
        ensures
            s == &self.source,
    {
        &self.source
    }

    /// Records what uses the value of the block.
    pub fn set_source(&mut self, source: ScopedId)
        ensures
            final(self).statements == old(self).statements,
            final(self).scope_id == old(self).scope_id,
            final(self).source == Some(source),
    {
        self.source = Some(source);
    }

    /// Whether the value of the block is used.
    pub fn has_source(&self) -> (b: bool)
        ensures
            b == self.source is Some,
    {
        self.source.is_some()
    }

    /// The span from the first to the last statement, where there is one.
    pub fn span(&self) -> (span: Option<Span>)
        ensures
            span is Some <==> self.statements@.len() > 0,
            span matches Some(s) ==> s.start() == stmt_start(self.statements@[0]) && s.end()
                == stmt_end(self.statements@.last()),
    {
        let n = self.statements.len();
        if n == 0 {
            None
        } else {
            let first = self.statements[0].span();
            let last = self.statements[n - 1].span();
            Some(Span::covering(first, last))
        }
    }
}

} // verus!
