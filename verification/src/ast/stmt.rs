//! Statement values
//!
//! Function bodies are made up of statements, including blocks which
//! use indentation.

use vstd::prelude::*;

use crate::lex::{Span, Location, TextLocation, saturated};
use crate::ast::{Expression, Identifier, TypeExpression, Block, ScopedId};
use crate::ast::expression::{expr_end, expr_start, expression_has_value};

verus! {

/// Statement representation
#[derive(Debug, PartialEq)]
pub enum Statement {
    Expression(Expression),
    Return(Return),
    Declaration(Declaration),
    DoBlock(DoBlock),
    IfBlock(IfBlock),
}

/// Whether a statement has a value: a valued expression, a return of a
/// valued expression, or a block whose value is used.
pub open spec fn statement_has_value(s: Statement) -> bool {
    match s {
        Statement::Expression(e) => expression_has_value(e),
        Statement::Return(r) => match r.value {
            Some(v) => expression_has_value(*v),
            None => false,
        },
        Statement::DoBlock(d) => d.block.source is Some,
        Statement::IfBlock(i) => i.source is Some,
        Statement::Declaration(_) => false,
    }
}

impl Statement {
    /// Whether this statement has a value.
    pub fn has_value(&self) -> (b: bool)
        ensures
            b == statement_has_value(*self),
    {
        match self {
            Statement::Expression(inner) => inner.has_value(),
            Statement::Return(return_) => return_.has_value(),
            Statement::DoBlock(do_block) => do_block.has_source(),
            Statement::IfBlock(if_block) => if_block.has_source(),
            Statement::Declaration(_) => false,
        }
    }

    /// The span of the statement's text.
    pub fn span(&self) -> (s: Span)
        ensures
            s.start() == stmt_start(*self),
            s.end() == stmt_end(*self),
    {
        match self {
            Statement::Expression(e) => e.span(),
            Statement::Return(r) => r.span(),
            Statement::Declaration(d) => d.span(),
            Statement::DoBlock(d) => d.span(),
            Statement::IfBlock(i) => i.span(),
        }
    }
}

/// Where the text of a statement starts.
pub open spec fn stmt_start(st: Statement) -> Location {
    match st {
        Statement::Expression(e) => expr_start(e),
        Statement::Return(r) => r.span.start(),
        Statement::Declaration(d) => d.span.start(),
        Statement::DoBlock(d) => d.span.start(),
        Statement::IfBlock(i) => i.span.start(),
    }
}

/// Where the text of a statement ends: its last character.
pub open spec fn stmt_end(st: Statement) -> Location {
    match st {
        Statement::Expression(e) => expr_end(e),
        Statement::Return(r) => r.span.end(),
        Statement::Declaration(d) => d.span.end(),
        Statement::DoBlock(d) => d.span.end(),
        Statement::IfBlock(i) => i.span.end(),
    }
}

/// The location five characters after `start`, saturating.
pub open spec fn spec_after_return_keyword(start: Location) -> Location {
    TextLocation { index: saturated(start.index, 5), line: start.line, column: saturated(start.column, 5) }
}

/// The location five characters after `start` (the last character of the
/// keyword `return`), saturating at `usize::MAX`.
fn after_return_keyword(start: Location) -> (loc: Location)
    ensures
        loc == spec_after_return_keyword(start),
{
    TextLocation {
        index: start.index.saturating_add(5),
        line: start.line,
        column: start.column.saturating_add(5),
    }
}

/// Explicit return statement
#[derive(Debug, PartialEq)]
pub struct Return {
    pub value: Option<Box<Expression>>,
    pub span: Span,
}

impl Return {
    /// A `return` at `start`, with an optional value; the span ends with the
    /// value or, without one, with the keyword.
    pub fn new(start: Location, value: Option<Box<Expression>>) -> (r: Return)
        ensures
            r.value == value,
            r.span.start() == start,
            r.span.end() == match value {
                Some(e) => expr_end(*e),
                None => spec_after_return_keyword(start),
            },
    {
        let end = match &value {
            Some(exp) => exp.span().end(),
            None => after_return_keyword(start),
        };
        Return { value, span: Span::from_locations(start, end) }
    }

    /// Whether the return has a valued expression.
    pub fn has_value(&self) -> (b: bool)
        ensures
            b == match self.value {
                Some(v) => expression_has_value(*v),
                None => false,
            },
    {
        match &self.value {
            Some(val) => val.has_value(),
            None => false,
        }
    }

    /// The returned expression, if any.
    pub fn value(&self) -> (v: Option<&Expression>)
        ensures
            match self.value {
                Some(b) => v == Some(&*b),
                None => v is None,
            },
    {
        match &self.value {
            Some(b) => Some(&**b),
            None => None,
        }
    }

    pub fn span(&self) -> (s: Span)
        ensures
            s == self.span,
    {
        self.span
    }
}

/// Variable declaration
#[derive(Debug, PartialEq)]
pub struct Declaration {
    pub mutable: bool,
    pub ident: Identifier,
    pub value: Box<Expression>,
    pub type_decl: Option<TypeExpression>,
    pub span: Span,
}

impl Declaration {
    pub fn new(
        start: Location,
        ident: Identifier,
        mutable: bool,
        type_decl: Option<TypeExpression>,
        value: Box<Expression>,
    ) -> (d: Declaration)
        ensures
            d.ident == ident,
            d.mutable == mutable,
            d.type_decl == type_decl,
            d.value == value,
            d.span.start() == start,
            d.span.end() == expr_end(*value),
    {
        let span = Span::from_location_to(start, value.span());
        Declaration { ident, mutable, type_decl, value, span }
    }

    /// The declared name.
    pub fn name(&self) -> (s: &str)
        ensures
            s@ == self.ident.token.text@,
    {
        self.ident.name()
    }

    pub fn value(&self) -> (e: &Expression)
        ensures
            e == &*self.value,
    {
        &self.value
    }

    pub fn is_mut(&self) -> (b: bool)
        ensures
            b == self.mutable,
    {
        self.mutable
    }

    pub fn ident(&self) -> (i: &Identifier)
        ensures
            i == &self.ident,
    {
        &self.ident
    }

    pub fn id(&self) -> (id: &ScopedId)
        ensures
            id == &self.ident.id,
    {
        &self.ident.id
    }

    pub fn set_id(&mut self, id: ScopedId)
        requires
            id@ != crate::check::scope::scope::spec_default_index(),
        ensures
            final(self).ident.token == old(self).ident.token,
            final(self).ident.id == id,
            final(self).mutable == old(self).mutable,
            final(self).value == old(self).value,
            final(self).type_decl == old(self).type_decl,
            final(self).span == old(self).span,
    {
        self.ident.set_id(id);
    }

    pub fn type_decl(&self) -> (t: Option<&TypeExpression>)
        ensures
            match self.type_decl {
                Some(t0) => t == Some(&t0),
                None => t is None,
            },
    {
        match &self.type_decl {
            Some(t) => Some(t),
            None => None,
        }
    }

    pub fn has_declared_type(&self) -> (b: bool)
        ensures
            b == self.type_decl is Some,
    {
        self.type_decl.is_some()
    }

    pub fn span(&self) -> (s: Span)
        ensures
            s == self.span,
    {
        self.span
    }
}

/// The end of a span starting at `start` and running through `block`:
/// the end of its last statement, or `start` for an empty block.
pub open spec fn spec_block_end(start: Location, block: Block) -> Location {
    if block.statements@.len() == 0 {
        start
    } else {
        stmt_end(block.statements@.last())
    }
}

/// The end of a span starting at `start` and running through `block`:
/// the end of its last statement, or `start` for an empty block.
fn block_end(start: Location, block: &Block) -> (end: Location)
    ensures
        end == spec_block_end(start, *block),
{
    match block.span() {
        Some(s) => s.end(),
        None => start,
    }
}

/// Do <block> statement.
#[derive(Debug, PartialEq)]
pub struct DoBlock {
    pub block: Box<Block>,
    pub span: Span,
}

impl DoBlock {
    pub fn new(start: Location, block: Box<Block>) -> (d: DoBlock)
        ensures
            d.block == block,
            d.span.start() == start,
            d.span.end() == spec_block_end(start, *block),
    {
        let end = block_end(start, &block);
        DoBlock { block, span: Span::from_locations(start, end) }
    }

    pub fn block(&self) -> (b: &Block)
        ensures
            b == &*self.block,
    {
        &self.block
    }

    pub fn id(&self) -> (id: &ScopedId)
        ensures
            id == &self.block.scope_id,
    {
        self.block.id()
    }

    pub fn source(&self) -> (s: &Option<ScopedId>)
        ensures
            s == &self.block.source,
    {
        self.block.source()
    }

    pub fn has_source(&self) -> (b: bool)
        ensures
            b == self.block.source is Some,
    {
        self.block.has_source()
    }

    pub fn span(&self) -> (s: Span)
        ensures
            s == self.span,
    {
        self.span
    }
}

/// `if <condition> <block>`, with `else if` conditionals kept in a list
/// and an optional `else` block.
#[derive(Debug, PartialEq)]
pub struct IfBlock {
    pub conditionals: Vec<Conditional>,
    pub else_block: Option<Block>,
    pub scoped_id: ScopedId,
    pub source: Option<ScopedId>,
    pub span: Span,
}

/// A basic conditional
#[derive(Debug, PartialEq)]
pub struct Conditional {
    pub condition: Expression,
    pub block: Block,
    pub span: Span,
}

impl IfBlock {
    /// An `if` starting at `start`; its span ends with the `else` block, or
    /// with the last conditional.
    pub fn new(start: Location, conditionals: Vec<Conditional>, else_block: Option<Block>) -> (i:
        IfBlock)
        requires
            conditionals@.len() > 0,
        ensures
            i.conditionals == conditionals,
            i.else_block == else_block,
            i.scoped_id@ == crate::check::scope::scope::spec_default_index(),
            i.source is None,
            i.span.start() == start,
            i.span.end() == match else_block {
                Some(b) => spec_block_end(start, b),
                None => conditionals@.last().span.end(),
            },
    {
        let end = match &else_block {
            Some(b) => block_end(start, b),
            None => conditionals[conditionals.len() - 1].span.end(),
        };
        IfBlock {
            conditionals,
            else_block,
            scoped_id: ScopedId::default(),
            source: None,
            span: Span::from_locations(start, end),
        }
    }

    pub fn has_else_if(&self) -> (b: bool)
        ensures
            b == (self.conditionals@.len() > 1),
    {
        self.conditionals.len() > 1
    }

    pub fn has_else(&self) -> (b: bool)
        ensures
            b == self.else_block is Some,
    {
        self.else_block.is_some()
    }

    pub fn conditionals(&self) -> (c: &Vec<Conditional>)
        ensures
            c == &self.conditionals,
    {
        &self.conditionals
    }

    /// The condition of the first conditional.
    pub fn condition(&self) -> (e: &Expression)
        requires
            self.conditionals@.len() > 0,
        ensures
            e == &self.conditionals@[0].condition,
    {
        &self.conditionals[0].condition
    }

    pub fn else_block(&self) -> (b: Option<&Block>)
        ensures
            match self.else_block {
                Some(b0) => b == Some(&b0),
                None => b is None,
            },
    {
        match &self.else_block {
            Some(b) => Some(b),
            None => None,
        }
    }

    pub fn id(&self) -> (id: &ScopedId)
        ensures
            id == &self.scoped_id,
    {
        &self.scoped_id
    }

    pub fn set_id(&mut self, id: ScopedId)
        ensures
            final(self).conditionals == old(self).conditionals,
            final(self).else_block == old(self).else_block,
            final(self).source == old(self).source,
            final(self).span == old(self).span,
            final(self).scoped_id == id,
    {
        self.scoped_id = id;
    }

    pub fn source(&self) -> (s: &Option<ScopedId>)
        ensures
            s == &self.source,
    {
        &self.source
    }

    pub fn set_source(&mut self, source: ScopedId)
        ensures
            final(self).conditionals == old(self).conditionals,
            final(self).else_block == old(self).else_block,
            final(self).scoped_id == old(self).scoped_id,
            final(self).span == old(self).span,
            final(self).source == Some(source),
    {
        self.source = Some(source);
    }

    pub fn has_source(&self) -> (b: bool)
        ensures
            b == self.source is Some,
    {
        self.source.is_some()
    }

    pub fn span(&self) -> (s: Span)
        ensures
            s == self.span,
    {
        self.span
    }
}

impl Conditional {
    pub fn new(start: Location, condition: Expression, block: Block) -> (c: Conditional)
        ensures
            c.condition == condition,
            c.block == block,
            c.span.start() == start,
            c.span.end() == spec_block_end(start, block),
    {
        let end = block_end(start, &block);
        Conditional { condition, block, span: Span::from_locations(start, end) }
    }

    pub fn condition(&self) -> (e: &Expression)
        ensures
            e == &self.condition,
    {
        &self.condition
    }

    pub fn block(&self) -> (b: &Block)
        ensures
            b == &self.block,
    {
        &self.block
    }

    pub fn source(&self) -> (s: &Option<ScopedId>)
        ensures
            s == &self.block.source,
    {
        self.block.source()
    }

    pub fn has_source(&self) -> (b: bool)
        ensures
            b == self.block.source is Some,
    {
        self.block.has_source()
    }

    pub fn span(&self) -> (s: Span)
        ensures
            s == self.span,
    {
        self.span
    }
}

} // verus!
