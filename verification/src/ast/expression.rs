//! Expression values
//!
//! Expression values are used in the `Expression` and `Statement` contexts.

use vstd::prelude::*;

use crate::lex::{Token, TokenData, TokenType, Span, Location, token_type_of, spec_token_end};
use crate::ast::{ScopedId, Identifier, UnaryOperator, BinaryOperator};
use crate::parse::{ParseResult, ParseError, ExpectedNextType};

verus! {

/// Expression types
#[derive(Debug, PartialEq)]
pub enum Expression {
    /// Literal value expression
    Literal(Literal),
    /// Variable reference
    VariableRef(Identifier),
    /// Binary operation
    BinaryOp(BinaryOperation),
    /// Unary operation
    UnaryOp(UnaryOperation),
    /// If expression
    IfExpression(IfExpression),
    /// Invocation of a function with named arguments.
    FnCall(FnCall),
    /// Assignment - not considered a value expression
    Assignment(Assignment),
}

/// Whether an expression has a value: every expression but an assignment.
pub open spec fn expression_has_value(e: Expression) -> bool {
    !(e is Assignment)
}

impl Expression {
    /// Whether this expression has value.
    ///
    /// Assignments are expressions of type `()` which may not be used to
    /// represent `()`.
    pub fn has_value(&self) -> (b: bool)
        ensures
            b == expression_has_value(*self),
    {
        match self {
            Expression::Assignment(_) => false,
            _ => true,
        }
    }

    /// The expression itself where it has a value, else an error that an
    /// expression was expected.
    pub fn expect_value(self) -> (r: ParseResult<Expression>)
        ensures
            expression_has_value(self) ==> r == Ok::<Expression, ParseError>(self),
            !expression_has_value(self) ==> r == Err::<Expression, ParseError>(
                ParseError::ExpectedExpression { expected: ExpectedNextType::AnyExpression, got: self },
            ),
    {
        if !self.has_value() {
            Err(ParseError::ExpectedExpression { expected: ExpectedNextType::AnyExpression, got: self })
        } else {
            Ok(self)
        }
    }

    /// The identifier of a variable reference, else an error that an
    /// lvalue was expected.
    pub fn expect_identifier(self) -> (r: ParseResult<Identifier>)
        ensures
            match self {
                Expression::VariableRef(ident) => r == Ok::<Identifier, ParseError>(ident),
                other => r == Err::<Identifier, ParseError>(ParseError::ExpectedLValue(other)),
            },
    {
        match self {
            Expression::VariableRef(ident) => Ok(ident),
            other => Err(ParseError::ExpectedLValue(other)),
        }
    }

    /// The span of the expression's text.
    pub fn span(&self) -> (span: Span)
        ensures
            span.start() == expr_start(*self),
            span.end() == expr_end(*self),
        decreases self,
    {
        match self {
            Expression::Literal(l) => l.span(),
            Expression::VariableRef(v) => v.span(),
            Expression::Assignment(a) => Span::covering(a.lvalue.span(), a.rvalue.span()),
            Expression::BinaryOp(b) => b.span(),
            Expression::FnCall(f) => f.span(),
            Expression::IfExpression(i) => i.span(),
            Expression::UnaryOp(u) => u.span(),
        }
    }
}

/// Where the text of an expression starts.
pub open spec fn expr_start(e: Expression) -> Location {
    match e {
        Expression::Literal(l) => l.token.location,
        Expression::VariableRef(v) => v.token.location,
        Expression::Assignment(a) => a.lvalue.token.location,
        Expression::BinaryOp(b) => b.span.start(),
        Expression::FnCall(f) => f.span.start(),
        Expression::IfExpression(i) => i.span.start(),
        Expression::UnaryOp(u) => u.span.start(),
    }
}

/// Where the text of an expression ends: its last character.
pub open spec fn expr_end(e: Expression) -> Location
    decreases e,
{
    match e {
        Expression::Literal(l) => spec_token_end(l.token.location, l.token.text@.len()),
        Expression::VariableRef(v) => spec_token_end(v.token.location, v.token.text@.len()),
        Expression::Assignment(a) => expr_end(*a.rvalue),
        Expression::BinaryOp(b) => b.span.end(),
        Expression::FnCall(f) => f.span.end(),
        Expression::IfExpression(i) => i.span.end(),
        Expression::UnaryOp(u) => u.span.end(),
    }
}

/// Values held by a literal.
#[derive(Debug, PartialEq)]
pub enum LiteralValue {
    /// Literals `true` and `false`
    Bool(bool),
    /// Numeric literals, held as the decimal text they were written with
    Float(String),
    /// `()`
    Unit,
}

/// Represents a literal expression, such as a boolean or number.
#[derive(Debug, PartialEq)]
pub struct Literal {
    pub token: Token,
    pub value: LiteralValue,
}

impl Literal {
    /// Creates a new `Literal` from the given literal token and value.
    pub fn new(token: Token, value: LiteralValue) -> (l: Literal)
        requires
            token_type_of(token.data) == TokenType::Literal,
        ensures
            l.token == token,
            l.value == value,
    {
        Literal { token, value }
    }

    /// Creates a new boolean literal from the given token and value.
    pub fn new_bool(token: Token, value: bool) -> (l: Literal)
        requires
            token.data == TokenData::BoolLiteral,
        ensures
            l.token == token,
            l.value == LiteralValue::Bool(value),
    {
        Literal { token, value: LiteralValue::Bool(value) }
    }

    /// Creates a new unit literal `()` from the given token.
    pub fn new_unit(token: Token) -> (l: Literal)
        requires
            token.data == TokenData::UnitLiteral,
        ensures
            l.token == token,
            l.value == LiteralValue::Unit,
    {
        Literal { token, value: LiteralValue::Unit }
    }

    /// Creates a new numeric literal from the given token and its text.
    pub fn new_float(token: Token, value: String) -> (l: Literal)
        requires
            token.data == TokenData::NumberLiteral,
        ensures
            l.token == token,
            l.value == LiteralValue::Float(value),
    {
        Literal { token, value: LiteralValue::Float(value) }
    }

    /// The text of the literal's token.
    pub fn text(&self) -> (s: &str)
        ensures
            s@ == self.token.text@,
    {
        self.token.text()
    }

    /// Gets the `LiteralValue` of this literal expression.
    pub fn value(&self) -> (v: &LiteralValue)
        ensures
            v == &self.value,
    {
        &self.value
    }

    /// The literal's token.
    pub fn token(&self) -> (t: &Token)
        ensures
            t == &self.token,
    {
        &self.token
    }

    /// Gets the span of the literal token
    pub fn span(&self) -> (span: Span)
        ensures
            span.start() == self.token.location,
            span.end() == spec_token_end(self.token.location, self.token.text@.len()),
    {
        self.token.span()
    }
}

/// Maths style binary operations
#[derive(Debug, PartialEq)]
pub struct BinaryOperation {
    pub operator: BinaryOperator,
    pub left: Box<Expression>,
    pub right: Box<Expression>,
    pub span: Span,
}

impl BinaryOperation {
    /// The operation `left operator right`, spanning both operands.
    pub fn new(operator: BinaryOperator, left: Box<Expression>, right: Box<Expression>) -> (b:
        BinaryOperation)
        ensures
            b.operator == operator,
            b.left == left,
            b.right == right,
    {
        let span = Span::covering(left.span(), right.span());
        BinaryOperation { span, operator, left, right }
    }

    pub fn operator(&self) -> (o: BinaryOperator)
        ensures
            o == self.operator,
    {
        self.operator
    }

    pub fn left(&self) -> (e: &Expression)
        ensures
            e == &*self.left,
    {
        &self.left
    }

    pub fn right(&self) -> (e: &Expression)
        ensures
            e == &*self.right,
    {
        &self.right
    }

    pub fn span(&self) -> (s: Span)
        ensures
            s == self.span,
    {
        self.span
    }
}

/// Unary operation
#[derive(Debug, PartialEq)]
pub struct UnaryOperation {
    pub operator: UnaryOperator,
    pub expression: Box<Expression>,
    pub span: Span,
}

impl UnaryOperation {
    /// Creates a new unary operation starting at `start`.
    pub fn new(start: Location, operator: UnaryOperator, expression: Box<Expression>) -> (u:
        UnaryOperation)
        ensures
            u.operator == operator,
            u.expression == expression,
            u.span.start() == start,
            u.span.end() == expr_end(*expression),
    {
        let span = Span::from_location_to(start, expression.span());
        UnaryOperation { span, operator, expression }
    }

    pub fn operator(&self) -> (o: UnaryOperator)
        ensures
            o == self.operator,
    {
        self.operator
    }

    pub fn inner(&self) -> (e: &Expression)
        ensures
            e == &*self.expression,
    {
        &self.expression
    }

    pub fn span(&self) -> (s: Span)
        ensures
            s == self.span,
    {
        self.span
    }
}

/// An identifier is assigned to a value
#[derive(Debug, PartialEq)]
pub struct Assignment {
    pub lvalue: Identifier,
    pub rvalue: Box<Expression>,
}

impl Assignment {
    pub fn new(name: Identifier, value: Box<Expression>) -> (a: Assignment)
        ensures
            a.lvalue == name,
            a.rvalue == value,
    {
        Assignment { lvalue: name, rvalue: value }
    }

    pub fn lvalue(&self) -> (i: &Identifier)
        ensures
            i == &self.lvalue,
    {
        &self.lvalue
    }

    pub fn rvalue(&self) -> (e: &Expression)
        ensures
            e == &*self.rvalue,
    {
        &self.rvalue
    }

    /// From the assigned name to the end of the value.
    pub fn span(&self) -> (s: Span)
        ensures
            s.start() == self.lvalue.token.location,
            s.end() == expr_end(*self.rvalue),
    {
        Span::covering(self.lvalue.span(), self.rvalue.span())
    }
}

/// Inline if expression using `=>`
#[derive(Debug, PartialEq)]
pub struct IfExpression {
    pub condition: Box<Expression>,
    pub true_expr: Box<Expression>,
    pub else_expr: Box<Expression>,
    pub span: Span,
}

impl IfExpression {
    pub fn new(
        start: Location,
        condition: Box<Expression>,
        true_expr: Box<Expression>,
        else_expr: Box<Expression>,
    ) -> (i: IfExpression)
        ensures
            i.condition == condition,
            i.true_expr == true_expr,
            i.else_expr == else_expr,
            i.span.start() == start,
            i.span.end() == expr_end(*else_expr),
    {
        let span = Span::from_location_to(start, else_expr.span());
        IfExpression { span, condition, true_expr, else_expr }
    }

    pub fn condition(&self) -> (e: &Expression)
        ensures
            e == &*self.condition,
    {
        &self.condition
    }

    pub fn true_expr(&self) -> (e: &Expression)
        ensures
            e == &*self.true_expr,
    {
        &self.true_expr
    }

    pub fn else_expr(&self) -> (e: &Expression)
        ensures
            e == &*self.else_expr,
    {
        &self.else_expr
    }

    pub fn span(&self) -> (s: Span)
        ensures
            s == self.span,
    {
        self.span
    }
}

/// Represents invocation of a function
#[derive(Debug, PartialEq)]
pub struct FnCall {
    pub lvalue: Identifier,
    pub args: Vec<CallArgument>,
    pub span: Span,
}

impl FnCall {
    pub fn new(span: Span, lvalue: Identifier, args: Vec<CallArgument>) -> (f: FnCall)
        ensures
            f.span == span,
            f.lvalue == lvalue,
            f.args == args,
    {
        FnCall { lvalue, args, span }
    }

    pub fn ident(&self) -> (i: &Identifier)
        ensures
            i == &self.lvalue,
    {
        &self.lvalue
    }

    /// The name of the called function.
    pub fn text(&self) -> (s: &str)
        ensures
            s@ == self.lvalue.token.text@,
    {
        self.lvalue.name()
    }

    pub fn args(&self) -> (a: &[CallArgument])
        ensures
            a@ == self.args@,
    {
        self.args.as_slice()
    }

    pub fn id(&self) -> (id: &ScopedId)
        ensures
            id == &self.lvalue.id,
    {
        &self.lvalue.id
    }

    pub fn set_id(&mut self, id: ScopedId)
        requires
            id@ != crate::check::scope::scope::spec_default_index(),
        ensures
            final(self).lvalue.token == old(self).lvalue.token,
            final(self).lvalue.id == id,
            final(self).args == old(self).args,
            final(self).span == old(self).span,
    {
        self.lvalue.set_id(id);
    }

    pub fn span(&self) -> (s: Span)
        ensures
            s == self.span,
    {
        self.span
    }
}

/// Represents arguments given to call a function with
#[derive(Debug, PartialEq)]
pub struct CallArgument {
    pub param: Identifier,
    pub value: Expression,
}

impl CallArgument {
    /// The argument `param: value`.
    pub fn named(param: Identifier, value: Expression) -> (c: CallArgument)
        ensures
            c.param == param,
            c.value == value,
    {
        CallArgument { param, value }
    }

    /// Gets the value of the CallArgument.
    pub fn expression(&self) -> (e: &Expression)
        ensures
            e == &self.value,
    {
        &self.value
    }

    /// The name of the parameter the argument is given for.
    pub fn name(&self) -> (i: &Identifier)
        ensures
            i == &self.param,
    {
        &self.param
    }

    /// From the parameter name to the end of the value.
    pub fn span(&self) -> (s: Span)
        ensures
            s.start() == self.param.token.location,
            s.end() == expr_end(self.value),
    {
        Span::covering(self.param.span(), self.value.span())
    }
}

} // verus!
