//! Errors, warnings and lints reported by the checking passes.

use vstd::prelude::*;

use crate::lex::{Token, TokenView, Span, spec_token_end};

verus! {

/// Compiler error returned by a checker: the offending token, the tokens
/// of related declarations, and a message.
///
/// Whether this error is actually a warning or lint depends on
/// compiler options. Errors are collected in an `ErrorCollector`.
#[derive(Debug, PartialEq, Eq)]
pub struct CheckerError {
    token: Token,
    references: Vec<Token>,
    text: String,
}

/// The mathematical value of a `CheckerError`.
pub struct ErrorView {
    pub token: TokenView,
    pub references: Seq<TokenView>,
    pub text: Seq<char>,
}

/// The views of a list of tokens.
pub open spec fn tokens_view(tokens: Seq<Token>) -> Seq<TokenView> {
    tokens.map_values(|t: Token| t@)
}

impl View for CheckerError {
    type V = ErrorView;

    closed spec fn view(&self) -> ErrorView {
        ErrorView { token: self.token@, references: tokens_view(self.references@), text: self.text@ }
    }
}

/// The error at `token`, referring to `references`, with message `text`.
pub open spec fn error_view(token: TokenView, references: Seq<TokenView>, text: Seq<char>) -> ErrorView {
    ErrorView { token, references, text }
}

impl CheckerError {
    /// The error at `token`, referring to `references`, saying `text`.
    pub fn new(token: Token, references: Vec<Token>, text: String) -> (e: CheckerError)
        ensures
            e@ == error_view(token@, tokens_view(references@), text@),
    {
        CheckerError { token, references, text }
    }

    /// The token the error is about.
    pub fn token(&self) -> (t: &Token)
        ensures
            t@ == self@.token,
    {
        &self.token
    }

    /// Tokens of related declarations.
    pub fn references(&self) -> (r: &[Token])
        ensures
            tokens_view(r@) == self@.references,
    {
        self.references.as_slice()
    }

    /// The span of the offending token.
    pub fn offender(&self) -> (s: Span)
        ensures
            s.start() == self@.token.location,
            s.end() == spec_token_end(self@.token.location, self@.token.text.len()),
    {
        self.token.span()
    }

    /// The error message.
    pub fn text(&self) -> (s: &str)
        ensures
            s@ == self@.text,
    {
        self.text.as_str()
    }
}

} // verus!
