//! Source positions and tokens.
//!
//! Every AST node that appears in source text carries the `Token`s it was
//! parsed from, so that errors can point back at the program text.

use vstd::prelude::*;

verus! {

/// A position in program text.
///
/// `index` counts characters from the start of the text; `line` and
/// `column` are both zero-based.
#[derive(Debug, Clone, Copy, PartialEq, Eq, Structural, Hash)]
pub struct TextLocation {
    pub index: usize,
    pub line: usize,
    pub column: usize,
}

/// Locations are `TextLocation`s.
pub type Location = TextLocation;

impl TextLocation {
    /// The location `offset` characters further along the same line.
    pub fn offset(&self, offset: usize) -> (loc: TextLocation)
        requires
            self.index + offset <= usize::MAX,
            self.column + offset <= usize::MAX,
        ensures
            loc.index == self.index + offset,
            loc.line == self.line,
            loc.column == self.column + offset,
    {
        TextLocation { index: self.index + offset, line: self.line, column: self.column + offset }
    }
}

/// An inclusive range of program text, from the first character of
/// `start` to the last character at `end`.
#[derive(Debug, Clone, Copy, PartialEq, Eq, Structural, Hash)]
pub struct Span {
    start: TextLocation,
    end: TextLocation,
}

impl Span {
    /// The span from `start` to `end`, both inclusive.
    pub fn from_locations(start: TextLocation, end: TextLocation) -> (span: Span)
        ensures
            span.start() == start,
            span.end() == end,
    {
        Span { start, end }
    }

    /// The span covering `first` through `last`: from the start of
    /// `first` to the end of `last`.
    pub fn covering(first: Span, last: Span) -> (span: Span)
        ensures
            span.start() == first.start(),
            span.end() == last.end(),
    {
        Span { start: first.start, end: last.end }
    }

    /// The span from `start` to the end of `last`.
    pub fn from_location_to(start: TextLocation, last: Span) -> (span: Span)
        ensures
            span.start() == start,
            span.end() == last.end(),
    {
        Span { start, end: last.end }
    }

    /// The first location of the span.
    #[verifier::when_used_as_spec(spec_start)]
    pub fn start(&self) -> (loc: TextLocation)
        ensures
            loc == self.spec_start(),
    {
        self.start
    }

    /// The last location of the span.
    #[verifier::when_used_as_spec(spec_end)]
    pub fn end(&self) -> (loc: TextLocation)
        ensures
            loc == self.spec_end(),
    {
        self.end
    }

    pub closed spec fn spec_start(&self) -> TextLocation {
        self.start
    }

    pub closed spec fn spec_end(&self) -> TextLocation {
        self.end
    }
}

/// The data a token carries: what kind of text it was read from.
#[derive(Debug, Clone, Copy, PartialEq, Eq, Structural, Hash)]
pub enum TokenData {
    /// An identifier such as `x` or `fib`.
    Ident,
    /// A numeric literal such as `12`.
    NumberLiteral,
    /// `true` or `false`.
    BoolLiteral,
    /// The unit literal `()`.
    UnitLiteral,
    /// A keyword such as `let` or `return`.
    Keyword,
    /// An operator or punctuation symbol.
    Symbol,
    /// The end of the input.
    EOF,
}

/// The broad category of a token.
#[derive(Debug, Clone, Copy, PartialEq, Eq, Structural, Hash)]
pub enum TokenType {
    Ident,
    Literal,
    Keyword,
    Symbol,
    EOF,
}

/// The category a token's data falls into.
pub open spec fn token_type_of(data: TokenData) -> TokenType {
    match data {
        TokenData::Ident => TokenType::Ident,
        TokenData::NumberLiteral | TokenData::BoolLiteral | TokenData::UnitLiteral => TokenType::Literal,
        TokenData::Keyword => TokenType::Keyword,
        TokenData::Symbol => TokenType::Symbol,
        TokenData::EOF => TokenType::EOF,
    }
}

/// A token of program text.
#[derive(Debug, PartialEq, Eq)]
pub struct Token {
    pub location: TextLocation,
    pub text: String,
    pub data: TokenData,
}

/// The mathematical value of a token: its text as a sequence of characters.
pub struct TokenView {
    pub location: TextLocation,
    pub text: Seq<char>,
    pub data: TokenData,
}

impl View for Token {
    type V = TokenView;

    open spec fn view(&self) -> TokenView {
        TokenView { location: self.location, text: self.text@, data: self.data }
    }
}

impl Clone for Token {
    fn clone(&self) -> (t: Token)
        ensures
            t@ == self@,
    {
        Token { location: self.location, text: self.text.clone(), data: self.data }
    }
}

/// `a + b`, or `usize::MAX` where that does not fit.
pub open spec fn saturated(a: usize, b: int) -> usize {
    if a + b > usize::MAX { usize::MAX } else { (a + b) as usize }
}

/// The location of the last character of a token at `location` whose text
/// is `len` characters long (the token's own location where it is empty).
pub open spec fn spec_token_end(location: TextLocation, len: nat) -> TextLocation {
    let last: int = if len == 0 { 0 } else { len - 1 };
    TextLocation {
        index: saturated(location.index, last),
        line: location.line,
        column: saturated(location.column, last),
    }
}

impl Token {
    /// The text of the token.
    pub fn text(&self) -> (s: &str)
        ensures
            s@ == self.text@,
    {
        self.text.as_str()
    }

    /// The data of the token.
    pub fn data(&self) -> (d: TokenData)
        ensures
            d == self.data,
    {
        self.data
    }

    /// The category of the token.
    pub fn get_type(&self) -> (t: TokenType)
        ensures
            t == token_type_of(self.data),
    {
        match self.data {
            TokenData::Ident => TokenType::Ident,
            TokenData::NumberLiteral | TokenData::BoolLiteral | TokenData::UnitLiteral => TokenType::Literal,
            TokenData::Keyword => TokenType::Keyword,
            TokenData::Symbol => TokenType::Symbol,
            TokenData::EOF => TokenType::EOF,
        }
    }

    /// The span of the token's text. Positions saturate at `usize::MAX`.
    pub fn span(&self) -> (span: Span)
        ensures
            span.start() == self.location,
            span.end() == spec_token_end(self.location, self.text@.len()),
    {
        let len = self.text.as_str().unicode_len();
        let last = if len == 0 { 0 } else { len - 1 };
        let end = TextLocation {
            index: self.location.index.saturating_add(last),
            line: self.location.line,
            column: self.location.column.saturating_add(last),
        };
        Span::from_locations(self.location, end)
    }

    /// The location of the token's first character.
    pub fn location(&self) -> (loc: TextLocation)
        ensures
            loc == self.location,
    {
        self.location
    }
}

} // verus!
