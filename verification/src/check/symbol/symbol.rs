//! Symbols: what is known about each declared name.

use vstd::prelude::*;

use crate::lex::{Token, TokenView};
use crate::ast::{Identifier, TypeExpression};

use crate::check::types::types::{Type, FnType, TypeView, args_view, type_view};

verus! {

/// Data that can be attached to a symbol when it is declared, marking it as
/// a variable or item.
#[derive(Debug, PartialEq, Eq)]
pub enum Symbol {
    Item(ItemSymbol),
    Variable(VariableSymbol),
}

/// Data used for declaring an item (such as a function or static value)
#[derive(Debug, PartialEq, Eq)]
pub struct ItemSymbol {}

/// Data used for declaring a variable, such as whether it is declared mutable
#[derive(Debug, PartialEq, Eq)]
pub struct VariableSymbol {
    mutable: bool,
}

impl VariableSymbol {
    pub fn new(mutable: bool) -> (v: VariableSymbol)
        ensures
            v.spec_mutable() == mutable,
    {
        VariableSymbol { mutable }
    }

    pub fn is_mutable(&self) -> (b: bool)
        ensures
            b == self.spec_mutable(),
    {
        self.mutable
    }

    pub closed spec fn spec_mutable(&self) -> bool {
        self.mutable
    }
}

/// A variable symbol is its mutability flag and nothing more: two symbols
/// are equal exactly when their flags are, so `VariableSymbol::new(a)` and
/// `VariableSymbol::new(b)` are equal exactly when `a == b`.
pub proof fn law_variable_symbol_is_its_flag(x: VariableSymbol, y: VariableSymbol)
    ensures
        x == y <==> x.spec_mutable() == y.spec_mutable(),
{
    if x.mutable == y.mutable {
        assert(x == VariableSymbol { mutable: y.mutable });
    }
}

impl Symbol {
    pub fn is_item(&self) -> (b: bool)
        ensures
            b == self is Item,
    {
        match self {
            Symbol::Item(_) => true,
            _ => false,
        }
    }

    pub fn get_item_data(&self) -> (d: Option<&ItemSymbol>)
        ensures
            match self {
                Symbol::Item(i) => d == Some(i),
                _ => d is None,
            },
    {
        match self {
            Symbol::Item(data) => Some(data),
            _ => None,
        }
    }

    pub fn is_variable(&self) -> (b: bool)
        ensures
            b == self is Variable,
    {
        match self {
            Symbol::Variable(_) => true,
            _ => false,
        }
    }

    pub fn get_var_data(&self) -> (d: Option<&VariableSymbol>)
        ensures
            match self {
                Symbol::Variable(v) => d == Some(v),
                _ => d is None,
            },
    {
        match self {
            Symbol::Variable(data) => Some(data),
            _ => None,
        }
    }
}

/// What declared a symbol.
#[derive(Debug, Clone, Copy, PartialEq, Eq, Structural)]
pub enum SymbolSource {
    /// A `let` declaration.
    Variable,
    /// A function parameter.
    Argument,
    /// A function declaration.
    Function,
}

/// The word messages use for a symbol source.
pub open spec fn source_name(source: SymbolSource) -> Seq<char> {
    match source {
        SymbolSource::Variable => "Variable"@,
        SymbolSource::Argument => "Argument"@,
        SymbolSource::Function => "Function"@,
    }
}

impl SymbolSource {
    /// The word messages use for this source.
    pub fn get_name(&self) -> (s: &'static str)
        ensures
            s@ == source_name(*self),
    {
        match self {
            SymbolSource::Variable => "Variable",
            SymbolSource::Argument => "Argument",
            SymbolSource::Function => "Function",
        }
    }
}

/// An entry of the symbol table: the symbol, where and how it was declared,
/// its type, and whether it has been used or mutated.
#[derive(Debug, PartialEq, Eq)]
pub struct DeclaredSymbol {
    symbol: Symbol,
    source: SymbolSource,
    declaration: Token,
    ty: Type,
    used: bool,
    mutated: bool,
}

/// The mathematical value of a `DeclaredSymbol`.
pub struct SymbolView {
    pub is_item: bool,
    pub mutable: bool,
    pub source: SymbolSource,
    pub declaration: TokenView,
    pub ty: TypeView,
    pub used: bool,
    pub mutated: bool,
}

impl View for DeclaredSymbol {
    type V = SymbolView;

    closed spec fn view(&self) -> SymbolView {
        SymbolView {
            is_item: self.symbol is Item,
            mutable: match self.symbol {
                Symbol::Variable(v) => v.mutable,
                Symbol::Item(_) => false,
            },
            source: self.source,
            declaration: self.declaration@,
            ty: type_view(self.ty),
            used: self.used,
            mutated: self.mutated,
        }
    }
}

/// The symbol of a `let` declaration of the variable at `declaration`.
pub open spec fn variable_symbol(declaration: TokenView, mutable: bool) -> SymbolView {
    SymbolView {
        is_item: false,
        mutable,
        source: SymbolSource::Variable,
        declaration,
        ty: TypeView::Float,
        used: false,
        mutated: false,
    }
}

/// The symbol of the function parameter at `declaration`.
pub open spec fn parameter_symbol(declaration: TokenView) -> SymbolView {
    SymbolView {
        is_item: false,
        mutable: false,
        source: SymbolSource::Argument,
        declaration,
        ty: TypeView::Float,
        used: false,
        mutated: false,
    }
}

/// The argument list of a function whose parameters are `params`: every
/// parameter, by name, as a number.
pub open spec fn params_args_view(params: Seq<(Identifier, TypeExpression)>) -> Seq<(Seq<char>, TypeView)>
    decreases params.len(),
{
    if params.len() == 0 {
        Seq::empty()
    } else {
        params_args_view(params.drop_last()).push((params.last().0.token.text@, TypeView::Float))
    }
}

/// The symbol of the function declared at `declaration` with `params`.
pub open spec fn function_symbol(declaration: TokenView, params: Seq<(Identifier, TypeExpression)>) -> SymbolView {
    SymbolView {
        is_item: true,
        mutable: false,
        source: SymbolSource::Function,
        declaration,
        ty: TypeView::Fn(Box::new(TypeView::Float), params_args_view(params)),
        used: false,
        mutated: false,
    }
}

impl DeclaredSymbol {
    /// The symbol of a variable declared at `token`.
    pub fn from_declaration(token: &Token, mutable: bool) -> (s: DeclaredSymbol)
        ensures
            s@ == variable_symbol(token@, mutable),
    {
        DeclaredSymbol {
            symbol: Symbol::Variable(VariableSymbol::new(mutable)),
            source: SymbolSource::Variable,
            declaration: token.clone(),
            ty: Type::Float,
            used: false,
            mutated: false,
        }
    }

    /// The symbol of a function parameter declared at `token`.
    pub fn from_parameter(token: &Token) -> (s: DeclaredSymbol)
        ensures
            s@ == parameter_symbol(token@),
    {
        DeclaredSymbol {
            symbol: Symbol::Variable(VariableSymbol::new(false)),
            source: SymbolSource::Argument,
            declaration: token.clone(),
            ty: Type::Float,
            used: false,
            mutated: false,
        }
    }

    /// The symbol of a function declared at `token` with `params`; every
    /// parameter is a number.
    pub fn from_fn_decl(token: &Token, params: &[(Identifier, TypeExpression)]) -> (s: DeclaredSymbol)
        ensures
            s@ == function_symbol(token@, params@),
    {
        let mut args: Vec<(String, Type)> = Vec::new();
        let n = params.len();
        let mut i: usize = 0;
        while i < n
            invariant
                n == params@.len(),
                i <= n,
                args_view(args@) == params_args_view(params@.take(i as int)),
            decreases n - i,
        {
            let name = params[i].0.token.text.clone();
            let ghost before = args@;
            args.push((name, Type::Float));
            assert(args@.drop_last() =~= before);
            assert(type_view(Type::Float) == TypeView::Float);
            assert(args@.last() == (name, Type::Float));
            assert(args@.len() > 0);
            assert(args_view(args@) == args_view(before).push((params@[i as int].0.token.text@, TypeView::Float)));
            assert(params@.take(i + 1).drop_last() =~= params@.take(i as int));
            i += 1;
        }
        assert(params@.take(n as int) =~= params@);
        let ghost av = args@;
        assert(args_view(av) == params_args_view(params@));
        assert(type_view(Type::Float) == TypeView::Float);
        let ty = Type::Fn(FnType::new(Box::new(Type::Float), args));
        assert(type_view(ty) == TypeView::Fn(Box::new(TypeView::Float), params_args_view(params@)));
        DeclaredSymbol {
            symbol: Symbol::Item(ItemSymbol {}),
            source: SymbolSource::Function,
            declaration: token.clone(),
            ty,
            used: false,
            mutated: false,
        }
    }

    pub fn get_symbol(&self) -> (s: &Symbol)
        ensures
            s is Item == self@.is_item,
            s matches Symbol::Variable(v) ==> v.spec_mutable() == self@.mutable,
    {
        &self.symbol
    }

    pub fn is_mutable(&self) -> (b: bool)
        ensures
            b == self@.mutable,
    {
        match &self.symbol {
            Symbol::Variable(v) => v.is_mutable(),
            Symbol::Item(_) => false,
        }
    }

    pub fn is_used(&self) -> (b: bool)
        ensures
            b == self@.used,
    {
        self.used
    }

    pub fn is_mutated(&self) -> (b: bool)
        ensures
            b == self@.mutated,
    {
        self.mutated
    }

    pub fn get_source(&self) -> (s: SymbolSource)
        ensures
            s == self@.source,
    {
        self.source
    }

    pub fn get_declaration(&self) -> (t: &Token)
        ensures
            t@ == self@.declaration,
    {
        &self.declaration
    }

    pub fn get_type(&self) -> (t: &Type)
        ensures
            type_view(*t) == self@.ty,
    {
        &self.ty
    }

    pub fn set_used(&mut self)
        ensures
            final(self)@ == (SymbolView { used: true, ..old(self)@ }),
    {
        self.used = true;
    }

    pub fn set_mutated(&mut self)
        ensures
            final(self)@ == (SymbolView { mutated: true, ..old(self)@ }),
    {
        self.mutated = true;
    }
}

} // verus!
