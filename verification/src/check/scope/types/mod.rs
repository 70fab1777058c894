//! Naming the types written in a program.
//!
//! Every named type expression is given the `ScopedId` of its name in a
//! scope of type names; a name that the scope does not know is reported as
//! an unknown type. For now the only type names are the built-in ones of
//! `default_type_scope`.

pub mod item_namer;
pub mod expr_namer;

pub use self::item_namer::ItemTypeIdentifier;
pub use self::expr_namer::ExpressionTypeIdentifier;

use vstd::prelude::*;

use crate::ast::{Identifier, ScopedId, TypeExpression};
use crate::check::collector::{CollectorView, ErrorCollector};
use crate::check::errors::{error_view, tokens_view, CheckerError, ErrorView};
use crate::check::assoc::lemma_find_key_none;
use crate::check::scope::scope::spec_incremented;
use crate::check::symbol::table_builder::{scopes_lookup, ScopeView, SymbolTableBuilder};

verus! {

/// A stack of scopes of type names.
pub type NameScopeBuilder = SymbolTableBuilder;

/// `Unknown type {name}`
pub open spec fn msg_unknown_type(name: Seq<char>) -> Seq<char> {
    "Unknown type "@ + name
}

/// The collector with the errors `es` added, in order.
pub open spec fn with_errors(c: CollectorView, es: Seq<ErrorView>) -> CollectorView {
    CollectorView { errors: c.errors + es, ..c }
}

/// The error for a type name that `types` does not know, if it does not.
pub open spec fn unknown_type_errors(types: Seq<ScopeView<Seq<usize>>>, ident: Identifier) -> Seq<ErrorView> {
    if scopes_lookup(types, ident.token.text@) is Some {
        Seq::empty()
    } else {
        seq![error_view(ident.token@, Seq::empty(), msg_unknown_type(ident.token.text@))]
    }
}

/// `new` is the type name `old`, given its id when `types` knows it.
pub open spec fn ident_typed(types: Seq<ScopeView<Seq<usize>>>, old: Identifier, new: Identifier) -> bool {
    &&& new.token == old.token
    &&& match scopes_lookup(types, old.token.text@) {
        Some(id) => new.id@ == id,
        None => new.id == old.id,
    }
}

/// The errors for the unknown type names in `t`, parameters before the
/// return type.
pub open spec fn type_expr_errors(types: Seq<ScopeView<Seq<usize>>>, t: TypeExpression) -> Seq<ErrorView>
    decreases t,
{
    match t {
        TypeExpression::Primitive(_) => Seq::empty(),
        TypeExpression::Named(n) => unknown_type_errors(types, n.ident),
        TypeExpression::Function(f) => type_list_errors(types, f.params@) + match f.return_type {
            Some(r) => type_expr_errors(types, *r),
            None => Seq::empty(),
        },
    }
}

/// The errors for the unknown type names in a list of parameters.
pub open spec fn type_list_errors(types: Seq<ScopeView<Seq<usize>>>, ps: Seq<(Identifier, TypeExpression)>) -> Seq<ErrorView>
    decreases ps,
{
    if ps.len() == 0 {
        Seq::empty()
    } else {
        type_list_errors(types, ps.drop_last()) + type_expr_errors(types, ps.last().1)
    }
}

/// `new` is the type expression `old` with each known type name given its
/// id, and nothing else changed.
pub open spec fn type_expr_named(types: Seq<ScopeView<Seq<usize>>>, old: TypeExpression, new: TypeExpression) -> bool
    decreases old,
{
    match old {
        TypeExpression::Primitive(_) => new == old,
        TypeExpression::Named(n) => new matches TypeExpression::Named(m) && ident_typed(
            types,
            n.ident,
            m.ident,
        ),
        TypeExpression::Function(f) => new matches TypeExpression::Function(g) && g.id == f.id
            && type_list_named(types, f.params@, g.params@) && match f.return_type {
            Some(r) => g.return_type matches Some(s) && type_expr_named(types, *r, *s),
            None => g.return_type is None,
        },
    }
}

/// `new` is the parameter list `old` with the known type names in their
/// types given their ids, and nothing else changed.
pub open spec fn type_list_named(
    types: Seq<ScopeView<Seq<usize>>>,
    old: Seq<(Identifier, TypeExpression)>,
    new: Seq<(Identifier, TypeExpression)>,
) -> bool
    decreases old,
{
    &&& new.len() == old.len()
    &&& old.len() > 0 ==> {
        &&& new.last().0 == old.last().0
        &&& type_expr_named(types, old.last().1, new.last().1)
        &&& type_list_named(types, old.drop_last(), new.drop_last())
    }
}

/// The built-in type names: `int`, `float` and `bool`, with the ids `[1]`,
/// `[2]` and `[3]`.
pub open spec fn default_type_names() -> ScopeView<Seq<usize>> {
    seq![("int"@, seq![1usize]), ("float"@, seq![2usize]), ("bool"@, seq![3usize])]
}

/// The scope of type names that programs start with: the built-in types,
/// numbered from one in a single scope.
pub fn default_type_scope() -> (builder: NameScopeBuilder)
    ensures
        builder@ == seq![default_type_names()],
{
    proof {
        reveal_strlit("int");
        reveal_strlit("float");
        reveal_strlit("bool");
        assert("int"@.len() == 3);
        assert("float"@.len() == 5);
        assert("bool"@.len() == 4);
    }
    let mut id = ScopedId::default();
    let mut builder = SymbolTableBuilder::new();
    let ghost empty = Seq::<(Seq<char>, Seq<usize>)>::empty();
    id.increment();
    proof {
        lemma_find_key_none(empty, "int"@);
    }
    builder.define_local("int".to_owned(), id.clone());
    let ghost one = seq![("int"@, seq![1usize])];
    assert(id@ =~= seq![1usize]);
    assert(builder@[0] =~= one);
    id.increment();
    proof {
        lemma_find_key_none(one, "float"@);
    }
    builder.define_local("float".to_owned(), id.clone());
    let ghost two = seq![("int"@, seq![1usize]), ("float"@, seq![2usize])];
    assert(id@ =~= seq![2usize]);
    assert(builder@[0] =~= two);
    id.increment();
    proof {
        lemma_find_key_none(two, "bool"@);
    }
    assert(id@ =~= seq![3usize]) by {
        assert(id@ == spec_incremented(seq![2usize]));
    };
    builder.define_local("bool".to_owned(), id.clone());
    assert(builder@[0] =~= default_type_names());
    assert(builder@ =~= seq![default_type_names()]);
    builder
}

/// Gives a type name its id from `types`, or reports it unknown.
pub fn name_type_ident(types: &NameScopeBuilder, errors: &mut ErrorCollector, ident: &mut Identifier)
    requires
        types@.len() > 0,
    ensures
        ident_typed(types@, *old(ident), *final(ident)),
        final(errors)@ == with_errors(old(errors)@, unknown_type_errors(types@, *old(ident))),
{
    match types.get(ident.name()) {
        Some(id) => {
            ident.id = id.clone();
            assert(errors@ =~= with_errors(old(errors)@, Seq::empty()));
        },
        None => {
            let text = concat_unknown(ident.name());
            let refs: Vec<crate::lex::Token> = Vec::new();
            let err = CheckerError::new(ident.token.clone(), refs, text);
            assert(tokens_view(refs@) =~= Seq::empty());
            assert(err@ == error_view(ident.token@, Seq::empty(), msg_unknown_type(ident.token.text@)));
            errors.add_error(err);
            assert(errors@.errors =~= old(errors)@.errors + unknown_type_errors(types@, *old(ident)));
        },
    }
}

/// The text `Unknown type {name}`.
fn concat_unknown(name: &str) -> (s: String)
    ensures
        s@ == msg_unknown_type(name@),
{
    let mut s = "Unknown type ".to_string();
    s.append(name);
    proof {
        reveal_strlit("Unknown type ");
    }
    s
}

/// Names the types in a type expression: parameter types, then the return
/// type.
pub fn name_type_expr(types: &NameScopeBuilder, errors: &mut ErrorCollector, t: &mut TypeExpression)
    requires
        types@.len() > 0,
    ensures
        type_expr_named(types@, *old(t), *final(t)),
        final(errors)@ == with_errors(old(errors)@, type_expr_errors(types@, *old(t))),
    decreases *old(t), 1nat,
{
    match t {
        TypeExpression::Primitive(_) => {
            assert(final(errors)@ =~= with_errors(old(errors)@, Seq::empty()));
        },
        TypeExpression::Named(n) => {
            name_type_ident(types, errors, &mut n.ident);
        },
        TypeExpression::Function(f) => {
            let ghost e0 = errors@;
            let ghost f0 = *f;
            assert(decreases_to!(*old(t) => f0.params@)) by {
                assert(decreases_to!(*old(t) => f0));
                assert(decreases_to!(f0 => f0.params));
            };
            name_type_list(types, errors, &mut f.params);
            let ghost e1 = errors@;
            match &mut f.return_type {
                Some(r) => {
                    assert(decreases_to!(*old(t) => *f0.return_type.unwrap())) by {
                        assert(decreases_to!(*old(t) => f0));
                        assert(decreases_to!(f0 => f0.return_type));
                    };
                    name_type_expr(types, errors, &mut **r);
                },
                None => {
                    assert(errors@ =~= with_errors(errors@, Seq::empty()));
                },
            }
            assert(errors@.errors =~= e0.errors + type_expr_errors(types@, TypeExpression::Function(f0)));
        },
    }
}

/// Names the types of a parameter list, in order.
pub fn name_type_list(types: &NameScopeBuilder, errors: &mut ErrorCollector, params: &mut Vec<(Identifier, TypeExpression)>)
    requires
        types@.len() > 0,
    ensures
        type_list_named(types@, old(params)@, final(params)@),
        final(errors)@ == with_errors(old(errors)@, type_list_errors(types@, old(params)@)),
    decreases old(params)@, 2nat,
{
    let ghost ps0 = params@;
    let ghost e0 = errors@;
    let n = params.len();
    let mut k: usize = 0;
    assert(type_list_named(types@, ps0.take(0), params@.take(0)));
    assert(errors@ =~= with_errors(e0, type_list_errors(types@, ps0.take(0))));
    while k < n
        invariant
            n == params@.len(),
            n == ps0.len(),
            ps0 == old(params)@,
            types@.len() > 0,
            k <= n,
            forall|j: int| k <= j < n ==> params@[j] == ps0[j],
            type_list_named(types@, ps0.take(k as int), params@.take(k as int)),
            errors@ == with_errors(e0, type_list_errors(types@, ps0.take(k as int))),
        decreases n - k,
    {
        let ghost before = params@;
        let ghost eb = errors@;
        assert(decreases_to!(ps0 => ps0[k as int].1)) by {
            assert(decreases_to!(ps0 => ps0[k as int]));
        };
        name_type_expr(types, errors, &mut params[k].1);
        assert(ps0.take(k + 1).drop_last() =~= ps0.take(k as int));
        assert(params@.take(k + 1).drop_last() =~= before.take(k as int));
        assert(params@.take(k as int) =~= before.take(k as int));
        assert(errors@.errors =~= e0.errors + type_list_errors(types@, ps0.take(k + 1)));
        k += 1;
    }
    assert(ps0.take(n as int) =~= ps0);
    assert(params@.take(n as int) =~= params@);
}

} // verus!
