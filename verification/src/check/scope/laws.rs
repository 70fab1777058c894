//! What scope indices and stacks of name scopes promise across calls.

use vstd::prelude::*;

use crate::check::assoc::{assoc_get, lemma_assoc_set};
use crate::check::scope::scope::{spec_decremented, spec_incremented};
use crate::check::symbol::table_builder::{define_innermost, scopes_lookup, ScopeView};

verus! {

/// Decrementing an index undoes incrementing it.
pub proof fn law_increment_then_decrement(idx: Seq<usize>)
    requires
        idx.len() > 0,
        idx.last() < usize::MAX,
    ensures
        spec_decremented(spec_incremented(idx)) == idx,
{
    assert(spec_decremented(spec_incremented(idx)) =~= idx);
}

/// Incrementing an index undoes decrementing it.
pub proof fn law_decrement_then_increment(idx: Seq<usize>)
    requires
        idx.len() > 0,
        idx.last() > 0,
    ensures
        spec_incremented(spec_decremented(idx)) == idx,
{
    assert(spec_incremented(spec_decremented(idx)) =~= idx);
}

/// Leaving a scope undoes entering it: popping an index undoes pushing.
pub proof fn law_push_then_pop(idx: Seq<usize>)
    ensures
        idx.push(0).drop_last() == idx,
{
    assert(idx.push(0).drop_last() =~= idx);
}

/// A name defined in the innermost scope is found with the value it was
/// given, both in that scope and by a lookup through all scopes.
pub proof fn law_define_then_get<V>(scopes: Seq<ScopeView<V>>, name: Seq<char>, v: V)
    requires
        scopes.len() > 0,
    ensures
        assoc_get(define_innermost(scopes, name, v).last(), name) == Some(v),
        scopes_lookup(define_innermost(scopes, name, v), name) == Some(v),
{
    lemma_assoc_set(scopes.last(), name, v);
}

/// Defining a name leaves what every other name is found as.
pub proof fn law_define_keeps_other_names<V>(scopes: Seq<ScopeView<V>>, name: Seq<char>, v: V, other: Seq<char>)
    requires
        scopes.len() > 0,
        other != name,
    ensures
        scopes_lookup(define_innermost(scopes, name, v), other) == scopes_lookup(scopes, other),
{
    lemma_assoc_set(scopes.last(), name, v);
    assert(define_innermost(scopes, name, v).drop_last() =~= scopes.drop_last());
}

/// Entering a new scope finds every name as before.
pub proof fn law_new_scope_keeps_lookups<V>(scopes: Seq<ScopeView<V>>, name: Seq<char>)
    ensures
        scopes_lookup(scopes.push(Seq::empty()), name) == scopes_lookup(scopes, name),
{
    assert(scopes.push(Seq::empty()).drop_last() =~= scopes);
}

/// What is defined in a scope is forgotten when the scope is left: after
/// entering a scope, defining a name there and leaving it, every name is
/// found as before.
pub proof fn law_inner_definitions_end_with_their_scope<V>(
    scopes: Seq<ScopeView<V>>,
    name: Seq<char>,
    v: V,
    other: Seq<char>,
)
    ensures
        scopes_lookup(define_innermost(scopes.push(Seq::empty()), name, v).drop_last(), other)
            == scopes_lookup(scopes, other),
{
    assert(define_innermost(scopes.push(Seq::empty()), name, v).drop_last() =~= scopes);
}

/// A name defined in an inner scope hides the same name of outer scopes.
pub proof fn law_inner_definition_shadows<V>(scopes: Seq<ScopeView<V>>, name: Seq<char>, outer: V, inner: V)
    requires
        scopes.len() > 0,
    ensures
        scopes_lookup(
            define_innermost(define_innermost(scopes, name, outer).push(Seq::empty()), name, inner),
            name,
        ) == Some(inner),
{
    law_define_then_get(define_innermost(scopes, name, outer).push(Seq::empty()), name, inner);
}

} // verus!
