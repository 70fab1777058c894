//! The stack of lexical scopes used while building the symbol table.
//!
//! Because of block indentation rules, symbols declared in different blocks
//! must not collide:
//! ```text
//! let x = 0
//! do
//!     let y = 0
//!     let x = 0
//! let y = 0
//! do
//!     let z = 1
//!     let y = 0
//! ```
//! Instead of a tree of scopes, each symbol is stored under a `ScopedId`,
//! a list of indices into the scope tree, and while the table is built only
//! a stack of name-to-id maps is kept, innermost scope last.

use vstd::prelude::*;

use crate::ast::ScopedId;
use crate::check::assoc::{assoc_get, assoc_set, lemma_find_key_is, lemma_find_key_none};

verus! {

/// One scope: names in the order they were first defined, with their values.
pub type ScopeView<V> = Seq<(Seq<char>, V)>;

/// The value of `name` in the innermost of `scopes` that defines it.
pub open spec fn scopes_lookup<V>(scopes: Seq<ScopeView<V>>, name: Seq<char>) -> Option<V>
    decreases scopes.len(),
{
    if scopes.len() == 0 {
        None
    } else {
        match assoc_get(scopes.last(), name) {
            Some(v) => Some(v),
            None => scopes_lookup(scopes.drop_last(), name),
        }
    }
}

/// The stack with `name` defined as `v` in the innermost scope.
pub open spec fn define_innermost<V>(scopes: Seq<ScopeView<V>>, name: Seq<char>, v: V) -> Seq<ScopeView<V>>
    recommends
        scopes.len() > 0,
{
    scopes.update(scopes.len() - 1, assoc_set(scopes.last(), name, v))
}

/// The stack with `name` defined as `v` in the outermost scope.
pub open spec fn define_outermost<V>(scopes: Seq<ScopeView<V>>, name: Seq<char>, v: V) -> Seq<ScopeView<V>>
    recommends
        scopes.len() > 0,
{
    scopes.update(0, assoc_set(scopes[0], name, v))
}

/// Looking `name` up in the first `i + 1` scopes: the `i`th scope's value,
/// or else a lookup in the first `i`.
pub proof fn lemma_lookup_take<V>(scopes: Seq<ScopeView<V>>, name: Seq<char>, i: int)
    requires
        0 <= i < scopes.len(),
    ensures
        scopes_lookup(scopes.take(i + 1), name) == match assoc_get(scopes[i], name) {
            Some(v) => Some(v),
            None => scopes_lookup(scopes.take(i), name),
        },
{
    assert(scopes.take(i + 1).drop_last() =~= scopes.take(i));
}

/// Generic search of one scope for `name`, comparing with `key`.
fn find_in_scope<V>(scope: &Vec<(String, V)>, key: &String) -> (r: Option<usize>)
    ensures
        match r {
            Some(j) => j < scope@.len() && scope@[j as int].0@ == key@ && forall|m: int|
                0 <= m < j ==> scope@[m].0@ != key@,
            None => forall|m: int| 0 <= m < scope@.len() ==> scope@[m].0@ != key@,
        },
{
    let n = scope.len();
    let mut j: usize = 0;
    while j < n
        invariant
            n == scope@.len(),
            j <= n,
            forall|m: int| 0 <= m < j ==> scope@[m].0@ != key@,
        decreases n - j,
    {
        if scope[j].0 == *key {
            return Some(j);
        }
        j += 1;
    }
    None
}

/// Structure used by the `SymbolChecker` to build the symbol table: a stack
/// of scopes mapping names to `ScopedId`s.
#[derive(Debug, PartialEq, Eq)]
pub struct SymbolTableBuilder {
    scopes: Vec<Vec<(String, ScopedId)>>,
}

/// The view of one scope of `ScopedId`s.
pub open spec fn id_scope_view(scope: Seq<(String, ScopedId)>) -> ScopeView<Seq<usize>> {
    scope.map_values(|e: (String, ScopedId)| (e.0@, e.1@))
}

impl View for SymbolTableBuilder {
    type V = Seq<ScopeView<Seq<usize>>>;

    closed spec fn view(&self) -> Seq<ScopeView<Seq<usize>>> {
        self.scopes@.map_values(|s: Vec<(String, ScopedId)>| id_scope_view(s@))
    }
}

impl SymbolTableBuilder {
    /// A builder with one (global) scope.
    pub fn new() -> (b: SymbolTableBuilder)
        ensures
            b@ == seq![Seq::<(Seq<char>, Seq<usize>)>::empty()],
    {
        let mut scopes: Vec<Vec<(String, ScopedId)>> = Vec::new();
        scopes.push(Vec::new());
        let b = SymbolTableBuilder { scopes };
        assert(b@ =~= seq![Seq::<(Seq<char>, Seq<usize>)>::empty()]) by {
            assert(b@[0] =~= Seq::<(Seq<char>, Seq<usize>)>::empty());
        };
        b
    }

    /// The number of scopes.
    pub fn depth(&self) -> (n: usize)
        ensures
            n == self@.len(),
    {
        self.scopes.len()
    }

    /// Create a new, innermost scope.
    pub fn new_scope(&mut self)
        ensures
            final(self)@ == old(self)@.push(Seq::empty()),
    {
        self.scopes.push(Vec::new());
        assert(self@ =~= old(self)@.push(Seq::empty())) by {
            assert(self@.last() =~= Seq::<(Seq<char>, Seq<usize>)>::empty());
        };
    }

    /// Pop the innermost scope from the stack, if there is one.
    pub fn pop(&mut self) -> (r: Option<Vec<(String, ScopedId)>>)
        ensures
            old(self)@.len() == 0 ==> final(self)@ == old(self)@ && r is None,
            old(self)@.len() > 0 ==> final(self)@ == old(self)@.drop_last() && r is Some && id_scope_view(
                r->0@,
            ) == old(self)@.last(),
    {
        let r = self.scopes.pop();
        assert(self@ =~= (if old(self)@.len() > 0 { old(self)@.drop_last() } else { old(self)@ }));
        r
    }

    /// Defines `name` as `value` in the innermost scope.
    pub fn define_local(&mut self, name: String, value: ScopedId)
        requires
            old(self)@.len() > 0,
        ensures
            final(self)@ == define_innermost(old(self)@, name@, value@),
    {
        let last_ix = self.scopes.len() - 1;
        self.define_in(last_ix, name, value);
    }

    /// Defines `name` as `value` in the global (outermost) scope.
    pub fn define_global(&mut self, name: String, value: ScopedId)
        requires
            old(self)@.len() > 0,
        ensures
            final(self)@ == define_outermost(old(self)@, name@, value@),
    {
        self.define_in(0, name, value);
    }

    fn define_in(&mut self, ix: usize, name: String, value: ScopedId)
        requires
            ix < old(self)@.len(),
        ensures
            final(self)@ == old(self)@.update(ix as int, assoc_set(old(self)@[ix as int], name@, value@)),
    {
        let ghost k = name@;
        let ghost v = value@;
        let ghost before = self.scopes@[ix as int];
        let found = find_in_scope(&self.scopes[ix], &name);
        match found {
            Some(j) => {
                proof { lemma_find_key_is(id_scope_view(before@), k, j as int); }
                self.scopes[ix].set(j, (name, value));
                assert(id_scope_view(self.scopes@[ix as int]@) =~= id_scope_view(before@).update(j as int, (k, v)));
            },
            None => {
                proof { lemma_find_key_none(id_scope_view(before@), k); }
                self.scopes[ix].push((name, value));
                assert(id_scope_view(self.scopes@[ix as int]@) =~= id_scope_view(before@).push((k, v)));
            },
        }
        assert(self@ =~= old(self)@.update(ix as int, assoc_set(old(self)@[ix as int], k, v)));
    }

    /// The `ScopedId` of `name` in scope `ix`.
    fn get_from(&self, ix: usize, key: &String) -> (r: Option<&ScopedId>)
        requires
            ix < self@.len(),
        ensures
            match r {
                Some(id) => assoc_get(self@[ix as int], key@) == Some(id@),
                None => assoc_get(self@[ix as int], key@) is None,
            },
    {
        let ghost sv = self@[ix as int];
        assert(sv == id_scope_view(self.scopes@[ix as int]@));
        match find_in_scope(&self.scopes[ix], key) {
            Some(j) => {
                proof { lemma_find_key_is(sv, key@, j as int); }
                Some(&self.scopes[ix][j].1)
            },
            None => {
                proof { lemma_find_key_none(sv, key@); }
                None
            },
        }
    }

    /// Get a variable from the innermost scope that defines it.
    pub fn get(&self, name: &str) -> (r: Option<&ScopedId>)
        requires
            self@.len() > 0,
        ensures
            match r {
                Some(id) => scopes_lookup(self@, name@) == Some(id@),
                None => scopes_lookup(self@, name@) is None,
            },
    {
        assert(self@.take(self@.len() as int) =~= self@);
        self.get_in_scope(name, self.scopes.len())
    }

    /// Get a variable defined in the innermost scope.
    pub fn get_local(&self, name: &str) -> (r: Option<&ScopedId>)
        requires
            self@.len() > 0,
        ensures
            match r {
                Some(id) => assoc_get(self@.last(), name@) == Some(id@),
                None => assoc_get(self@.last(), name@) is None,
            },
    {
        let key = name.to_owned();
        self.get_from(self.scopes.len() - 1, &key)
    }

    /// Get a variable defined in the global scope.
    pub fn get_global(&self, name: &str) -> (r: Option<&ScopedId>)
        requires
            self@.len() > 0,
        ensures
            match r {
                Some(id) => assoc_get(self@[0], name@) == Some(id@),
                None => assoc_get(self@[0], name@) is None,
            },
    {
        let key = name.to_owned();
        self.get_from(0, &key)
    }

    /// Get a variable from the innermost of the first `scope_level` scopes
    /// that defines it.
    pub fn get_in_scope(&self, name: &str, scope_level: usize) -> (r: Option<&ScopedId>)
        requires
            scope_level <= self@.len(),
        ensures
            match r {
                Some(id) => scopes_lookup(self@.take(scope_level as int), name@) == Some(id@),
                None => scopes_lookup(self@.take(scope_level as int), name@) is None,
            },
    {
        let key = name.to_owned();
        let mut i: usize = scope_level;
        while i > 0
            invariant
                i <= scope_level <= self@.len(),
                key@ == name@,
                scopes_lookup(self@.take(scope_level as int), name@) == scopes_lookup(self@.take(i as int), name@),
            decreases i,
        {
            proof { lemma_lookup_take(self@, name@, i - 1); }
            if let Some(id) = self.get_from(i - 1, &key) {
                return Some(id);
            }
            i -= 1;
        }
        None
    }
}

impl Default for SymbolTableBuilder {
    /// A builder with one (global) scope.
    fn default() -> (b: SymbolTableBuilder)
        ensures
            b@ == seq![Seq::<(Seq<char>, Seq<usize>)>::empty()],
    {
        SymbolTableBuilder::new()
    }
}

} // verus!
