//! A stack of lexical scopes mapping names to values, used while
//! compiling nested blocks.

use vstd::prelude::*;

use crate::check::assoc::{assoc_get, assoc_set, find_key, lemma_assoc_set, lemma_find_key_is, lemma_find_key_none};
use crate::check::symbol::table_builder::ScopeView;

verus! {

/// The value of `name` in the first scope at or after `i` that defines it,
/// with that scope's position.
pub open spec fn lookup_outermost_from<T>(scopes: Seq<ScopeView<T>>, name: Seq<char>, i: int) -> Option<(T, int)>
    decreases scopes.len() - i,
{
    if i < 0 || i >= scopes.len() {
        None
    } else {
        match assoc_get(scopes[i], name) {
            Some(v) => Some((v, i)),
            None => lookup_outermost_from(scopes, name, i + 1),
        }
    }
}

/// The value of `name` in the outermost scope that defines it, with that
/// scope's position.
pub open spec fn lookup_outermost<T>(scopes: Seq<ScopeView<T>>, name: Seq<char>) -> Option<(T, int)> {
    lookup_outermost_from(scopes, name, 0)
}

/// A stack of scopes, outermost first, each mapping names to values.
#[derive(Debug, PartialEq)]
pub struct LexicalScopeManager<T> {
    scopes: Vec<Vec<(String, T)>>,
}

/// The view of one scope.
pub open spec fn value_scope_view<T>(scope: Seq<(String, T)>) -> ScopeView<T> {
    scope.map_values(|e: (String, T)| (e.0@, e.1))
}

impl<T> View for LexicalScopeManager<T> {
    type V = Seq<ScopeView<T>>;

    closed spec fn view(&self) -> Seq<ScopeView<T>> {
        self.scopes@.map_values(|s: Vec<(String, T)>| value_scope_view(s@))
    }
}

impl<T> LexicalScopeManager<T> {
    /// Create a new empty lexical scope manager, with no scopes.
    pub fn new() -> (m: LexicalScopeManager<T>)
        ensures
            m@ == Seq::<ScopeView<T>>::empty(),
    {
        let m = LexicalScopeManager { scopes: Vec::new() };
        assert(m@ =~= Seq::<ScopeView<T>>::empty());
        m
    }

    /// The number of scopes.
    pub fn depth(&self) -> (n: usize)
        ensures
            n == self@.len(),
    {
        self.scopes.len()
    }

    /// Create a new, innermost scope.
    pub fn new_scope(&mut self)
        ensures
            final(self)@ == old(self)@.push(Seq::empty()),
    {
        self.scopes.push(Vec::new());
        assert(self@ =~= old(self)@.push(Seq::empty())) by {
            assert(self@.last() =~= Seq::<(Seq<char>, T)>::empty());
        };
    }

    /// Pop the innermost scope from the stack, if there is one.
    pub fn pop(&mut self) -> (r: Option<Vec<(String, T)>>)
        ensures
            old(self)@.len() == 0 ==> final(self)@ == old(self)@ && r is None,
            old(self)@.len() > 0 ==> final(self)@ == old(self)@.drop_last() && r is Some && value_scope_view(
                r->0@,
            ) == old(self)@.last(),
    {
        let r = self.scopes.pop();
        assert(self@ =~= (if old(self)@.len() > 0 { old(self)@.drop_last() } else { old(self)@ }));
        r
    }

    /// The position in scope `ix` of the first entry named `key`.
    fn position(&self, ix: usize, key: &String) -> (r: Option<usize>)
        requires
            ix < self@.len(),
        ensures
            match r {
                Some(j) => j < self.scopes@[ix as int]@.len() && find_key(self@[ix as int], key@) == Some(
                    j as int,
                ),
                None => find_key(self@[ix as int], key@) is None,
            },
            self@[ix as int] == value_scope_view(self.scopes@[ix as int]@),
    {
        let ghost sv = self@[ix as int];
        assert(sv == value_scope_view(self.scopes@[ix as int]@));
        let scope = &self.scopes[ix];
        let n = scope.len();
        let mut j: usize = 0;
        while j < n
            invariant
                n == scope@.len(),
                sv == value_scope_view(scope@),
                ix < self@.len(),
                sv == self@[ix as int],
                scope@ == self.scopes@[ix as int]@,
                j <= n,
                forall|m: int| 0 <= m < j ==> sv[m].0 != key@,
            decreases n - j,
        {
            if scope[j].0 == *key {
                proof { lemma_find_key_is(sv, key@, j as int); }
                return Some(j);
            }
            j += 1;
        }
        proof { lemma_find_key_none(sv, key@); }
        None
    }

    /// Define a new variable in the innermost scope.
    pub fn define_local(&mut self, name: String, value: T)
        requires
            old(self)@.len() > 0,
        ensures
            final(self)@ == old(self)@.update(old(self)@.len() - 1, assoc_set(old(self)@.last(), name@, value)),
    {
        let last_ix = self.scopes.len() - 1;
        let ghost k = name@;
        let ghost before = self.scopes@[last_ix as int];
        match self.position(last_ix, &name) {
            Some(j) => {
                self.scopes[last_ix].set(j, (name, value));
                assert(value_scope_view(self.scopes@[last_ix as int]@) =~= value_scope_view(before@).update(
                    j as int,
                    (k, value),
                ));
            },
            None => {
                self.scopes[last_ix].push((name, value));
                assert(value_scope_view(self.scopes@[last_ix as int]@) =~= value_scope_view(before@).push((k, value)));
            },
        }
        assert(self@ =~= old(self)@.update(old(self)@.len() - 1, assoc_set(old(self)@.last(), k, value)));
    }

    /// Get a variable from the outermost scope that defines it, with the
    /// position of that scope.
    pub fn get(&self, name: &str) -> (r: Option<(&T, usize)>)
        requires
            self@.len() > 0,
        ensures
            match r {
                Some((v, ix)) => lookup_outermost(self@, name@) == Some((*v, ix as int)),
                None => lookup_outermost(self@, name@) is None,
            },
    {
        let key = name.to_owned();
        let n = self.scopes.len();
        let mut ix: usize = 0;
        while ix < n
            invariant
                n == self@.len(),
                ix <= n,
                key@ == name@,
                lookup_outermost(self@, name@) == lookup_outermost_from(self@, name@, ix as int),
            decreases n - ix,
        {
            if let Some(j) = self.position(ix, &key) {
                return Some((&self.scopes[ix][j].1, ix));
            }
            ix += 1;
        }
        None
    }

    /// Get a variable defined in the innermost scope.
    pub fn get_local(&self, name: &str) -> (r: Option<&T>)
        requires
            self@.len() > 0,
        ensures
            match r {
                Some(v) => assoc_get(self@.last(), name@) == Some(*v),
                None => assoc_get(self@.last(), name@) is None,
            },
    {
        let key = name.to_owned();
        let last = self.scopes.len() - 1;
        match self.position(last, &key) {
            Some(j) => Some(&self.scopes[last][j].1),
            None => None,
        }
    }
}

impl<T> Default for LexicalScopeManager<T> {
    /// A manager with no scopes.
    fn default() -> (m: LexicalScopeManager<T>)
        ensures
            m@ == Seq::<ScopeView<T>>::empty(),
    {
        LexicalScopeManager::new()
    }
}

/// The scopes with `name` defined as `v` in the innermost one, as
/// `define_local` leaves them.
pub open spec fn defined_locally<T>(scopes: Seq<ScopeView<T>>, name: Seq<char>, v: T) -> Seq<ScopeView<T>> {
    scopes.update(scopes.len() - 1, assoc_set(scopes.last(), name, v))
}

proof fn lemma_lookup_from_defined<T>(scopes: Seq<ScopeView<T>>, name: Seq<char>, v: T, other: Seq<char>, i: int)
    requires
        scopes.len() > 0,
        0 <= i <= scopes.len(),
    ensures
        lookup_outermost_from(defined_locally(scopes, name, v), other, i) == if lookup_outermost_from(
            scopes,
            other,
            i,
        ) is Some && lookup_outermost_from(scopes, other, i).unwrap().1 < scopes.len() - 1 {
            lookup_outermost_from(scopes, other, i)
        } else if other == name && i < scopes.len() {
            Some((v, scopes.len() - 1))
        } else {
            lookup_outermost_from(scopes, other, i)
        },
    decreases scopes.len() - i,
{
    lemma_assoc_set(scopes.last(), name, v);
    lemma_lookup_outermost_position(scopes, other, i);
    lemma_lookup_outermost_position(scopes, other, i + 1);
    if i < scopes.len() {
        lemma_lookup_from_defined(scopes, name, v, other, i + 1);
        if i < scopes.len() - 1 {
            assert(defined_locally(scopes, name, v)[i] == scopes[i]);
        }
    }
}

/// A name defined in the innermost scope is read back from it.
pub proof fn law_define_local_then_get_local<T>(scopes: Seq<ScopeView<T>>, name: Seq<char>, v: T)
    requires
        scopes.len() > 0,
    ensures
        assoc_get(defined_locally(scopes, name, v).last(), name) == Some(v),
{
    lemma_assoc_set(scopes.last(), name, v);
}

/// `get` finds the outermost definition: defining a name in the innermost
/// scope changes what `get` finds only where no outer scope defines it,
/// and then it finds the new definition there.
pub proof fn law_get_after_define_local<T>(scopes: Seq<ScopeView<T>>, name: Seq<char>, v: T)
    requires
        scopes.len() > 0,
    ensures
        lookup_outermost(defined_locally(scopes, name, v), name) == if lookup_outermost(scopes, name) is Some
            && lookup_outermost(scopes, name).unwrap().1 < scopes.len() - 1 {
            lookup_outermost(scopes, name)
        } else {
            Some((v, scopes.len() - 1))
        },
{
    lemma_lookup_from_defined(scopes, name, v, name, 0);
}

/// Defining a name leaves what `get` finds for every other name.
pub proof fn law_define_local_keeps_other_names<T>(scopes: Seq<ScopeView<T>>, name: Seq<char>, v: T, other: Seq<char>)
    requires
        scopes.len() > 0,
        other != name,
    ensures
        lookup_outermost(defined_locally(scopes, name, v), other) == lookup_outermost(scopes, other),
{
    lemma_lookup_from_defined(scopes, name, v, other, 0);
    if let Some((w, j)) = lookup_outermost(scopes, other) {
        lemma_lookup_outermost_position(scopes, other, 0);
        if j == scopes.len() - 1 {
            lemma_lookup_from_defined(scopes, name, v, other, 0);
        }
    }
}

proof fn lemma_lookup_outermost_position<T>(scopes: Seq<ScopeView<T>>, name: Seq<char>, i: int)
    requires
        0 <= i,
    ensures
        lookup_outermost_from(scopes, name, i) matches Some((w, j)) ==> i <= j < scopes.len() && assoc_get(scopes[j], name) == Some(w),
    decreases scopes.len() - i,
{
    if i < scopes.len() {
        lemma_lookup_outermost_position(scopes, name, i + 1);
    }
}

/// Leaving a scope just entered gives back the scopes as they were.
pub proof fn law_new_scope_then_pop<T>(scopes: Seq<ScopeView<T>>)
    ensures
        scopes.push(Seq::empty()).drop_last() == scopes,
{
    assert(scopes.push(Seq::empty()).drop_last() =~= scopes);
}

} // verus!
