//! Scope indices: paths into the tree of nested scopes.

use vstd::prelude::*;

verus! {

/// A path into the tree of lexical scopes.
///
/// Each component counts declarations and child blocks at one nesting
/// level; the last component is the position within the innermost scope.
/// For example `[1, 0]` is the first declaration inside the second block
/// of the root.
#[derive(Debug, PartialEq, Eq, Hash, PartialOrd, Ord)]
pub struct ScopeIndex {
    indices: Vec<usize>,
}

impl View for ScopeIndex {
    type V = Seq<usize>;

    closed spec fn view(&self) -> Seq<usize> {
        self.indices@
    }
}

/// The index with its last component advanced by one.
pub open spec fn spec_incremented(idx: Seq<usize>) -> Seq<usize>
    recommends
        idx.len() > 0,
{
    idx.update(idx.len() - 1, (idx.last() + 1) as usize)
}

/// Advancing an index changes only its last component, by one.
pub proof fn lemma_incremented(idx: Seq<usize>)
    requires
        idx.len() > 0,
        idx.last() < usize::MAX,
    ensures
        spec_incremented(idx).len() == idx.len(),
        spec_incremented(idx).drop_last() == idx.drop_last(),
        spec_incremented(idx).last() == idx.last() + 1,
{
    assert(spec_incremented(idx).drop_last() =~= idx.drop_last());
}

/// The index with its last component moved back by one.
pub open spec fn spec_decremented(idx: Seq<usize>) -> Seq<usize>
    recommends
        idx.len() > 0,
{
    idx.update(idx.len() - 1, (idx.last() - 1) as usize)
}

/// The index `[0]` that identifiers carry before they are given one.
pub open spec fn spec_default_index() -> Seq<usize> {
    seq![0usize]
}

impl ScopeIndex {
    /// Moves to the next position in the innermost scope.
    pub fn increment(&mut self)
        requires
            old(self)@.len() > 0,
            old(self)@.last() < usize::MAX,
        ensures
            final(self)@ == spec_incremented(old(self)@),
    {
        let len = self.indices.len() - 1;
        let v = self.indices[len];
        self.indices.set(len, v + 1);
    }

    /// Moves back to the previous position in the innermost scope.
    pub fn decrement(&mut self)
        requires
            old(self)@.len() > 0,
            old(self)@.last() > 0,
        ensures
            final(self)@ == spec_decremented(old(self)@),
    {
        let len = self.indices.len() - 1;
        let v = self.indices[len];
        self.indices.set(len, v - 1);
    }

    /// Enters a new innermost scope, at its first position.
    pub fn push(&mut self)
        ensures
            final(self)@ == old(self)@.push(0),
    {
        self.indices.push(0);
    }

    /// Leaves the innermost scope; an empty index stays empty.
    pub fn pop(&mut self)
        ensures
            final(self)@ == (if old(self)@.len() > 0 { old(self)@.drop_last() } else { old(self)@ }),
    {
        self.indices.pop();
    }

    /// The index with the given components.
    pub fn new(vec: Vec<usize>) -> (idx: ScopeIndex)
        ensures
            idx@ == vec@,
    {
        ScopeIndex { indices: vec }
    }

    /// A copy of this index with a new innermost scope entered.
    pub fn pushed(&self) -> (idx: ScopeIndex)
        ensures
            idx@ == self@.push(0),
    {
        let mut idx = self.clone();
        idx.push();
        idx
    }

    /// Whether this is the index `[0]` that unidentified names carry.
    pub fn is_default(&self) -> (b: bool)
        ensures
            b == (self@ == spec_default_index()),
    {
        if self.indices.len() == 1 && self.indices[0] == 0 {
            assert(self@ =~= spec_default_index());
            true
        } else {
            false
        }
    }

    /// Whether two indices have the same components.
    pub fn same_as(&self, other: &ScopeIndex) -> (b: bool)
        ensures
            b == (self@ == other@),
    {
        let n = self.indices.len();
        if n != other.indices.len() {
            return false;
        }
        let mut i: usize = 0;
        while i < n
            invariant
                n == self@.len(),
                n == other@.len(),
                i <= n,
                forall|j: int| 0 <= j < i ==> self@[j] == other@[j],
            decreases n - i,
        {
            if self.indices[i] != other.indices[i] {
                return false;
            }
            i += 1;
        }
        assert(self@ =~= other@);
        true
    }

    /// The number of nesting levels.
    pub fn len(&self) -> (n: usize)
        ensures
            n == self@.len(),
    {
        self.indices.len()
    }
}

impl Clone for ScopeIndex {
    fn clone(&self) -> (idx: ScopeIndex)
        ensures
            idx@ == self@,
    {
        ScopeIndex { indices: self.indices.clone() }
    }
}

impl Default for ScopeIndex {
    /// The index `[0]`.
    fn default() -> (idx: ScopeIndex)
        ensures
            idx@ == spec_default_index(),
    {
        let mut v: Vec<usize> = Vec::new();
        v.push(0);
        assert(v@ =~= spec_default_index());
        ScopeIndex { indices: v }
    }
}

} // verus!
