//! The symbol table: a map from `ScopedId`s to declared symbols.

use vstd::prelude::*;

use crate::ast::ScopedId;
use crate::check::assoc::{find_key, assoc_get, assoc_set, lemma_find_key, lemma_find_key_is};
use crate::check::symbol::symbol::{DeclaredSymbol, SymbolView};

verus! {

/// A mapping from the `ScopedId`s given to AST identifiers to the symbols
/// they declare, kept in the order the symbols were first declared.
#[derive(Debug, PartialEq, Eq)]
pub struct SymbolTable {
    entries: Vec<(ScopedId, DeclaredSymbol)>,
}

/// The mathematical value of a symbol table: its entries in order, keyed by
/// the components of their `ScopedId`.
pub type TableView = Seq<(Seq<usize>, SymbolView)>;

/// The table with the symbol under `k` marked used (unchanged where `k`
/// has no symbol).
pub open spec fn table_mark_used(t: TableView, k: Seq<usize>) -> TableView {
    match find_key(t, k) {
        Some(i) => t.update(i, (k, SymbolView { used: true, ..t[i].1 })),
        None => t,
    }
}

/// The table with the symbol under `k` marked mutated (unchanged where `k`
/// has no symbol).
pub open spec fn table_mark_mutated(t: TableView, k: Seq<usize>) -> TableView {
    match find_key(t, k) {
        Some(i) => t.update(i, (k, SymbolView { mutated: true, ..t[i].1 })),
        None => t,
    }
}

impl View for SymbolTable {
    type V = TableView;

    closed spec fn view(&self) -> TableView {
        self.entries@.map_values(|e: (ScopedId, DeclaredSymbol)| (e.0@, e.1@))
    }
}

impl SymbolTable {
    /// An empty table.
    pub fn new() -> (t: SymbolTable)
        ensures
            t@ == Seq::<(Seq<usize>, SymbolView)>::empty(),
    {
        let t = SymbolTable { entries: Vec::new() };
        assert(t@ =~= Seq::<(Seq<usize>, SymbolView)>::empty());
        t
    }

    /// The number of symbols.
    pub fn len(&self) -> (n: usize)
        ensures
            n == self@.len(),
    {
        self.entries.len()
    }

    /// The position of the symbol under `index`.
    fn position(&self, index: &ScopedId) -> (r: Option<usize>)
        ensures
            match r {
                Some(i) => find_key(self@, index@) == Some(i as int) && i < self@.len() && self@[i as int].0
                    == index@,
                None => find_key(self@, index@) is None,
            },
            self@.len() == self.entries@.len(),
    {
        proof { lemma_find_key(self@, index@); }
        let n = self.entries.len();
        let mut i: usize = 0;
        while i < n
            invariant
                n == self@.len(),
                i <= n,
                forall|m: int| 0 <= m < i ==> self@[m].0 != index@,
            decreases n - i,
        {
            if self.entries[i].0.same_as(index) {
                proof { lemma_find_key_is(self@, index@, i as int); }
                return Some(i);
            }
            i += 1;
        }
        None
    }

    /// The symbol under `index`, if there is one.
    pub fn get(&self, index: &ScopedId) -> (r: Option<&DeclaredSymbol>)
        ensures
            match r {
                Some(s) => assoc_get(self@, index@) == Some(s@),
                None => assoc_get(self@, index@) is None,
            },
    {
        match self.position(index) {
            Some(i) => Some(&self.entries[i].1),
            None => None,
        }
    }

    /// Maps `index` to `symbol`, replacing any symbol already under it.
    pub fn insert(&mut self, index: ScopedId, symbol: DeclaredSymbol)
        ensures
            final(self)@ == assoc_set(old(self)@, index@, symbol@),
    {
        match self.position(&index) {
            Some(i) => {
                let ghost k = index@;
                let ghost v = symbol@;
                self.entries.set(i, (index, symbol));
                assert(self@ =~= old(self)@.update(i as int, (k, v)));
            },
            None => {
                let ghost k = index@;
                let ghost v = symbol@;
                self.entries.push((index, symbol));
                assert(self@ =~= old(self)@.push((k, v)));
            },
        }
    }

    /// Marks the symbol under `index` as used.
    pub fn set_used(&mut self, index: &ScopedId)
        ensures
            final(self)@ == table_mark_used(old(self)@, index@),
    {
        if let Some(i) = self.position(index) {
            proof { lemma_find_key(self@, index@); }
            self.entries[i].1.set_used();
            assert(self@ =~= table_mark_used(old(self)@, index@));
        }
    }

    /// Marks the symbol under `index` as mutated.
    pub fn set_mutated(&mut self, index: &ScopedId)
        ensures
            final(self)@ == table_mark_mutated(old(self)@, index@),
    {
        if let Some(i) = self.position(index) {
            proof { lemma_find_key(self@, index@); }
            self.entries[i].1.set_mutated();
            assert(self@ =~= table_mark_mutated(old(self)@, index@));
        }
    }

    /// The entries of the table, in the order they were first declared.
    pub fn entries(&self) -> (e: &[(ScopedId, DeclaredSymbol)])
        ensures
            e@.map_values(|p: (ScopedId, DeclaredSymbol)| (p.0@, p.1@)) == self@,
    {
        self.entries.as_slice()
    }
}

impl Default for SymbolTable {
    /// An empty table.
    fn default() -> (t: SymbolTable)
        ensures
            t@ == Seq::<(Seq<usize>, SymbolView)>::empty(),
    {
        SymbolTable::new()
    }
}

} // verus!
