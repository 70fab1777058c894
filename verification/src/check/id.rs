//! Identifiers that are handed out in increasing order.

use vstd::prelude::*;

verus! {

/// An identifier with a position in a sequence of identifiers, which can be
/// moved forwards and backwards.
pub trait UniqueId: Sized {
    /// The position of the identifier.
    spec fn position(&self) -> int;

    /// The greatest position an identifier can have.
    spec fn last_position() -> int;

    /// Moves to the next position.
    fn increment(&mut self)
        requires
            old(self).position() < Self::last_position(),
        ensures
            final(self).position() == old(self).position() + 1;

    /// Moves to the previous position.
    fn decrement(&mut self)
        requires
            old(self).position() > 0,
        ensures
            final(self).position() == old(self).position() - 1;

    /// The identifier at the next position.
    fn next(&self) -> (n: Self)
        requires
            self.position() < Self::last_position(),
        ensures
            n.position() == self.position() + 1;
}

} // verus!
