//! Identifiers' scope indices.

use vstd::prelude::*;

pub use crate::check::scope::ScopeIndex;

verus! {

/// The scope index given to an identifier by the checking passes.
pub type ScopedId = ScopeIndex;

} // verus!
