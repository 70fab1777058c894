//! The compiler front object.

use vstd::prelude::*;

verus! {

/// Compiles checked programs.
#[derive(Debug, PartialEq, Eq)]
pub struct Compiler {}

} // verus!
