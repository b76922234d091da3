//! Source positions carried by tokens, events and nodes for diagnostics.

use vstd::prelude::*;

verus! {

/// A position in the source text: line and column (both 0-indexed) and the
/// absolute character offset.
#[derive(Debug, Clone, Copy, PartialEq, Eq, Structural)]
pub struct Mark {
    pub line: usize,
    pub column: usize,
    pub index: usize,
}

impl Mark {
    pub fn new(line: usize, column: usize, index: usize) -> (r: Mark)
        ensures
            r == (Mark { line, column, index }),
    {
        Mark { line, column, index }
    }

    /// The origin position, used where an exact position is not tracked.
    pub fn zero() -> (r: Mark)
        ensures
            r == (Mark { line: 0usize, column: 0usize, index: 0usize }),
    {
        Mark { line: 0, column: 0, index: 0 }
    }
}

} // verus!
