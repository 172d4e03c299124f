use vstd::prelude::*;

verus! {

/// Identifies one resource bounded while constructing or decoding a filter.
#[derive(Debug, Clone, Copy, PartialEq, Eq, Structural)]
pub enum FilterLimitKind {
    /// Nested expression depth.
    Depth,
    /// Total expression node count.
    Nodes,
    /// Candidate values in one set-membership condition.
    SetValues,
    /// UTF-8 bytes in one metadata key.
    KeyBytes,
}

} // verus!
