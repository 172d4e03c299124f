use vstd::prelude::*;

verus! {

/// A metadata resource category bounded by the strict V1 wire contract.
#[derive(Debug, Clone, Copy, PartialEq, Eq, Structural)]
pub enum MetadataWireLimitKind {
    /// Number of metadata entries or schema fields.
    Entries,
    /// UTF-8 byte length of a metadata or schema key.
    KeyBytes,
}

} // verus!
