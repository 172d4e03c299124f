use vstd::prelude::*;

use crate::filter_limit_kind::FilterLimitKind;
use crate::filter_limits::FilterLimits;
use crate::metadata::key_len;
use crate::metadata_error::MetadataError;

verus! {

/// The admission checks of a streaming filter decode: nesting depth, the
/// number of nodes admitted so far, key length, and candidate count, each
/// against the receiver's limits.
#[derive(Debug, Clone, Copy, PartialEq, Eq, Structural)]
pub struct FilterDecodeBudget {
    limits: FilterLimits,
    consumed: usize,
}

impl FilterDecodeBudget {
    #[verifier::type_invariant]
    spec fn inv(self) -> bool {
        self.consumed <= self.limits.spec_max_nodes()
    }

    /// The receiver's limits.
    pub closed spec fn spec_limits(self) -> FilterLimits {
        self.limits
    }

    /// The number of nodes admitted so far.
    pub closed spec fn spec_consumed(self) -> nat {
        self.consumed as nat
    }

    /// Creates a budget with no node admitted yet.
    pub fn new(limits: FilterLimits) -> (r: Self)
        ensures
            r.spec_limits() == limits,
            r.spec_consumed() == 0,
    {
        FilterDecodeBudget { limits, consumed: 0 }
    }

    /// Returns the number of nodes admitted so far.
    pub fn consumed(&self) -> (r: usize)
        ensures
            r == self.spec_consumed(),
            r <= self.spec_limits().spec_max_nodes(),
    {
        proof {
            use_type_invariant(self);
        }
        self.consumed
    }

    /// Admits one node at root-inclusive `depth`: the depth first, then the
    /// node count; a refused node is not counted.
    pub fn enter_node(&mut self, depth: usize) -> (r: Result<(), MetadataError>)
        ensures
            final(self).spec_limits() == old(self).spec_limits(),
            depth > old(self).spec_limits().spec_max_depth() ==> r == Err::<(), MetadataError>(
                MetadataError::FilterLimitExceeded {
                    kind: FilterLimitKind::Depth,
                    value: depth,
                    maximum: old(self).spec_limits().spec_max_depth(),
                },
            ) && final(self).spec_consumed() == old(self).spec_consumed(),
            depth <= old(self).spec_limits().spec_max_depth() && old(self).spec_consumed() + 1
                > old(self).spec_limits().spec_max_nodes() ==> r == Err::<(), MetadataError>(
                MetadataError::FilterLimitExceeded {
                    kind: FilterLimitKind::Nodes,
                    value: (old(self).spec_consumed() + 1) as usize,
                    maximum: old(self).spec_limits().spec_max_nodes(),
                },
            ) && final(self).spec_consumed() == old(self).spec_consumed(),
            depth <= old(self).spec_limits().spec_max_depth() && old(self).spec_consumed() + 1
                <= old(self).spec_limits().spec_max_nodes() ==> r is Ok && final(self).spec_consumed()
                == old(self).spec_consumed() + 1,
    {
        proof {
            use_type_invariant(&*self);
        }
        let max_depth = self.limits.max_depth();
        if depth > max_depth {
            return Err(
                MetadataError::FilterLimitExceeded { kind: FilterLimitKind::Depth, value: depth, maximum: max_depth },
            );
        }
        let max_nodes = self.limits.max_nodes();
        if self.consumed >= max_nodes {
            return Err(
                MetadataError::FilterLimitExceeded {
                    kind: FilterLimitKind::Nodes,
                    value: self.consumed + 1,
                    maximum: max_nodes,
                },
            );
        }
        self.consumed = self.consumed + 1;
        Ok(())
    }

    /// Checks the UTF-8 byte length of a decoded key.
    pub fn check_key(&self, key: &str) -> (r: Result<(), MetadataError>)
        ensures
            r == (if key_len(key@) > self.spec_limits().spec_max_key_bytes() {
                Err(
                    MetadataError::FilterLimitExceeded {
                        kind: FilterLimitKind::KeyBytes,
                        value: key_len(key@) as usize,
                        maximum: self.spec_limits().spec_max_key_bytes(),
                    },
                )
            } else {
                Ok(())
            }),
    {
        let key_bytes = key.as_bytes().len();
        let maximum = self.limits.max_key_bytes();
        if key_bytes > maximum {
            return Err(MetadataError::FilterLimitExceeded { kind: FilterLimitKind::KeyBytes, value: key_bytes, maximum });
        }
        Ok(())
    }

    /// Checks that a membership candidate list may grow to `next_len`
    /// entries.
    pub fn check_set_value(&self, next_len: usize) -> (r: Result<(), MetadataError>)
        ensures
            r == (if next_len > self.spec_limits().spec_max_set_values() {
                Err(
                    MetadataError::FilterLimitExceeded {
                        kind: FilterLimitKind::SetValues,
                        value: next_len,
                        maximum: self.spec_limits().spec_max_set_values(),
                    },
                )
            } else {
                Ok(())
            }),
    {
        let maximum = self.limits.max_set_values();
        if next_len > maximum {
            return Err(MetadataError::FilterLimitExceeded { kind: FilterLimitKind::SetValues, value: next_len, maximum });
        }
        Ok(())
    }
}

} // verus!
