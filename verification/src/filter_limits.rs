use vstd::prelude::*;

use crate::filter_limit_kind::FilterLimitKind;
use crate::metadata_error::MetadataError;

verus! {

/// Library-wide hard maximum nesting depth of a filter expression.
pub const FILTER_MAX_DEPTH: usize = 64;

/// Library-wide hard maximum number of nodes in a filter expression.
pub const FILTER_MAX_NODES: usize = 256;

/// Library-wide hard maximum number of candidates in one membership condition.
pub const FILTER_MAX_SET_VALUES: usize = 128;

/// Library-wide hard maximum UTF-8 byte length of one filter key.
pub const FILTER_MAX_KEY_BYTES: usize = 256;

/// Resource bounds enforced for every constructed or deserialized filter.
///
/// Every bound lies in `1..=` its hard maximum.
#[derive(Debug, Clone, Copy, PartialEq, Eq, Structural)]
pub struct FilterLimits {
    max_depth: usize,
    max_nodes: usize,
    max_set_values: usize,
    max_key_length: usize,
}

/// Whether `value` is an acceptable configured bound below `maximum`.
pub open spec fn bound_in_range(value: usize, maximum: usize) -> bool {
    1 <= value <= maximum
}

/// The result of validating four requested bounds, checked in the order
/// depth, nodes, set values, key bytes.
pub open spec fn spec_try_new(
    max_depth: usize,
    max_nodes: usize,
    max_set_values: usize,
    max_key_bytes: usize,
) -> Result<(usize, usize, usize, usize), MetadataError> {
    if !bound_in_range(max_depth, FILTER_MAX_DEPTH) {
        Err(MetadataError::InvalidFilterLimit { kind: FilterLimitKind::Depth, value: max_depth, maximum: FILTER_MAX_DEPTH })
    } else if !bound_in_range(max_nodes, FILTER_MAX_NODES) {
        Err(MetadataError::InvalidFilterLimit { kind: FilterLimitKind::Nodes, value: max_nodes, maximum: FILTER_MAX_NODES })
    } else if !bound_in_range(max_set_values, FILTER_MAX_SET_VALUES) {
        Err(
            MetadataError::InvalidFilterLimit {
                kind: FilterLimitKind::SetValues,
                value: max_set_values,
                maximum: FILTER_MAX_SET_VALUES,
            },
        )
    } else if !bound_in_range(max_key_bytes, FILTER_MAX_KEY_BYTES) {
        Err(
            MetadataError::InvalidFilterLimit {
                kind: FilterLimitKind::KeyBytes,
                value: max_key_bytes,
                maximum: FILTER_MAX_KEY_BYTES,
            },
        )
    } else {
        Ok((max_depth, max_nodes, max_set_values, max_key_bytes))
    }
}

impl FilterLimits {
    #[verifier::type_invariant]
    pub open spec fn limits_inv(self) -> bool {
        self.wf()
    }

    /// The library-wide hard maximums as one value.
    pub closed spec fn hard_max() -> FilterLimits {
        FilterLimits {
            max_depth: FILTER_MAX_DEPTH,
            max_nodes: FILTER_MAX_NODES,
            max_set_values: FILTER_MAX_SET_VALUES,
            max_key_length: FILTER_MAX_KEY_BYTES,
        }
    }

    /// The hard maximums are the library-wide bounds and are well formed.
    pub proof fn lemma_hard_max()
        ensures
            FilterLimits::hard_max().is_hard_max(),
            FilterLimits::hard_max().wf(),
    {
    }

    /// Every bound lies within its hard maximum and is non-zero.
    pub open spec fn wf(self) -> bool {
        &&& bound_in_range(self.spec_max_depth(), FILTER_MAX_DEPTH)
        &&& bound_in_range(self.spec_max_nodes(), FILTER_MAX_NODES)
        &&& bound_in_range(self.spec_max_set_values(), FILTER_MAX_SET_VALUES)
        &&& bound_in_range(self.spec_max_key_bytes(), FILTER_MAX_KEY_BYTES)
    }

    /// The configured bounds as (depth, nodes, set values, key bytes).
    pub open spec fn spec_bounds(self) -> (usize, usize, usize, usize) {
        (self.spec_max_depth(), self.spec_max_nodes(), self.spec_max_set_values(), self.spec_max_key_bytes())
    }

    /// Spec accessor for the depth bound.
    pub closed spec fn spec_max_depth(self) -> usize {
        self.max_depth
    }

    /// Spec accessor for the node bound.
    pub closed spec fn spec_max_nodes(self) -> usize {
        self.max_nodes
    }

    /// Spec accessor for the membership bound.
    pub closed spec fn spec_max_set_values(self) -> usize {
        self.max_set_values
    }

    /// Spec accessor for the key-byte bound.
    pub closed spec fn spec_max_key_bytes(self) -> usize {
        self.max_key_length
    }

    /// Whether every bound equals its library-wide hard maximum.
    pub open spec fn is_hard_max(self) -> bool {
        self.spec_bounds() == (FILTER_MAX_DEPTH, FILTER_MAX_NODES, FILTER_MAX_SET_VALUES, FILTER_MAX_KEY_BYTES)
    }

    /// Returns the library-wide hard maximums for every resource bound.
    pub fn max_limits() -> (limits: FilterLimits)
        ensures
            limits == FilterLimits::hard_max(),
            limits.is_hard_max(),
            limits.wf(),
    {
        FilterLimits {
            max_depth: FILTER_MAX_DEPTH,
            max_nodes: FILTER_MAX_NODES,
            max_set_values: FILTER_MAX_SET_VALUES,
            max_key_length: FILTER_MAX_KEY_BYTES,
        }
    }

    /// Creates a fluent builder whose omitted properties use the hard maximums.
    pub fn builder() -> (builder: FilterLimitsBuilder)
        ensures
            builder.spec_requested() == (FILTER_MAX_DEPTH, FILTER_MAX_NODES, FILTER_MAX_SET_VALUES, FILTER_MAX_KEY_BYTES),
    {
        FilterLimitsBuilder::new()
    }

    /// Validates and creates resource limits.
    pub(crate) fn try_new(
        max_depth: usize,
        max_nodes: usize,
        max_set_values: usize,
        max_key_bytes: usize,
    ) -> (result: Result<FilterLimits, MetadataError>)
        ensures
            match (result, spec_try_new(max_depth, max_nodes, max_set_values, max_key_bytes)) {
                (Ok(limits), Ok(bounds)) => limits.spec_bounds() == bounds && limits.wf(),
                (Err(e), Err(f)) => e == f,
                _ => false,
            },
    {
        Self::validate_limit(FilterLimitKind::Depth, max_depth, FILTER_MAX_DEPTH)?;
        Self::validate_limit(FilterLimitKind::Nodes, max_nodes, FILTER_MAX_NODES)?;
        Self::validate_limit(FilterLimitKind::SetValues, max_set_values, FILTER_MAX_SET_VALUES)?;
        Self::validate_limit(FilterLimitKind::KeyBytes, max_key_bytes, FILTER_MAX_KEY_BYTES)?;
        Ok(FilterLimits { max_depth, max_nodes, max_set_values, max_key_length: max_key_bytes })
    }

    /// Returns the maximum nesting depth.
    pub fn max_depth(&self) -> (r: usize)
        ensures
            r == self.spec_max_depth(),
            1 <= r <= FILTER_MAX_DEPTH,
    {
        proof {
            use_type_invariant(self);
        }
        self.max_depth
    }

    /// Returns the maximum number of expression nodes.
    pub fn max_nodes(&self) -> (r: usize)
        ensures
            r == self.spec_max_nodes(),
            1 <= r <= FILTER_MAX_NODES,
    {
        proof {
            use_type_invariant(self);
        }
        self.max_nodes
    }

    /// Returns the maximum candidate values in one membership condition.
    pub fn max_set_values(&self) -> (r: usize)
        ensures
            r == self.spec_max_set_values(),
            1 <= r <= FILTER_MAX_SET_VALUES,
    {
        proof {
            use_type_invariant(self);
        }
        self.max_set_values
    }

    /// Returns the maximum UTF-8 byte length of one metadata key.
    pub fn max_key_bytes(&self) -> (r: usize)
        ensures
            r == self.spec_max_key_bytes(),
            1 <= r <= FILTER_MAX_KEY_BYTES,
    {
        proof {
            use_type_invariant(self);
        }
        self.max_key_length
    }

    /// Restricts every resource bound to the smaller bound from `other`.
    pub fn constrained_by(self, other: FilterLimits) -> (r: FilterLimits)
        ensures
            r.spec_max_depth() == min_usize(self.spec_max_depth(), other.spec_max_depth()),
            r.spec_max_nodes() == min_usize(self.spec_max_nodes(), other.spec_max_nodes()),
            r.spec_max_set_values() == min_usize(self.spec_max_set_values(), other.spec_max_set_values()),
            r.spec_max_key_bytes() == min_usize(self.spec_max_key_bytes(), other.spec_max_key_bytes()),
            r.wf(),
    {
        proof {
            use_type_invariant(&self);
            use_type_invariant(&other);
        }
        FilterLimits {
            max_depth: if self.max_depth <= other.max_depth { self.max_depth } else { other.max_depth },
            max_nodes: if self.max_nodes <= other.max_nodes { self.max_nodes } else { other.max_nodes },
            max_set_values: if self.max_set_values <= other.max_set_values {
                self.max_set_values
            } else {
                other.max_set_values
            },
            max_key_length: if self.max_key_length <= other.max_key_length {
                self.max_key_length
            } else {
                other.max_key_length
            },
        }
    }

    /// Rejects a bound that is zero or greater than `maximum`.
    fn validate_limit(kind: FilterLimitKind, value: usize, maximum: usize) -> (r: Result<
        (),
        MetadataError,
    >)
        ensures
            r is Ok <==> bound_in_range(value, maximum),
            r matches Err(e) ==> e == (MetadataError::InvalidFilterLimit { kind, value, maximum }),
    {
        if value == 0 || value > maximum {
            return Err(MetadataError::InvalidFilterLimit { kind, value, maximum });
        }
        Ok(())
    }
}

/// The smaller of two bounds.
pub open spec fn min_usize(a: usize, b: usize) -> usize {
    if a <= b { a } else { b }
}

impl Default for FilterLimits {
    fn default() -> (limits: Self)
        ensures
            limits.is_hard_max(),
    {
        Self::max_limits()
    }
}

/// Fluent builder for validated filter limits.
#[derive(Debug, Clone, Copy, PartialEq, Eq, Structural)]
pub struct FilterLimitsBuilder {
    max_depth: Option<usize>,
    max_nodes: Option<usize>,
    max_set_values: Option<usize>,
    max_key_bytes: Option<usize>,
}

/// The requested bound, or the hard maximum when none was requested.
pub open spec fn requested_or(value: Option<usize>, maximum: usize) -> usize {
    match value {
        Some(v) => v,
        None => maximum,
    }
}

impl FilterLimitsBuilder {
    /// The four requested bounds, with hard maximums for omitted ones.
    pub closed spec fn spec_requested(self) -> (usize, usize, usize, usize) {
        (
            requested_or(self.max_depth, FILTER_MAX_DEPTH),
            requested_or(self.max_nodes, FILTER_MAX_NODES),
            requested_or(self.max_set_values, FILTER_MAX_SET_VALUES),
            requested_or(self.max_key_bytes, FILTER_MAX_KEY_BYTES),
        )
    }

    /// Creates an empty builder that inherits every hard maximum by default.
    pub(crate) fn new() -> (b: Self)
        ensures
            b.spec_requested() == (FILTER_MAX_DEPTH, FILTER_MAX_NODES, FILTER_MAX_SET_VALUES, FILTER_MAX_KEY_BYTES),
    {
        FilterLimitsBuilder { max_depth: None, max_nodes: None, max_set_values: None, max_key_bytes: None }
    }

    /// Sets the maximum nested expression depth.
    pub fn max_depth(self, max_depth: usize) -> (b: Self)
        ensures
            b.spec_requested() == (max_depth, self.spec_requested().1, self.spec_requested().2, self.spec_requested().3),
    {
        FilterLimitsBuilder { max_depth: Some(max_depth), ..self }
    }

    /// Sets the maximum expression node count.
    pub fn max_nodes(self, max_nodes: usize) -> (b: Self)
        ensures
            b.spec_requested() == (self.spec_requested().0, max_nodes, self.spec_requested().2, self.spec_requested().3),
    {
        FilterLimitsBuilder { max_nodes: Some(max_nodes), ..self }
    }

    /// Sets the maximum candidate count in one membership condition.
    pub fn max_set_values(self, max_set_values: usize) -> (b: Self)
        ensures
            b.spec_requested() == (self.spec_requested().0, self.spec_requested().1, max_set_values, self.spec_requested().3),
    {
        FilterLimitsBuilder { max_set_values: Some(max_set_values), ..self }
    }

    /// Sets the maximum UTF-8 byte length of one metadata key.
    pub fn max_key_bytes(self, max_key_bytes: usize) -> (b: Self)
        ensures
            b.spec_requested() == (self.spec_requested().0, self.spec_requested().1, self.spec_requested().2, max_key_bytes),
    {
        FilterLimitsBuilder { max_key_bytes: Some(max_key_bytes), ..self }
    }

    /// Builds validated resource limits, using hard maximums for omitted
    /// bounds; fails on the first requested bound (depth, nodes, set values,
    /// key bytes) that is zero or above its hard maximum.
    pub fn build(self) -> (result: Result<FilterLimits, MetadataError>)
        ensures
            ({
                let (d, n, s, k) = self.spec_requested();
                match (result, spec_try_new(d, n, s, k)) {
                    (Ok(limits), Ok(bounds)) => limits.spec_bounds() == bounds && limits.wf(),
                    (Err(e), Err(f)) => e == f,
                    _ => false,
                }
            }),
    {
        let d = match self.max_depth { Some(v) => v, None => FILTER_MAX_DEPTH };
        let n = match self.max_nodes { Some(v) => v, None => FILTER_MAX_NODES };
        let s = match self.max_set_values { Some(v) => v, None => FILTER_MAX_SET_VALUES };
        let k = match self.max_key_bytes { Some(v) => v, None => FILTER_MAX_KEY_BYTES };
        FilterLimits::try_new(d, n, s, k)
    }
}

} // verus!
