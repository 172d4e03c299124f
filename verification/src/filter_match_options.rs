use vstd::prelude::*;

use crate::value::NumericComparisonPolicy;

verus! {

/// Options applied when a filter is evaluated.
#[derive(Debug, Clone, Copy, PartialEq, Eq, Structural)]
pub struct FilterMatchOptions {
    numeric_comparison_policy: NumericComparisonPolicy,
}

impl FilterMatchOptions {
    /// The numeric comparison policy of these options.
    pub closed spec fn spec_policy(self) -> NumericComparisonPolicy {
        self.numeric_comparison_policy
    }

    /// Creates a builder starting from the exact numeric comparison policy.
    pub fn builder() -> (b: FilterMatchOptionsBuilder)
        ensures
            b.spec_policy() == NumericComparisonPolicy::Exact,
    {
        FilterMatchOptionsBuilder::new()
    }

    /// Creates options using `numeric_comparison_policy`.
    pub(crate) fn from_numeric_comparison_policy(numeric_comparison_policy: NumericComparisonPolicy) -> (r: Self)
        ensures
            r.spec_policy() == numeric_comparison_policy,
    {
        FilterMatchOptions { numeric_comparison_policy }
    }

    /// Returns the numeric comparison policy.
    pub fn numeric_comparison_policy(&self) -> (r: NumericComparisonPolicy)
        ensures
            r == self.spec_policy(),
    {
        self.numeric_comparison_policy
    }
}

impl Default for FilterMatchOptions {
    /// Options with the exact numeric comparison policy.
    fn default() -> (r: Self)
        ensures
            r.spec_policy() == NumericComparisonPolicy::Exact,
    {
        FilterMatchOptions { numeric_comparison_policy: NumericComparisonPolicy::Exact }
    }
}

/// Builder for [`FilterMatchOptions`].
#[derive(Debug, Clone, Copy, PartialEq, Eq, Structural)]
pub struct FilterMatchOptionsBuilder {
    numeric_comparison_policy: NumericComparisonPolicy,
}

impl FilterMatchOptionsBuilder {
    /// The policy the built options will use.
    pub closed spec fn spec_policy(self) -> NumericComparisonPolicy {
        self.numeric_comparison_policy
    }

    /// Creates a builder with the exact numeric comparison policy.
    pub(crate) fn new() -> (b: Self)
        ensures
            b.spec_policy() == NumericComparisonPolicy::Exact,
    {
        FilterMatchOptionsBuilder { numeric_comparison_policy: NumericComparisonPolicy::Exact }
    }

    /// Sets the numeric comparison policy.
    pub fn numeric_comparison_policy(self, numeric_comparison_policy: NumericComparisonPolicy) -> (b: Self)
        ensures
            b.spec_policy() == numeric_comparison_policy,
    {
        FilterMatchOptionsBuilder { numeric_comparison_policy }
    }

    /// Builds the options.
    pub fn build(self) -> (r: FilterMatchOptions)
        ensures
            r.spec_policy() == self.spec_policy(),
    {
        FilterMatchOptions::from_numeric_comparison_policy(self.numeric_comparison_policy)
    }
}

} // verus!
