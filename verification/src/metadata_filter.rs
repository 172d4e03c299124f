use vstd::prelude::*;

use crate::condition::{concrete, Condition};
use crate::expression_shape::ExprShape;
use crate::filter_expression::{
    eval, is_negation_of, lemma_leaf_meaning, lemma_negation_meaning, lemma_same_shape_behaves, shape, spec_validate,
    FilterExpression,
};
use crate::filter_limits::FilterLimits;
use crate::filter_match_options::FilterMatchOptions;
use crate::match_outcome::MatchOutcome;
use crate::metadata::Metadata;
use crate::metadata_error::MetadataError;
use crate::value::NumericComparisonPolicy;

verus! {

/// A validated filter: an expression, the options it is matched with, and the
/// limits it was validated against.
#[derive(Debug)]
pub struct MetadataFilter {
    expression: FilterExpression,
    options: FilterMatchOptions,
    limits: FilterLimits,
}

impl MetadataFilter {
    /// The expression of this filter.
    pub closed spec fn spec_expression(self) -> FilterExpression {
        self.expression
    }

    /// The match options of this filter.
    pub closed spec fn spec_options(self) -> FilterMatchOptions {
        self.options
    }

    /// The limits this filter was validated against.
    pub closed spec fn spec_limits(self) -> FilterLimits {
        self.limits
    }

    /// The expression is in normal form and fits the limits of the filter,
    /// and the limits are well formed.
    pub open spec fn wf(self) -> bool {
        &&& spec_validate(self.spec_expression(), self.spec_limits()) is Ok
        &&& self.spec_expression().wf()
        &&& self.spec_limits().wf()
    }

    /// Assembles a filter from validated parts.
    pub(crate) fn new(expression: FilterExpression, options: FilterMatchOptions, limits: FilterLimits) -> (r: Self)
        requires
            spec_validate(expression, limits) is Ok,
        ensures
            r.spec_expression() == expression,
            r.spec_options() == options,
            r.spec_limits() == limits,
            r.wf(),
    {
        expression.reveal_normal_form();
        proof {
            use_type_invariant(&limits);
        }
        MetadataFilter { expression, options, limits }
    }

    /// A filter that matches every metadata object.
    pub fn all() -> (r: Self)
        ensures
            r.spec_expression().spec_node() is True,
            r.spec_options().spec_policy() == NumericComparisonPolicy::Exact,
            r.spec_limits() == FilterLimits::hard_max(),
            r.wf(),
            forall|m: Metadata| #[trigger] r.spec_matches(m),
    {
        proof {
            FilterLimits::lemma_hard_max();
        }
        Self::new(FilterExpression::match_all(), FilterMatchOptions::default(), FilterLimits::max_limits())
    }

    /// A filter that matches no metadata object.
    pub fn none() -> (r: Self)
        ensures
            r.spec_expression().spec_node() is False,
            r.spec_options().spec_policy() == NumericComparisonPolicy::Exact,
            r.spec_limits() == FilterLimits::hard_max(),
            r.wf(),
            forall|m: Metadata| !#[trigger] r.spec_matches(m),
    {
        proof {
            FilterLimits::lemma_hard_max();
        }
        Self::new(FilterExpression::match_none(), FilterMatchOptions::default(), FilterLimits::max_limits())
    }

    /// Creates a builder with no expression, the default options and the hard
    /// maximum limits.
    pub fn builder() -> (r: MetadataFilterBuilder)
        ensures
            r.spec_expression() is None,
            r.spec_options().spec_policy() == NumericComparisonPolicy::Exact,
            r.spec_limits() == FilterLimits::hard_max(),
    {
        MetadataFilterBuilder::new()
    }

    /// Returns the expression.
    pub fn expression(&self) -> (r: &FilterExpression)
        ensures
            *r == self.spec_expression(),
    {
        &self.expression
    }

    /// Returns the match options.
    pub fn options(&self) -> (r: FilterMatchOptions)
        ensures
            r == self.spec_options(),
    {
        self.options
    }

    /// Returns the limits the expression was validated against.
    pub fn limits(&self) -> (r: FilterLimits)
        ensures
            r == self.spec_limits(),
    {
        self.limits
    }

    /// Whether `metadata` matches: the expression is definitely true; an
    /// unknown outcome does not match.
    pub open spec fn spec_matches(self, metadata: Metadata) -> bool {
        eval(self.spec_expression(), metadata@) == MatchOutcome::True
    }

    /// Reports whether `metadata` matches this filter.
    pub fn matches(&self, metadata: &Metadata) -> (r: bool)
        ensures
            r == self.spec_matches(*metadata),
    {
        self.expression.evaluate(metadata, self.options.numeric_comparison_policy()).is_match()
    }
}

/// Builder for a [`MetadataFilter`].
#[derive(Debug)]
pub struct MetadataFilterBuilder {
    expression: Option<FilterExpression>,
    options: FilterMatchOptions,
    limits: FilterLimits,
}

impl MetadataFilterBuilder {
    /// The expression set so far.
    pub closed spec fn spec_expression(self) -> Option<FilterExpression> {
        self.expression
    }

    /// The match options set so far.
    pub closed spec fn spec_options(self) -> FilterMatchOptions {
        self.options
    }

    /// The limits set so far.
    pub closed spec fn spec_limits(self) -> FilterLimits {
        self.limits
    }

    /// Creates a builder with no expression, the default options and the hard
    /// maximum limits.
    pub(crate) fn new() -> (r: Self)
        ensures
            r.spec_expression() is None,
            r.spec_options().spec_policy() == NumericComparisonPolicy::Exact,
            r.spec_limits() == FilterLimits::hard_max(),
    {
        MetadataFilterBuilder {
            expression: None,
            options: FilterMatchOptions::builder().build(),
            limits: FilterLimits::max_limits(),
        }
    }

    /// Sets the expression.
    pub fn expression(self, expression: FilterExpression) -> (r: Self)
        ensures
            r.spec_expression() == Some(expression),
            r.spec_options() == self.spec_options(),
            r.spec_limits() == self.spec_limits(),
    {
        MetadataFilterBuilder { expression: Some(expression), ..self }
    }

    /// Sets the match options.
    pub fn options(self, options: FilterMatchOptions) -> (r: Self)
        ensures
            r.spec_expression() == self.spec_expression(),
            r.spec_options() == options,
            r.spec_limits() == self.spec_limits(),
    {
        MetadataFilterBuilder { options, ..self }
    }

    /// Sets the limits the expression is validated against.
    pub fn limits(self, limits: FilterLimits) -> (r: Self)
        ensures
            r.spec_expression() == self.spec_expression(),
            r.spec_options() == self.spec_options(),
            r.spec_limits() == limits,
    {
        MetadataFilterBuilder { limits, ..self }
    }

    /// Builds the filter.
    ///
    /// Fails with [`MetadataError::MissingFilterExpression`] when no
    /// expression was set, and with the first limit violation of the
    /// expression otherwise.
    pub fn build(self) -> (r: Result<MetadataFilter, MetadataError>)
        ensures
            self.spec_expression() is None ==> r == Err::<MetadataFilter, MetadataError>(
                MetadataError::MissingFilterExpression,
            ),
            self.spec_expression() matches Some(e) ==> match spec_validate(e, self.spec_limits()) {
                Ok(()) => r matches Ok(f) && f.spec_expression() == e && f.spec_options() == self.spec_options()
                    && f.spec_limits() == self.spec_limits() && f.wf(),
                Err(err) => r == Err::<MetadataFilter, MetadataError>(err),
            },
    {
        let expression = match self.expression {
            Some(expression) => expression,
            None => {
                return Err(MetadataError::MissingFilterExpression);
            },
        };
        match expression.validate_limits(self.limits) {
            Ok(()) => Ok(MetadataFilter::new(expression, self.options, self.limits)),
            Err(error) => Err(error),
        }
    }
}

impl Default for MetadataFilterBuilder {
    /// A builder with no expression, the default options and the hard maximum
    /// limits.
    fn default() -> (r: Self)
        ensures
            r.spec_expression() is None,
            r.spec_options().spec_policy() == NumericComparisonPolicy::Exact,
            r.spec_limits() == FilterLimits::hard_max(),
    {
        Self::new()
    }
}

/// An unknown outcome fails closed: a comparison (every condition but the
/// existence tests) on a key that holds no concrete value, absent or unset,
/// evaluates to unknown, stays unknown under negation, and so neither the
/// filter on the comparison nor the filter on its negation matches.
pub proof fn lemma_unknown_fails_closed(
    plain: MetadataFilter,
    negated: MetadataFilter,
    c: Condition,
    metadata: Metadata,
)
    requires
        !(c is Exists),
        !(c is NotExists),
        concrete(metadata@, c.spec_key()) is None,
        shape(plain.spec_expression()) == ExprShape::Cond(c.spec_shape()),
        is_negation_of(negated.spec_expression(), plain.spec_expression()),
    ensures
        eval(plain.spec_expression(), metadata@) == MatchOutcome::Unknown,
        eval(negated.spec_expression(), metadata@) == MatchOutcome::Unknown,
        !plain.spec_matches(metadata),
        !negated.spec_matches(metadata),
{
    let leaf = FilterExpression::leaf(c);
    lemma_leaf_meaning(c);
    lemma_same_shape_behaves(plain.spec_expression(), leaf);
    assert(eval(leaf, metadata@) == c.spec_evaluate(metadata@));
    assert(eval(plain.spec_expression(), metadata@) == eval(leaf, metadata@));
    lemma_negation_meaning(negated.spec_expression(), plain.spec_expression());
    assert(eval(negated.spec_expression(), metadata@) == crate::match_outcome::not1(
        eval(plain.spec_expression(), metadata@),
    ));
}

impl Clone for MetadataFilter {
    /// Copies the filter: the copy has an expression of the same shape, the
    /// same options and limits, and matches exactly the same metadata.
    fn clone(&self) -> (r: Self)
        ensures
            shape(r.spec_expression()) == shape(self.spec_expression()),
            r.spec_options() == self.spec_options(),
            r.spec_limits() == self.spec_limits(),
            self.wf() ==> r.wf(),
            forall|m: Metadata| #[trigger] r.spec_matches(m) == self.spec_matches(m),
    {
        let expression = self.expression.clone();
        proof {
            lemma_same_shape_behaves(expression, self.expression);
        }
        MetadataFilter { expression, options: self.options, limits: self.limits }
    }
}

impl Clone for MetadataFilterBuilder {
    /// Copies the builder: the copy holds an expression of the same shape,
    /// if any, and the same options and limits.
    fn clone(&self) -> (r: Self)
        ensures
            r.spec_expression() is Some <==> self.spec_expression() is Some,
            r.spec_expression() is Some ==> shape(r.spec_expression()->0) == shape(self.spec_expression()->0),
            r.spec_options() == self.spec_options(),
            r.spec_limits() == self.spec_limits(),
    {
        let expression = match &self.expression {
            Some(e) => Some(e.clone()),
            None => None,
        };
        MetadataFilterBuilder { expression, options: self.options, limits: self.limits }
    }
}

} // verus!
