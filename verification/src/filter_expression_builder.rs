use vstd::prelude::*;

use crate::condition::{first_unset, is_operand_error, Condition};
use crate::filter_expression::{
    is_and_of, is_negation_of, is_or_of, lemma_validate_limits_exact, spec_validate, tree_nodes, FilterExpression,
};
use crate::filter_limit_kind::FilterLimitKind;
use crate::filter_limits::{FilterLimits, FILTER_MAX_KEY_BYTES, FILTER_MAX_SET_VALUES};
use crate::metadata::key_len;
use crate::metadata_error::MetadataError;
use crate::value::MetadataValue;

verus! {

/// Fluent builder for a non-empty filter expression.
///
/// Consecutive conditions are joined with AND. The first error is kept and
/// every later step is ignored; [`FilterExpressionBuilder::build`] reports
/// it. The expression held so far always fits the hard maximums.
#[derive(Debug, PartialEq)]
pub struct FilterExpressionBuilder {
    expression: Option<FilterExpression>,
    error: Option<MetadataError>,
}

/// `e` is what joining `next` onto `previous` gives: `next` itself when there
/// is nothing yet, otherwise the simplified AND (or OR) of the two.
pub open spec fn joined(e: FilterExpression, previous: Option<FilterExpression>, next: FilterExpression, and: bool) -> bool {
    match previous {
        None => e == next,
        Some(p) => if and {
            is_and_of(e, p, next)
        } else {
            is_or_of(e, p, next)
        },
    }
}

/// `e` is the first rejection of an unset operand of `c`.
pub open spec fn is_first_operand_error(c: Condition, e: MetadataError) -> bool {
    exists|i: int| first_unset(c.spec_operands(), i) && is_operand_error(e, c.spec_operator(), c.spec_operands()[i])
}

/// The message reported for an empty AND or OR group.
pub open spec fn empty_group_message(and: bool) -> Seq<char> {
    if and {
        "AND group must contain at least one condition"@
    } else {
        "OR group must contain at least one condition"@
    }
}

impl FilterExpressionBuilder {
    #[verifier::type_invariant]
    pub open spec fn builder_inv(self) -> bool {
        self.spec_expression() matches Some(e) ==> spec_validate(e, FilterLimits::hard_max()) is Ok
    }

    /// The expression built so far.
    pub closed spec fn spec_expression(self) -> Option<FilterExpression> {
        self.expression
    }

    /// The first error met so far.
    pub closed spec fn spec_error(self) -> Option<MetadataError> {
        self.error
    }

    /// A builder with no expression and no error.
    pub closed spec fn spec_empty() -> FilterExpressionBuilder {
        FilterExpressionBuilder { expression: None, error: None }
    }

    /// A fresh builder holds no expression and no error.
    pub proof fn lemma_empty_builder()
        ensures
            FilterExpressionBuilder::spec_empty().spec_expression() is None,
            FilterExpressionBuilder::spec_empty().spec_error() is None,
    {
    }

    /// `r` holds `e` when `e` fits the hard maximums, otherwise no expression
    /// and the limit error of `e`.
    pub open spec fn adopted(r: FilterExpressionBuilder, e: FilterExpression) -> bool {
        match spec_validate(e, FilterLimits::hard_max()) {
            Ok(()) => r.spec_expression() == Some(e) && r.spec_error() is None,
            Err(err) => r.spec_expression() is None && r.spec_error() == Some(err),
        }
    }

    /// `r` keeps the expression of `b` and records `err`.
    pub open spec fn failed(b: FilterExpressionBuilder, err: MetadataError, r: FilterExpressionBuilder) -> bool {
        r.spec_expression() == b.spec_expression() && r.spec_error() == Some(err)
    }

    /// `r` is `b` after appending condition `c` with AND.
    pub open spec fn appended(b: FilterExpressionBuilder, c: Condition, r: FilterExpressionBuilder) -> bool {
        if b.spec_error() is Some {
            r == b
        } else if c.spec_validate_limits(FilterLimits::hard_max()) is Err {
            FilterExpressionBuilder::failed(b, c.spec_validate_limits(FilterLimits::hard_max())->Err_0, r)
        } else if !c.spec_operands_valid() {
            &&& r.spec_expression() == b.spec_expression()
            &&& r.spec_error() matches Some(e) && is_first_operand_error(c, e)
        } else {
            exists|e: FilterExpression|
                joined(e, b.spec_expression(), FilterExpression::leaf(c), true) && #[trigger] FilterExpressionBuilder::adopted(
                    r,
                    e,
                )
        }
    }

    /// `r` is `b` after joining the group built in `g` with AND (or OR).
    pub open spec fn grouped(b: FilterExpressionBuilder, g: FilterExpressionBuilder, and: bool, r: FilterExpressionBuilder) -> bool {
        if b.spec_error() is Some {
            r == b
        } else if g.spec_error() is Some {
            FilterExpressionBuilder::failed(b, g.spec_error()->0, r)
        } else if g.spec_expression() is None {
            &&& r.spec_expression() == b.spec_expression()
            &&& r.spec_error() matches Some(MetadataError::InvalidFilterExpression { message }) && message@
                == empty_group_message(and)
        } else {
            exists|e: FilterExpression|
                joined(e, b.spec_expression(), g.spec_expression()->0, and) && #[trigger] FilterExpressionBuilder::adopted(
                    r,
                    e,
                )
        }
    }

    /// Creates an empty builder.
    pub(crate) fn new() -> (r: Self)
        ensures
            r == FilterExpressionBuilder::spec_empty(),
    {
        FilterExpressionBuilder { expression: None, error: None }
    }

    /// Keeps `expression` when it fits the hard maximums, otherwise records
    /// its limit error.
    fn adopt(expression: FilterExpression) -> (r: Self)
        ensures
            FilterExpressionBuilder::adopted(r, expression),
    {
        match expression.validate_limits(FilterLimits::max_limits()) {
            Ok(()) => FilterExpressionBuilder { expression: Some(expression), error: None },
            Err(error) => FilterExpressionBuilder { expression: None, error: Some(error) },
        }
    }

    /// Joins `next` onto the expression held so far.
    fn join(previous: Option<FilterExpression>, next: FilterExpression, and: bool) -> (r: FilterExpression)
        requires
            previous matches Some(p) ==> spec_validate(p, FilterLimits::hard_max()) is Ok,
            spec_validate(next, FilterLimits::hard_max()) is Ok,
        ensures
            joined(r, previous, next, and),
    {
        proof {
            FilterLimits::lemma_hard_max();
            lemma_validate_limits_exact(next, FilterLimits::hard_max());
            if previous is Some {
                lemma_validate_limits_exact(previous->0, FilterLimits::hard_max());
            }
        }
        match previous {
            Some(p) => if and {
                FilterExpression::and_unchecked(p, next)
            } else {
                FilterExpression::or_unchecked(p, next)
            },
            None => next,
        }
    }

    /// Appends `condition` with AND after checking its limits and operands.
    fn append(self, condition: Condition) -> (r: Self)
        ensures
            FilterExpressionBuilder::appended(self, condition, r),
    {
        proof {
            use_type_invariant(&self);
        }
        if self.error.is_some() {
            return self;
        }
        if let Err(error) = condition.validate_limits(FilterLimits::max_limits()) {
            return FilterExpressionBuilder { expression: self.expression, error: Some(error) };
        }
        let ghost c = condition;
        let next = match FilterExpression::condition(condition) {
            Ok(expression) => expression,
            Err(error) => {
                return FilterExpressionBuilder { expression: self.expression, error: Some(error) };
            },
        };
        proof {
            FilterLimits::lemma_hard_max();
            lemma_validate_limits_exact(next, FilterLimits::hard_max());
            crate::filter_expression::lemma_leaf_valid(c, FilterLimits::hard_max());
        }
        let expression = Self::join(self.expression, next, true);
        let r = Self::adopt(expression);
        assert(joined(expression, self.spec_expression(), FilterExpression::leaf(c), true));
        r
    }

    /// Joins the group built in `group` onto this builder with AND (or OR).
    fn combine_group(self, group: Self, and: bool) -> (r: Self)
        ensures
            FilterExpressionBuilder::grouped(self, group, and, r),
    {
        proof {
            use_type_invariant(&self);
            use_type_invariant(&group);
        }
        if self.error.is_some() {
            return self;
        }
        let next = match group.error {
            Some(error) => {
                return FilterExpressionBuilder { expression: self.expression, error: Some(error) };
            },
            None => match group.expression {
                Some(expression) => expression,
                None => {
                    let message = if and {
                        "AND group must contain at least one condition".to_owned()
                    } else {
                        "OR group must contain at least one condition".to_owned()
                    };
                    return FilterExpressionBuilder {
                        expression: self.expression,
                        error: Some(MetadataError::InvalidFilterExpression { message }),
                    };
                },
            },
        };
        let expression = Self::join(self.expression, next, and);
        let r = Self::adopt(expression);
        r
    }

    /// Builds the expression.
    ///
    /// Fails with the first recorded error, or with
    /// [`MetadataError::InvalidFilterExpression`] when no condition was added.
    pub fn build(self) -> (r: Result<FilterExpression, MetadataError>)
        ensures
            self.spec_error() matches Some(e) ==> r == Err::<FilterExpression, MetadataError>(e),
            self.spec_error() is None ==> (self.spec_expression() matches Some(x) ==> r == Ok::<
                FilterExpression,
                MetadataError,
            >(x)),
            self.spec_error() is None && self.spec_expression() is None ==> (r matches Err(
                MetadataError::InvalidFilterExpression { message },
            ) && message@ == "a filter expression must contain at least one condition"@),
            r matches Ok(x) ==> spec_validate(x, FilterLimits::hard_max()) is Ok,
    {
        proof {
            use_type_invariant(&self);
        }
        if let Some(error) = self.error {
            return Err(error);
        }
        let expression = match self.expression {
            Some(expression) => expression,
            None => {
                return Err(
                    MetadataError::InvalidFilterExpression {
                        message: "a filter expression must contain at least one condition".to_owned(),
                    },
                );
            },
        };
        match expression.validate_limits(FilterLimits::max_limits()) {
            Ok(()) => Ok(expression),
            Err(error) => Err(error),
        }
    }

    /// Adds the condition `key == value`.
    pub fn eq(self, key: &str, value: MetadataValue) -> (r: Self)
        ensures
            exists|c: Condition|
                c matches Condition::Equal { key: k, value: v } && k@ == key@ && v == value
                    && #[trigger] FilterExpressionBuilder::appended(self, c, r),
    {
        self.append(Condition::Equal { key: key.to_owned(), value })
    }

    /// Adds the condition `key != value`.
    pub fn ne(self, key: &str, value: MetadataValue) -> (r: Self)
        ensures
            exists|c: Condition|
                c matches Condition::NotEqual { key: k, value: v } && k@ == key@ && v == value
                    && #[trigger] FilterExpressionBuilder::appended(self, c, r),
    {
        self.append(Condition::NotEqual { key: key.to_owned(), value })
    }

    /// Adds the condition `key < value`.
    pub fn lt(self, key: &str, value: MetadataValue) -> (r: Self)
        ensures
            exists|c: Condition|
                c matches Condition::Less { key: k, value: v } && k@ == key@ && v == value
                    && #[trigger] FilterExpressionBuilder::appended(self, c, r),
    {
        self.append(Condition::Less { key: key.to_owned(), value })
    }

    /// Adds the condition `key <= value`.
    pub fn le(self, key: &str, value: MetadataValue) -> (r: Self)
        ensures
            exists|c: Condition|
                c matches Condition::LessEqual { key: k, value: v } && k@ == key@ && v == value
                    && #[trigger] FilterExpressionBuilder::appended(self, c, r),
    {
        self.append(Condition::LessEqual { key: key.to_owned(), value })
    }

    /// Adds the condition `key > value`.
    pub fn gt(self, key: &str, value: MetadataValue) -> (r: Self)
        ensures
            exists|c: Condition|
                c matches Condition::Greater { key: k, value: v } && k@ == key@ && v == value
                    && #[trigger] FilterExpressionBuilder::appended(self, c, r),
    {
        self.append(Condition::Greater { key: key.to_owned(), value })
    }

    /// Adds the condition `key >= value`.
    pub fn ge(self, key: &str, value: MetadataValue) -> (r: Self)
        ensures
            exists|c: Condition|
                c matches Condition::GreaterEqual { key: k, value: v } && k@ == key@ && v == value
                    && #[trigger] FilterExpressionBuilder::appended(self, c, r),
    {
        self.append(Condition::GreaterEqual { key: key.to_owned(), value })
    }

    /// Adds the condition that `key` exists with a concrete value.
    pub fn exists_key(self, key: &str) -> (r: Self)
        ensures
            exists|c: Condition|
                c matches Condition::Exists { key: k } && k@ == key@ && #[trigger] FilterExpressionBuilder::appended(
                    self,
                    c,
                    r,
                ),
    {
        self.append(Condition::Exists { key: key.to_owned() })
    }

    /// Adds the condition that `key` has no concrete value.
    pub fn not_exists(self, key: &str) -> (r: Self)
        ensures
            exists|c: Condition|
                c matches Condition::NotExists { key: k } && k@ == key@
                    && #[trigger] FilterExpressionBuilder::appended(self, c, r),
    {
        self.append(Condition::NotExists { key: key.to_owned() })
    }

    /// Checks a membership key and candidate count before the condition is
    /// built: the key against the hard key-byte maximum, then the candidates
    /// against the hard set maximum, reported as one past that maximum.
    fn membership_precheck(&self, key: &str, values: &Vec<MetadataValue>) -> (r: Option<MetadataError>)
        ensures
            r == (if key_len(key@) > FILTER_MAX_KEY_BYTES {
                Some(
                    MetadataError::FilterLimitExceeded {
                        kind: FilterLimitKind::KeyBytes,
                        value: key_len(key@) as usize,
                        maximum: FILTER_MAX_KEY_BYTES,
                    },
                )
            } else if values@.len() > FILTER_MAX_SET_VALUES {
                Some(
                    MetadataError::FilterLimitExceeded {
                        kind: FilterLimitKind::SetValues,
                        value: (FILTER_MAX_SET_VALUES + 1) as usize,
                        maximum: FILTER_MAX_SET_VALUES,
                    },
                )
            } else {
                None
            }),
    {
        let key_bytes = key.as_bytes().len();
        if key_bytes > FILTER_MAX_KEY_BYTES {
            return Some(
                MetadataError::FilterLimitExceeded {
                    kind: FilterLimitKind::KeyBytes,
                    value: key_bytes,
                    maximum: FILTER_MAX_KEY_BYTES,
                },
            );
        }
        if values.len() > FILTER_MAX_SET_VALUES {
            return Some(
                MetadataError::FilterLimitExceeded {
                    kind: FilterLimitKind::SetValues,
                    value: FILTER_MAX_SET_VALUES + 1,
                    maximum: FILTER_MAX_SET_VALUES,
                },
            );
        }
        None
    }

    /// Adds the condition that the value of `key` is one of `values`.
    pub fn in_set(self, key: &str, values: Vec<MetadataValue>) -> (r: Self)
        ensures
            self.spec_error() is Some ==> r == self,
            self.spec_error() is None && key_len(key@) > FILTER_MAX_KEY_BYTES ==> FilterExpressionBuilder::failed(
                self,
                MetadataError::FilterLimitExceeded {
                    kind: FilterLimitKind::KeyBytes,
                    value: key_len(key@) as usize,
                    maximum: FILTER_MAX_KEY_BYTES,
                },
                r,
            ),
            self.spec_error() is None && key_len(key@) <= FILTER_MAX_KEY_BYTES && values@.len()
                > FILTER_MAX_SET_VALUES ==> FilterExpressionBuilder::failed(
                self,
                MetadataError::FilterLimitExceeded {
                    kind: FilterLimitKind::SetValues,
                    value: (FILTER_MAX_SET_VALUES + 1) as usize,
                    maximum: FILTER_MAX_SET_VALUES,
                },
                r,
            ),
            self.spec_error() is None && key_len(key@) <= FILTER_MAX_KEY_BYTES && values@.len()
                <= FILTER_MAX_SET_VALUES ==> exists|c: Condition|
                c matches Condition::In { key: k, values: v } && k@ == key@ && v@ == values@
                    && #[trigger] FilterExpressionBuilder::appended(self, c, r),
    {
        if self.error.is_some() {
            return self;
        }
        if let Some(error) = self.membership_precheck(key, &values) {
            proof {
                use_type_invariant(&self);
            }
            return FilterExpressionBuilder { expression: self.expression, error: Some(error) };
        }
        self.append(Condition::In { key: key.to_owned(), values })
    }

    /// Adds the condition that the value of `key` is none of `values`.
    pub fn not_in_set(self, key: &str, values: Vec<MetadataValue>) -> (r: Self)
        ensures
            self.spec_error() is Some ==> r == self,
            self.spec_error() is None && key_len(key@) > FILTER_MAX_KEY_BYTES ==> FilterExpressionBuilder::failed(
                self,
                MetadataError::FilterLimitExceeded {
                    kind: FilterLimitKind::KeyBytes,
                    value: key_len(key@) as usize,
                    maximum: FILTER_MAX_KEY_BYTES,
                },
                r,
            ),
            self.spec_error() is None && key_len(key@) <= FILTER_MAX_KEY_BYTES && values@.len()
                > FILTER_MAX_SET_VALUES ==> FilterExpressionBuilder::failed(
                self,
                MetadataError::FilterLimitExceeded {
                    kind: FilterLimitKind::SetValues,
                    value: (FILTER_MAX_SET_VALUES + 1) as usize,
                    maximum: FILTER_MAX_SET_VALUES,
                },
                r,
            ),
            self.spec_error() is None && key_len(key@) <= FILTER_MAX_KEY_BYTES && values@.len()
                <= FILTER_MAX_SET_VALUES ==> exists|c: Condition|
                c matches Condition::NotIn { key: k, values: v } && k@ == key@ && v@ == values@
                    && #[trigger] FilterExpressionBuilder::appended(self, c, r),
    {
        if self.error.is_some() {
            return self;
        }
        if let Some(error) = self.membership_precheck(key, &values) {
            proof {
                use_type_invariant(&self);
            }
            return FilterExpressionBuilder { expression: self.expression, error: Some(error) };
        }
        self.append(Condition::NotIn { key: key.to_owned(), values })
    }

    /// Adds a nested group, built by `build` from an empty builder, joined
    /// with AND.
    pub fn and_group<F: FnOnce(FilterExpressionBuilder) -> FilterExpressionBuilder>(self, build: F) -> (r: Self)
        requires
            call_requires(build, (FilterExpressionBuilder::spec_empty(),)),
        ensures
            self.spec_error() is Some ==> r == self,
            self.spec_error() is None ==> exists|g: FilterExpressionBuilder|
                call_ensures(build, (FilterExpressionBuilder::spec_empty(),), g)
                    && #[trigger] FilterExpressionBuilder::grouped(self, g, true, r),
    {
        if self.error.is_some() {
            return self;
        }
        let group = build(Self::new());
        self.combine_group(group, true)
    }

    /// Adds a nested group, built by `build` from an empty builder, joined
    /// with OR.
    pub fn or_group<F: FnOnce(FilterExpressionBuilder) -> FilterExpressionBuilder>(self, build: F) -> (r: Self)
        requires
            call_requires(build, (FilterExpressionBuilder::spec_empty(),)),
        ensures
            self.spec_error() is Some ==> r == self,
            self.spec_error() is None ==> exists|g: FilterExpressionBuilder|
                call_ensures(build, (FilterExpressionBuilder::spec_empty(),), g)
                    && #[trigger] FilterExpressionBuilder::grouped(self, g, false, r),
    {
        if self.error.is_some() {
            return self;
        }
        let group = build(Self::new());
        self.combine_group(group, false)
    }

    /// Negates the expression built so far.
    ///
    /// Records [`MetadataError::InvalidFilterExpression`] when nothing was
    /// added yet.
    pub fn not(self) -> (r: Self)
        ensures
            self.spec_error() is Some ==> r == self,
            self.spec_error() is None && self.spec_expression() is None ==> r.spec_expression() is None,
            self.spec_error() is None && self.spec_expression() is None ==> (r.spec_error() matches Some(
                MetadataError::InvalidFilterExpression { message },
            ) && message@ == "cannot negate an empty filter expression"@),
            self.spec_error() is None ==> (self.spec_expression() matches Some(x) ==> exists|e: FilterExpression|
                is_negation_of(e, x) && #[trigger] FilterExpressionBuilder::adopted(r, e)),
    {
        proof {
            use_type_invariant(&self);
        }
        if self.error.is_some() {
            return self;
        }
        let expression = match self.expression {
            Some(expression) => expression,
            None => {
                return FilterExpressionBuilder {
                    expression: None,
                    error: Some(
                        MetadataError::InvalidFilterExpression {
                            message: "cannot negate an empty filter expression".to_owned(),
                        },
                    ),
                };
            },
        };
        proof {
            FilterLimits::lemma_hard_max();
            lemma_validate_limits_exact(expression, FilterLimits::hard_max());
        }
        let negated = expression.negated_unchecked();
        Self::adopt(negated)
    }
}

impl Default for FilterExpressionBuilder {
    /// An empty builder.
    fn default() -> (r: Self)
        ensures
            r == FilterExpressionBuilder::spec_empty(),
    {
        Self::new()
    }
}

impl FilterExpression {
    /// Creates a builder for a non-empty filter expression.
    pub fn builder() -> (r: FilterExpressionBuilder)
        ensures
            r == FilterExpressionBuilder::spec_empty(),
            r.spec_expression() is None,
            r.spec_error() is None,
    {
        FilterExpressionBuilder::new()
    }
}

} // verus!
