use vstd::prelude::*;

use crate::filter_limit_kind::FilterLimitKind;
use crate::expression_shape::{ConditionKind, ConditionShape};
use crate::filter_limits::FilterLimits;
use crate::match_outcome::{outcome_of, MatchOutcome};
use crate::metadata::{key_len, Metadata};
use crate::metadata_error::MetadataError;
use crate::value::{
    compare_values, spec_compare_values, spec_values_equal, values_equal, MetadataValue,
    NumericComparisonPolicy, ValueModel, ValueOrdering,
};

verus! {

/// A single comparison applied to one metadata key.
///
/// Equality, range, and membership conditions need a concrete stored value:
/// an absent key or an unset value gives an unknown outcome. Existence
/// conditions define presence as holding a concrete value.
#[derive(Debug, PartialEq)]
pub enum Condition {
    /// Key equals value.
    Equal {
        /// The metadata key.
        key: String,
        /// The expected value.
        value: MetadataValue,
    },
    /// Key does not equal value.
    NotEqual {
        /// The metadata key.
        key: String,
        /// The value to compare against.
        value: MetadataValue,
    },
    /// Key is less than value.
    Less {
        /// The metadata key.
        key: String,
        /// The exclusive upper bound.
        value: MetadataValue,
    },
    /// Key is less than or equal to value.
    LessEqual {
        /// The metadata key.
        key: String,
        /// The inclusive upper bound.
        value: MetadataValue,
    },
    /// Key is greater than value.
    Greater {
        /// The metadata key.
        key: String,
        /// The exclusive lower bound.
        value: MetadataValue,
    },
    /// Key is greater than or equal to value.
    GreaterEqual {
        /// The metadata key.
        key: String,
        /// The inclusive lower bound.
        value: MetadataValue,
    },
    /// The stored value is one of the listed candidates.
    In {
        /// The metadata key.
        key: String,
        /// The acceptable values.
        values: Vec<MetadataValue>,
    },
    /// The stored value is none of the listed candidates.
    NotIn {
        /// The metadata key.
        key: String,
        /// The excluded values.
        values: Vec<MetadataValue>,
    },
    /// The key stores a concrete value.
    Exists {
        /// The metadata key.
        key: String,
    },
    /// The key does not store a concrete value.
    NotExists {
        /// The metadata key.
        key: String,
    },
}

/// The concrete value stored under `k`: `None` when absent or unset.
pub open spec fn concrete(m: Map<Seq<char>, ValueModel>, k: Seq<char>) -> Option<ValueModel> {
    if m.contains_key(k) && !m[k].is_unset() {
        Some(m[k])
    } else {
        None
    }
}

/// The views of a list of values.
pub open spec fn value_models(values: Seq<MetadataValue>) -> Seq<ValueModel> {
    values.map_values(|v: MetadataValue| v@)
}

/// Membership of `stored` among `candidates`: a matching candidate decides
/// (true for `In`, false for `NotIn`); otherwise an incomparable candidate
/// makes the outcome unknown; otherwise the opposite of a match.
pub open spec fn spec_membership(stored: ValueModel, candidates: Seq<ValueModel>, negated: bool) -> MatchOutcome {
    if exists|i: int| 0 <= i < candidates.len() && spec_values_equal(stored, #[trigger] candidates[i]) == Some(true) {
        outcome_of(!negated)
    } else if exists|i: int| 0 <= i < candidates.len() && spec_values_equal(stored, #[trigger] candidates[i]) is None {
        MatchOutcome::Unknown
    } else {
        outcome_of(negated)
    }
}

/// The outcome of an equality test on a concrete value.
pub open spec fn equality_outcome(stored: ValueModel, operand: ValueModel, negated: bool) -> MatchOutcome {
    match spec_values_equal(stored, operand) {
        Some(equal) => outcome_of(equal != negated),
        None => MatchOutcome::Unknown,
    }
}

/// The outcome of an ordering test: true when the ordering is one of the
/// accepted orderings.
pub open spec fn ordering_outcome(
    stored: ValueModel,
    operand: ValueModel,
    accept_less: bool,
    accept_equal: bool,
    accept_greater: bool,
) -> MatchOutcome {
    match spec_compare_values(stored, operand) {
        Some(ValueOrdering::Less) => outcome_of(accept_less),
        Some(ValueOrdering::Equal) => outcome_of(accept_equal),
        Some(ValueOrdering::Greater) => outcome_of(accept_greater),
        None => MatchOutcome::Unknown,
    }
}

/// Unknown when no concrete value is stored, otherwise `f` of it.
pub open spec fn on_concrete(
    m: Map<Seq<char>, ValueModel>,
    k: Seq<char>,
    f: spec_fn(ValueModel) -> MatchOutcome,
) -> MatchOutcome {
    match concrete(m, k) {
        Some(v) => f(v),
        None => MatchOutcome::Unknown,
    }
}

impl Condition {
    /// The metadata key referenced by this condition.
    pub open spec fn spec_key(self) -> Seq<char> {
        match self {
            Condition::Equal { key, .. } => key@,
            Condition::NotEqual { key, .. } => key@,
            Condition::Less { key, .. } => key@,
            Condition::LessEqual { key, .. } => key@,
            Condition::Greater { key, .. } => key@,
            Condition::GreaterEqual { key, .. } => key@,
            Condition::In { key, .. } => key@,
            Condition::NotIn { key, .. } => key@,
            Condition::Exists { key } => key@,
            Condition::NotExists { key } => key@,
        }
    }

    /// The three-valued outcome of this condition on a metadata map.
    pub open spec fn spec_evaluate(self, m: Map<Seq<char>, ValueModel>) -> MatchOutcome {
        match self {
            Condition::Equal { key, value } => on_concrete(m, key@, |s| equality_outcome(s, value@, false)),
            Condition::NotEqual { key, value } => on_concrete(m, key@, |s| equality_outcome(s, value@, true)),
            Condition::Less { key, value } => on_concrete(
                m,
                key@,
                |s| ordering_outcome(s, value@, true, false, false),
            ),
            Condition::LessEqual { key, value } => on_concrete(
                m,
                key@,
                |s| ordering_outcome(s, value@, true, true, false),
            ),
            Condition::Greater { key, value } => on_concrete(
                m,
                key@,
                |s| ordering_outcome(s, value@, false, false, true),
            ),
            Condition::GreaterEqual { key, value } => on_concrete(
                m,
                key@,
                |s| ordering_outcome(s, value@, false, true, true),
            ),
            Condition::In { key, values } => on_concrete(
                m,
                key@,
                |s| spec_membership(s, value_models(values@), false),
            ),
            Condition::NotIn { key, values } => on_concrete(
                m,
                key@,
                |s| spec_membership(s, value_models(values@), true),
            ),
            Condition::Exists { key } => outcome_of(concrete(m, key@) is Some),
            Condition::NotExists { key } => outcome_of(concrete(m, key@) is None),
        }
    }

    /// The operands of this condition, in order.
    pub open spec fn spec_operands(self) -> Seq<ValueModel> {
        match self {
            Condition::Equal { value, .. } => seq![value@],
            Condition::NotEqual { value, .. } => seq![value@],
            Condition::Less { value, .. } => seq![value@],
            Condition::LessEqual { value, .. } => seq![value@],
            Condition::Greater { value, .. } => seq![value@],
            Condition::GreaterEqual { value, .. } => seq![value@],
            Condition::In { values, .. } => value_models(values@),
            Condition::NotIn { values, .. } => value_models(values@),
            Condition::Exists { .. } => Seq::empty(),
            Condition::NotExists { .. } => Seq::empty(),
        }
    }

    /// The comparison of this condition.
    pub open spec fn spec_kind(self) -> ConditionKind {
        match self {
            Condition::Equal { .. } => ConditionKind::Equal,
            Condition::NotEqual { .. } => ConditionKind::NotEqual,
            Condition::Less { .. } => ConditionKind::Less,
            Condition::LessEqual { .. } => ConditionKind::LessEqual,
            Condition::Greater { .. } => ConditionKind::Greater,
            Condition::GreaterEqual { .. } => ConditionKind::GreaterEqual,
            Condition::In { .. } => ConditionKind::In,
            Condition::NotIn { .. } => ConditionKind::NotIn,
            Condition::Exists { .. } => ConditionKind::Exists,
            Condition::NotExists { .. } => ConditionKind::NotExists,
        }
    }

    /// The mathematical content of this condition.
    pub open spec fn spec_shape(self) -> ConditionShape {
        ConditionShape { kind: self.spec_kind(), key: self.spec_key(), operands: self.spec_operands() }
    }

    /// The stable operator name of this condition.
    pub open spec fn spec_operator(self) -> Seq<char> {
        match self {
            Condition::Equal { .. } => "eq"@,
            Condition::NotEqual { .. } => "ne"@,
            Condition::Less { .. } => "lt"@,
            Condition::LessEqual { .. } => "le"@,
            Condition::Greater { .. } => "gt"@,
            Condition::GreaterEqual { .. } => "ge"@,
            Condition::In { .. } => "in_set"@,
            Condition::NotIn { .. } => "not_in_set"@,
            Condition::Exists { .. } => "exists"@,
            Condition::NotExists { .. } => "not_exists"@,
        }
    }

    /// Whether all operands are concrete values.
    pub open spec fn spec_operands_valid(self) -> bool {
        forall|i: int| 0 <= i < self.spec_operands().len() ==> !(#[trigger] self.spec_operands()[i]).is_unset()
    }

    /// Limit validation: the key first, then the number of candidates.
    pub open spec fn spec_validate_limits(self, limits: FilterLimits) -> Result<(), MetadataError> {
        if key_len(self.spec_key()) > limits.spec_max_key_bytes() {
            Err(
                MetadataError::FilterLimitExceeded {
                    kind: FilterLimitKind::KeyBytes,
                    value: key_len(self.spec_key()) as usize,
                    maximum: limits.spec_max_key_bytes(),
                },
            )
        } else {
            match self {
                Condition::In { values, .. } | Condition::NotIn { values, .. } => {
                    if values@.len() > limits.spec_max_set_values() {
                        Err(
                            MetadataError::FilterLimitExceeded {
                                kind: FilterLimitKind::SetValues,
                                value: values@.len() as usize,
                                maximum: limits.spec_max_set_values(),
                            },
                        )
                    } else {
                        Ok(())
                    }
                },
                _ => Ok(()),
            }
        }
    }
}

/// The first position holding an unset value.
pub open spec fn first_unset(ops: Seq<ValueModel>, i: int) -> bool {
    &&& 0 <= i < ops.len()
    &&& ops[i].is_unset()
    &&& forall|j: int| 0 <= j < i ==> !(#[trigger] ops[j]).is_unset()
}

/// The rejection of an unset operand of `operator`.
pub open spec fn is_operand_error(e: MetadataError, operator: Seq<char>, operand: ValueModel) -> bool {
    e matches MetadataError::InvalidFilterOperand { operator: op, data_type, message } && op@ == operator
        && data_type == operand.data_type() && message@ == "filter operands must be concrete values"@
}

/// Rejects an unset operand.
fn validate_operand(operator: &'static str, value: &MetadataValue) -> (r: Result<(), MetadataError>)
    ensures
        r is Ok <==> !value@.is_unset(),
        r matches Err(e) ==> is_operand_error(e, operator@, value@),
{
    if value.is_unset() {
        return Err(
            MetadataError::InvalidFilterOperand {
                operator,
                data_type: value.data_type(),
                message: "filter operands must be concrete values".to_owned(),
            },
        );
    }
    Ok(())
}

/// Rejects the first unset candidate of a membership condition.
fn validate_operand_list(operator: &'static str, values: &Vec<MetadataValue>) -> (r: Result<(), MetadataError>)
    ensures
        r is Ok <==> forall|i: int| 0 <= i < values@.len() ==> !(#[trigger] values@[i])@.is_unset(),
        r matches Err(e) ==> exists|i: int|
            first_unset(value_models(values@), i) && is_operand_error(e, operator@, values@[i]@),
{
    let mut i: usize = 0;
    while i < values.len()
        invariant
            i <= values@.len(),
            forall|j: int| 0 <= j < i ==> !(#[trigger] values@[j])@.is_unset(),
        decreases values.len() - i,
    {
        let r = validate_operand(operator, &values[i]);
        if r.is_err() {
            proof {
                let ops = value_models(values@);
                assert forall|j: int| 0 <= j < i implies !(#[trigger] ops[j]).is_unset() by {
                    assert(ops[j] == values@[j]@);
                }
                assert(first_unset(ops, i as int));
            }
            return r;
        }
        i = i + 1;
    }
    Ok(())
}

impl Condition {
    /// Validates that every operand is a concrete value.
    ///
    /// The first unset operand (in order) is rejected with
    /// [`MetadataError::InvalidFilterOperand`].
    pub fn validate_operands(&self) -> (r: Result<(), MetadataError>)
        ensures
            r is Ok <==> self.spec_operands_valid(),
            r matches Err(e) ==> exists|i: int|
                first_unset(self.spec_operands(), i) && is_operand_error(
                    e,
                    self.spec_operator(),
                    self.spec_operands()[i],
                ),
    {
        let r = match self {
            Condition::Equal { value, .. } => validate_operand("eq", value),
            Condition::NotEqual { value, .. } => validate_operand("ne", value),
            Condition::Less { value, .. } => validate_operand("lt", value),
            Condition::LessEqual { value, .. } => validate_operand("le", value),
            Condition::Greater { value, .. } => validate_operand("gt", value),
            Condition::GreaterEqual { value, .. } => validate_operand("ge", value),
            Condition::In { values, .. } => validate_operand_list("in_set", values),
            Condition::NotIn { values, .. } => validate_operand_list("not_in_set", values),
            Condition::Exists { .. } | Condition::NotExists { .. } => Ok(()),
        };
        proof {
            match self {
                Condition::In { values, .. } | Condition::NotIn { values, .. } => {
                    let ops = value_models(values@);
                    assert forall|i: int| 0 <= i < ops.len() implies ops[i] == values@[i]@ by {}
                },
                _ => {
                    if r is Err {
                        assert(first_unset(self.spec_operands(), 0));
                    }
                },
            }
        }
        r
    }

    /// Returns the key of this condition.
    pub fn key(&self) -> (r: &str)
        ensures
            r@ == self.spec_key(),
    {
        match self {
            Condition::Equal { key, .. } => key.as_str(),
            Condition::NotEqual { key, .. } => key.as_str(),
            Condition::Less { key, .. } => key.as_str(),
            Condition::LessEqual { key, .. } => key.as_str(),
            Condition::Greater { key, .. } => key.as_str(),
            Condition::GreaterEqual { key, .. } => key.as_str(),
            Condition::In { key, .. } => key.as_str(),
            Condition::NotIn { key, .. } => key.as_str(),
            Condition::Exists { key } => key.as_str(),
            Condition::NotExists { key } => key.as_str(),
        }
    }

    /// Validates the key length and the number of membership candidates
    /// against `limits`, the key first.
    pub fn validate_limits(&self, limits: FilterLimits) -> (r: Result<(), MetadataError>)
        ensures
            r == self.spec_validate_limits(limits),
    {
        let key_bytes = self.key().as_bytes().len();
        if key_bytes > limits.max_key_bytes() {
            return Err(
                MetadataError::FilterLimitExceeded {
                    kind: FilterLimitKind::KeyBytes,
                    value: key_bytes,
                    maximum: limits.max_key_bytes(),
                },
            );
        }
        match self {
            Condition::In { values, .. } | Condition::NotIn { values, .. } => {
                if values.len() > limits.max_set_values() {
                    return Err(
                        MetadataError::FilterLimitExceeded {
                            kind: FilterLimitKind::SetValues,
                            value: values.len(),
                            maximum: limits.max_set_values(),
                        },
                    );
                }
                Ok(())
            },
            _ => Ok(()),
        }
    }

    /// Evaluates this condition against `meta` under the numeric policy.
    pub fn evaluate(&self, meta: &Metadata, policy: NumericComparisonPolicy) -> (r: MatchOutcome)
        ensures
            r == self.spec_evaluate(meta@),
    {
        match self {
            Condition::Equal { key, value } => match concrete_value(meta, key.as_str()) {
                Some(stored) => match values_equal(stored, value, policy) {
                    Some(equal) => MatchOutcome::from_bool(equal),
                    None => MatchOutcome::Unknown,
                },
                None => MatchOutcome::Unknown,
            },
            Condition::NotEqual { key, value } => match concrete_value(meta, key.as_str()) {
                Some(stored) => match values_equal(stored, value, policy) {
                    Some(equal) => MatchOutcome::from_bool(!equal),
                    None => MatchOutcome::Unknown,
                },
                None => MatchOutcome::Unknown,
            },
            Condition::Less { key, value } => match concrete_value(meta, key.as_str()) {
                Some(stored) => ordering_match(compare_values(stored, value, policy), true, false, false),
                None => MatchOutcome::Unknown,
            },
            Condition::LessEqual { key, value } => match concrete_value(meta, key.as_str()) {
                Some(stored) => ordering_match(compare_values(stored, value, policy), true, true, false),
                None => MatchOutcome::Unknown,
            },
            Condition::Greater { key, value } => match concrete_value(meta, key.as_str()) {
                Some(stored) => ordering_match(compare_values(stored, value, policy), false, false, true),
                None => MatchOutcome::Unknown,
            },
            Condition::GreaterEqual { key, value } => match concrete_value(meta, key.as_str()) {
                Some(stored) => ordering_match(compare_values(stored, value, policy), false, true, true),
                None => MatchOutcome::Unknown,
            },
            Condition::In { key, values } => match concrete_value(meta, key.as_str()) {
                Some(stored) => evaluate_membership(stored, values, policy, false),
                None => MatchOutcome::Unknown,
            },
            Condition::NotIn { key, values } => match concrete_value(meta, key.as_str()) {
                Some(stored) => evaluate_membership(stored, values, policy, true),
                None => MatchOutcome::Unknown,
            },
            Condition::Exists { key } => MatchOutcome::from_bool(concrete_value(meta, key.as_str()).is_some()),
            Condition::NotExists { key } => MatchOutcome::from_bool(concrete_value(meta, key.as_str()).is_none()),
        }
    }
}

/// The outcome for an optional ordering and the accepted orderings.
fn ordering_match(
    ordering: Option<ValueOrdering>,
    accept_less: bool,
    accept_equal: bool,
    accept_greater: bool,
) -> (r: MatchOutcome)
    ensures
        r == match ordering {
            Some(ValueOrdering::Less) => outcome_of(accept_less),
            Some(ValueOrdering::Equal) => outcome_of(accept_equal),
            Some(ValueOrdering::Greater) => outcome_of(accept_greater),
            None => MatchOutcome::Unknown,
        },
{
    match ordering {
        Some(ValueOrdering::Less) => MatchOutcome::from_bool(accept_less),
        Some(ValueOrdering::Equal) => MatchOutcome::from_bool(accept_equal),
        Some(ValueOrdering::Greater) => MatchOutcome::from_bool(accept_greater),
        None => MatchOutcome::Unknown,
    }
}

/// The concrete value stored under `key`, or `None` when absent or unset.
fn concrete_value<'a>(meta: &'a Metadata, key: &str) -> (r: Option<&'a MetadataValue>)
    ensures
        match r {
            Some(v) => concrete(meta@, key@) == Some(v@),
            None => concrete(meta@, key@) is None,
        },
{
    match meta.get_raw(key) {
        Some(v) => if v.is_unset() {
            None
        } else {
            Some(v)
        },
        None => None,
    }
}

/// Evaluates one membership condition, keeping incomparable candidates
/// unknown when no candidate matches.
fn evaluate_membership(
    stored: &MetadataValue,
    candidates: &Vec<MetadataValue>,
    policy: NumericComparisonPolicy,
    negated: bool,
) -> (r: MatchOutcome)
    ensures
        r == spec_membership(stored@, value_models(candidates@), negated),
{
    let ghost models = value_models(candidates@);
    let mut unknown = false;
    let mut i: usize = 0;
    while i < candidates.len()
        invariant
            i <= candidates@.len(),
            models == value_models(candidates@),
            forall|j: int| 0 <= j < i ==> spec_values_equal(stored@, #[trigger] models[j]) != Some(true),
            unknown <==> exists|j: int| 0 <= j < i && spec_values_equal(stored@, #[trigger] models[j]) is None,
        decreases candidates.len() - i,
    {
        let r = values_equal(stored, &candidates[i], policy);
        assert(models[i as int] == candidates@[i as int]@);
        match r {
            Some(true) => {
                return MatchOutcome::from_bool(!negated);
            },
            Some(false) => {},
            None => {
                unknown = true;
            },
        }
        i = i + 1;
    }
    if unknown {
        MatchOutcome::Unknown
    } else {
        MatchOutcome::from_bool(negated)
    }
}

/// Conditions with the same comparison, key and operands behave alike: they
/// evaluate identically on every metadata map, pass or fail the same limit
/// checks, and accept or reject the same operands.
pub proof fn lemma_same_shape(a: Condition, b: Condition)
    requires
        a.spec_shape() == b.spec_shape(),
    ensures
        forall|m: Map<Seq<char>, ValueModel>| #[trigger] a.spec_evaluate(m) == b.spec_evaluate(m),
        forall|l: FilterLimits| #[trigger] a.spec_validate_limits(l) == b.spec_validate_limits(l),
        a.spec_operands_valid() == b.spec_operands_valid(),
        a.spec_operator() == b.spec_operator(),
{
    assert(a.spec_operands() == b.spec_operands());
    match (a, b) {
        (Condition::Equal { value: x, .. }, Condition::Equal { value: y, .. })
        | (Condition::NotEqual { value: x, .. }, Condition::NotEqual { value: y, .. })
        | (Condition::Less { value: x, .. }, Condition::Less { value: y, .. })
        | (Condition::LessEqual { value: x, .. }, Condition::LessEqual { value: y, .. })
        | (Condition::Greater { value: x, .. }, Condition::Greater { value: y, .. })
        | (Condition::GreaterEqual { value: x, .. }, Condition::GreaterEqual { value: y, .. }) => {
            assert(seq![x@][0] == seq![y@][0]);
        },
        (Condition::In { values: x, .. }, Condition::In { values: y, .. })
        | (Condition::NotIn { values: x, .. }, Condition::NotIn { values: y, .. }) => {
            assert(value_models(x@).len() == x@.len());
            assert(value_models(y@).len() == y@.len());
        },
        _ => {},
    }
}

/// Copies a list of values one by one.
fn copy_values(values: &Vec<MetadataValue>) -> (r: Vec<MetadataValue>)
    ensures
        value_models(r@) == value_models(values@),
{
    let mut r: Vec<MetadataValue> = Vec::new();
    let mut i: usize = 0;
    while i < values.len()
        invariant
            i <= values@.len(),
            r@.len() == i,
            forall|j: int| 0 <= j < i ==> (#[trigger] r@[j])@ == values@[j]@,
        decreases values.len() - i,
    {
        r.push(values[i].clone());
        i = i + 1;
    }
    assert(value_models(r@) =~= value_models(values@));
    r
}

impl Clone for Condition {
    /// Copies the condition; the copy has the same comparison, key and
    /// operands.
    fn clone(&self) -> (r: Self)
        ensures
            r.spec_shape() == self.spec_shape(),
    {
        match self {
            Condition::Equal { key, value } => Condition::Equal { key: key.clone(), value: value.clone() },
            Condition::NotEqual { key, value } => Condition::NotEqual { key: key.clone(), value: value.clone() },
            Condition::Less { key, value } => Condition::Less { key: key.clone(), value: value.clone() },
            Condition::LessEqual { key, value } => Condition::LessEqual { key: key.clone(), value: value.clone() },
            Condition::Greater { key, value } => Condition::Greater { key: key.clone(), value: value.clone() },
            Condition::GreaterEqual { key, value } => Condition::GreaterEqual {
                key: key.clone(),
                value: value.clone(),
            },
            Condition::In { key, values } => Condition::In { key: key.clone(), values: copy_values(values) },
            Condition::NotIn { key, values } => Condition::NotIn { key: key.clone(), values: copy_values(values) },
            Condition::Exists { key } => Condition::Exists { key: key.clone() },
            Condition::NotExists { key } => Condition::NotExists { key: key.clone() },
        }
    }
}

} // verus!
