use vstd::prelude::*;

use crate::condition::{first_unset, is_operand_error, Condition};
use crate::expression_shape::{
    child_ok, is_constant, lemma_normal_children, normal, shape_fold, shape_not, ConditionKind, ConditionShape,
    ExprShape,
};
use crate::filter_expression::{
    conditions_within, lemma_and_metrics, lemma_constant_conditions, lemma_leaf_conditions, lemma_negation_metrics,
    lemma_or_metrics, tree_depth,
    lemma_children_decrease, lemma_shape_unfold, lemma_shapes_index, shapes, FilterExpressionNode, FilterExpressionView,
    lemma_and_shape, lemma_negation_shape, lemma_or_shape, shape, spec_validate, tree_nodes, FilterExpression,
};
use crate::filter_limit_kind::FilterLimitKind;
use crate::filter_limits::FilterLimits;
use crate::metadata::key_len;
use crate::metadata_error::MetadataError;
use crate::value::{DataType, MetadataValue, ValueModel};

verus! {

/// A value carried by the filter wire format: one scalar, or a collection,
/// which filters do not accept.
#[derive(Debug, Clone, PartialEq)]
pub enum WireValue {
    /// One scalar value.
    Scalar(MetadataValue),
    /// A homogeneous collection of the given element type.
    Collection(DataType),
}

/// The version 1 wire form of a filter expression, node by node as written.
#[derive(Debug, PartialEq)]
pub enum FilterExpressionWireV1 {
    /// Constant true.
    All,
    /// Constant false.
    Nothing,
    /// `key == value`.
    Eq {
        /// The key.
        key: String,
        /// The operand.
        value: WireValue,
    },
    /// `key != value`.
    Ne {
        /// The key.
        key: String,
        /// The operand.
        value: WireValue,
    },
    /// `key < value`.
    Lt {
        /// The key.
        key: String,
        /// The operand.
        value: WireValue,
    },
    /// `key <= value`.
    Le {
        /// The key.
        key: String,
        /// The operand.
        value: WireValue,
    },
    /// `key > value`.
    Gt {
        /// The key.
        key: String,
        /// The operand.
        value: WireValue,
    },
    /// `key >= value`.
    Ge {
        /// The key.
        key: String,
        /// The operand.
        value: WireValue,
    },
    /// The value of `key` is one of `values`.
    In {
        /// The key.
        key: String,
        /// The candidates.
        values: Vec<WireValue>,
    },
    /// The value of `key` is none of `values`.
    NotIn {
        /// The key.
        key: String,
        /// The candidates.
        values: Vec<WireValue>,
    },
    /// `key` holds a concrete value.
    Exists {
        /// The key.
        key: String,
    },
    /// `key` holds no concrete value.
    NotExists {
        /// The key.
        key: String,
    },
    /// Conjunction of the children.
    And {
        /// The children.
        children: Vec<FilterExpressionWireV1>,
    },
    /// Disjunction of the children.
    Or {
        /// The children.
        children: Vec<FilterExpressionWireV1>,
    },
    /// Negation.
    Not {
        /// The negated expression.
        expression: Box<FilterExpressionWireV1>,
    },
}

/// Why a wire tree cannot become a filter expression.
pub enum WireFault {
    /// A value is a collection.
    NonScalar,
    /// An AND (`true`) or OR (`false`) group has fewer than two children.
    ShortGroup(bool),
    /// An operand of the named operator is unset.
    Operand(Seq<char>, ValueModel),
}

/// The model of one operand: `None` for a collection.
pub open spec fn scalar_model(v: WireValue) -> Option<ValueModel> {
    match v {
        WireValue::Scalar(x) => Some(x@),
        WireValue::Collection(_) => None,
    }
}

/// The models of a list of operands: `None` when any is a collection.
pub open spec fn scalar_models(values: Seq<WireValue>) -> Option<Seq<ValueModel>> {
    if forall|i: int| 0 <= i < values.len() ==> (#[trigger] values[i]) is Scalar {
        Some(values.map_values(|v: WireValue| v->Scalar_0@))
    } else {
        None
    }
}

/// The single operand list of a one-operand condition.
pub open spec fn single_operand(v: WireValue) -> Option<Seq<ValueModel>> {
    match scalar_model(v) {
        Some(x) => Some(seq![x]),
        None => None,
    }
}

/// A leaf of the wire tree as (comparison, key, operand models); the operand
/// models are `None` when an operand is a collection.
pub open spec fn wire_leaf(w: FilterExpressionWireV1) -> Option<(ConditionKind, Seq<char>, Option<Seq<ValueModel>>)> {
    match w {
        FilterExpressionWireV1::Eq { key, value } => Some((ConditionKind::Equal, key@, single_operand(value))),
        FilterExpressionWireV1::Ne { key, value } => Some((ConditionKind::NotEqual, key@, single_operand(value))),
        FilterExpressionWireV1::Lt { key, value } => Some((ConditionKind::Less, key@, single_operand(value))),
        FilterExpressionWireV1::Le { key, value } => Some((ConditionKind::LessEqual, key@, single_operand(value))),
        FilterExpressionWireV1::Gt { key, value } => Some((ConditionKind::Greater, key@, single_operand(value))),
        FilterExpressionWireV1::Ge { key, value } => Some(
            (ConditionKind::GreaterEqual, key@, single_operand(value)),
        ),
        FilterExpressionWireV1::In { key, values } => Some((ConditionKind::In, key@, scalar_models(values@))),
        FilterExpressionWireV1::NotIn { key, values } => Some((ConditionKind::NotIn, key@, scalar_models(values@))),
        FilterExpressionWireV1::Exists { key } => Some((ConditionKind::Exists, key@, Some(Seq::empty()))),
        FilterExpressionWireV1::NotExists { key } => Some((ConditionKind::NotExists, key@, Some(Seq::empty()))),
        _ => None,
    }
}

/// The number of candidates of a membership leaf.
pub open spec fn wire_set_len(w: FilterExpressionWireV1) -> Option<nat> {
    match w {
        FilterExpressionWireV1::In { values, .. } => Some(values@.len()),
        FilterExpressionWireV1::NotIn { values, .. } => Some(values@.len()),
        _ => None,
    }
}

/// The stable operator name of a comparison.
pub open spec fn kind_operator(k: ConditionKind) -> Seq<char> {
    match k {
        ConditionKind::Equal => "eq"@,
        ConditionKind::NotEqual => "ne"@,
        ConditionKind::Less => "lt"@,
        ConditionKind::LessEqual => "le"@,
        ConditionKind::Greater => "gt"@,
        ConditionKind::GreaterEqual => "ge"@,
        ConditionKind::In => "in_set"@,
        ConditionKind::NotIn => "not_in_set"@,
        ConditionKind::Exists => "exists"@,
        ConditionKind::NotExists => "not_exists"@,
    }
}

/// The literal reading of a wire tree, node by node; `None` when a
/// collection value appears.
pub open spec fn wire_read(w: FilterExpressionWireV1) -> Option<ExprShape>
    decreases w,
{
    match w {
        FilterExpressionWireV1::All => Some(ExprShape::True),
        FilterExpressionWireV1::Nothing => Some(ExprShape::False),
        FilterExpressionWireV1::And { children } => match wire_read_seq(children@) {
            Some(s) => Some(ExprShape::And(s)),
            None => None,
        },
        FilterExpressionWireV1::Or { children } => match wire_read_seq(children@) {
            Some(s) => Some(ExprShape::Or(s)),
            None => None,
        },
        FilterExpressionWireV1::Not { expression } => match wire_read(*expression) {
            Some(s) => Some(ExprShape::Not(Box::new(s))),
            None => None,
        },
        _ => match wire_leaf(w) {
            Some((kind, key, Some(operands))) => Some(ExprShape::Cond(ConditionShape { kind, key, operands })),
            _ => None,
        },
    }
}

/// The literal readings of a sequence of wire trees.
pub open spec fn wire_read_seq(s: Seq<FilterExpressionWireV1>) -> Option<Seq<ExprShape>>
    decreases s,
{
    if s.len() == 0 {
        Some(Seq::empty())
    } else {
        match (wire_read(s[0]), wire_read_seq(s.subrange(1, s.len() as int))) {
            (Some(x), Some(xs)) => Some(seq![x] + xs),
            _ => None,
        }
    }
}

/// The conversion of a wire leaf: collections are rejected, then the first
/// unset operand.
pub open spec fn leaf_conv(kind: ConditionKind, key: Seq<char>, operands: Option<Seq<ValueModel>>) -> Result<
    ExprShape,
    WireFault,
> {
    match operands {
        None => Err(WireFault::NonScalar),
        Some(ops) => if exists|i: int| first_unset(ops, i) {
            Err(WireFault::Operand(kind_operator(kind), ops[choose|i: int| first_unset(ops, i)]))
        } else {
            Ok(ExprShape::Cond(ConditionShape { kind, key, operands: ops }))
        },
    }
}

/// The shape a wire tree converts to, or the first reason it cannot: groups
/// need two children and are folded from the left with the simplifying
/// AND or OR; negation simplifies; children convert in order.
pub open spec fn wire_conv(w: FilterExpressionWireV1) -> Result<ExprShape, WireFault>
    decreases w,
{
    match w {
        FilterExpressionWireV1::All => Ok(ExprShape::True),
        FilterExpressionWireV1::Nothing => Ok(ExprShape::False),
        FilterExpressionWireV1::And { children } => if children@.len() < 2 {
            Err(WireFault::ShortGroup(true))
        } else {
            match wire_conv_seq(children@) {
                Ok(s) => Ok(shape_fold(s, true)),
                Err(f) => Err(f),
            }
        },
        FilterExpressionWireV1::Or { children } => if children@.len() < 2 {
            Err(WireFault::ShortGroup(false))
        } else {
            match wire_conv_seq(children@) {
                Ok(s) => Ok(shape_fold(s, false)),
                Err(f) => Err(f),
            }
        },
        FilterExpressionWireV1::Not { expression } => match wire_conv(*expression) {
            Ok(s) => Ok(shape_not(s)),
            Err(f) => Err(f),
        },
        _ => match wire_leaf(w) {
            Some((kind, key, operands)) => leaf_conv(kind, key, operands),
            None => Err(WireFault::NonScalar),
        },
    }
}

/// The conversions of a sequence of wire trees, stopping at the first
/// failure.
pub open spec fn wire_conv_seq(s: Seq<FilterExpressionWireV1>) -> Result<Seq<ExprShape>, WireFault>
    decreases s,
{
    if s.len() == 0 {
        Ok(Seq::empty())
    } else {
        match wire_conv(s[0]) {
            Err(f) => Err(f),
            Ok(x) => match wire_conv_seq(s.subrange(1, s.len() as int)) {
                Err(f) => Err(f),
                Ok(xs) => Ok(seq![x] + xs),
            },
        }
    }
}

/// `e` is the error reported for `f`.
pub open spec fn fault_error(f: WireFault, e: MetadataError) -> bool {
    match f {
        WireFault::NonScalar => e matches MetadataError::InvalidFilterExpression { message } && message@
            == "metadata filter wire values must be scalar"@,
        WireFault::ShortGroup(and) => e matches MetadataError::InvalidFilterExpression { message } && message@
            == (if and {
            "'and' group requires at least two children"@
        } else {
            "'or' group requires at least two children"@
        }),
        WireFault::Operand(operator, operand) => is_operand_error(e, operator, operand),
    }
}

/// The number of nodes of a wire tree.
pub open spec fn wire_nodes(w: FilterExpressionWireV1) -> nat
    decreases w,
{
    match w {
        FilterExpressionWireV1::And { children } => 1 + wire_nodes_seq(children@),
        FilterExpressionWireV1::Or { children } => 1 + wire_nodes_seq(children@),
        FilterExpressionWireV1::Not { expression } => 1 + wire_nodes(*expression),
        _ => 1,
    }
}

/// The total number of nodes of a sequence of wire trees.
pub open spec fn wire_nodes_seq(s: Seq<FilterExpressionWireV1>) -> nat
    decreases s,
{
    if s.len() == 0 {
        0
    } else {
        wire_nodes(s[0]) + wire_nodes_seq(s.subrange(1, s.len() as int))
    }
}

/// The key and membership checks of one wire leaf: the key first, then the
/// number of candidates.
pub open spec fn leaf_limits(key: Seq<char>, set_len: Option<nat>, limits: FilterLimits) -> Result<
    (),
    MetadataError,
> {
    if key_len(key) > limits.spec_max_key_bytes() {
        Err(
            MetadataError::FilterLimitExceeded {
                kind: FilterLimitKind::KeyBytes,
                value: key_len(key) as usize,
                maximum: limits.spec_max_key_bytes(),
            },
        )
    } else {
        match set_len {
            Some(n) => if n > limits.spec_max_set_values() {
                Err(
                    MetadataError::FilterLimitExceeded {
                        kind: FilterLimitKind::SetValues,
                        value: n as usize,
                        maximum: limits.spec_max_set_values(),
                    },
                )
            } else {
                Ok(())
            },
            None => Ok(()),
        }
    }
}

/// Depth-first limit validation of a wire tree at root-inclusive `depth`
/// after `count` visited nodes: the first violation in preorder and the
/// number of nodes visited.
pub open spec fn wire_validate_at(w: FilterExpressionWireV1, limits: FilterLimits, depth: nat, count: nat) -> (
    Result<(), MetadataError>,
    nat,
)
    decreases w,
{
    if depth > limits.spec_max_depth() {
        (
            Err(
                MetadataError::FilterLimitExceeded {
                    kind: FilterLimitKind::Depth,
                    value: depth as usize,
                    maximum: limits.spec_max_depth(),
                },
            ),
            count,
        )
    } else if count + 1 > limits.spec_max_nodes() {
        (
            Err(
                MetadataError::FilterLimitExceeded {
                    kind: FilterLimitKind::Nodes,
                    value: (count + 1) as usize,
                    maximum: limits.spec_max_nodes(),
                },
            ),
            count + 1,
        )
    } else {
        match w {
            FilterExpressionWireV1::And { children } => wire_validate_seq(children@, limits, depth + 1, count + 1),
            FilterExpressionWireV1::Or { children } => wire_validate_seq(children@, limits, depth + 1, count + 1),
            FilterExpressionWireV1::Not { expression } => wire_validate_at(*expression, limits, depth + 1, count + 1),
            FilterExpressionWireV1::All | FilterExpressionWireV1::Nothing => (Ok(()), count + 1),
            _ => (leaf_limits((wire_leaf(w)->0).1, wire_set_len(w), limits), count + 1),
        }
    }
}

/// Depth-first limit validation of sibling wire trees.
pub open spec fn wire_validate_seq(s: Seq<FilterExpressionWireV1>, limits: FilterLimits, depth: nat, count: nat) -> (
    Result<(), MetadataError>,
    nat,
)
    decreases s,
{
    if s.len() == 0 {
        (Ok(()), count)
    } else {
        let first = wire_validate_at(s[0], limits, depth, count);
        if first.0 is Err {
            first
        } else {
            wire_validate_seq(s.subrange(1, s.len() as int), limits, depth, first.1)
        }
    }
}

/// Limit validation of a whole wire tree.
pub open spec fn wire_validate(w: FilterExpressionWireV1, limits: FilterLimits) -> Result<(), MetadataError> {
    wire_validate_at(w, limits, 1, 0).0
}

/// The root-inclusive depth of a wire tree.
pub open spec fn wire_depth(w: FilterExpressionWireV1) -> nat
    decreases w,
{
    match w {
        FilterExpressionWireV1::And { children } => 1 + wire_depth_seq(children@),
        FilterExpressionWireV1::Or { children } => 1 + wire_depth_seq(children@),
        FilterExpressionWireV1::Not { expression } => 1 + wire_depth(*expression),
        _ => 1,
    }
}

/// The largest depth among sibling wire trees (zero when empty).
pub open spec fn wire_depth_seq(s: Seq<FilterExpressionWireV1>) -> nat
    decreases s,
{
    if s.len() == 0 {
        0
    } else {
        let a = wire_depth(s[0]);
        let b = wire_depth_seq(s.subrange(1, s.len() as int));
        if a >= b { a } else { b }
    }
}

/// Every leaf of the wire tree is within the key and membership bounds.
pub open spec fn wire_conds(w: FilterExpressionWireV1, limits: FilterLimits) -> bool
    decreases w,
{
    match w {
        FilterExpressionWireV1::And { children } => wire_conds_seq(children@, limits),
        FilterExpressionWireV1::Or { children } => wire_conds_seq(children@, limits),
        FilterExpressionWireV1::Not { expression } => wire_conds(*expression, limits),
        FilterExpressionWireV1::All | FilterExpressionWireV1::Nothing => true,
        _ => leaf_limits((wire_leaf(w)->0).1, wire_set_len(w), limits) is Ok,
    }
}

/// Every tree of the sequence satisfies [`wire_conds`].
pub open spec fn wire_conds_seq(s: Seq<FilterExpressionWireV1>, limits: FilterLimits) -> bool
    decreases s,
{
    if s.len() == 0 {
        true
    } else {
        wire_conds(s[0], limits) && wire_conds_seq(s.subrange(1, s.len() as int), limits)
    }
}

/// The first `i` trees of the sequence satisfy [`wire_conds`].
pub open spec fn conds_prefix(s: Seq<FilterExpressionWireV1>, i: int, limits: FilterLimits) -> bool {
    forall|j: int| 0 <= j < i ==> wire_conds(#[trigger] s[j], limits)
}

/// The elementwise facts of [`wire_depth_seq`] and [`wire_conds_seq`].
proof fn lemma_wire_seq_elementwise(s: Seq<FilterExpressionWireV1>, limits: FilterLimits)
    ensures
        forall|j: int| 0 <= j < s.len() ==> #[trigger] wire_depth(s[j]) <= wire_depth_seq(s),
        s.len() > 0 ==> wire_depth_seq(s) >= 1,
        wire_conds_seq(s, limits) ==> forall|j: int| 0 <= j < s.len() ==> #[trigger] wire_conds(s[j], limits),
    decreases s.len(),
{
    if s.len() > 0 {
        let rest = s.subrange(1, s.len() as int);
        lemma_wire_seq_elementwise(rest, limits);
        assert(wire_depth(s[0]) >= 1);
        assert forall|j: int| 0 <= j < s.len() implies #[trigger] wire_depth(s[j]) <= wire_depth_seq(s) by {
            if j > 0 {
                assert(rest[j - 1] == s[j]);
            }
        }
        if wire_conds_seq(s, limits) {
            assert forall|j: int| 0 <= j < s.len() implies #[trigger] wire_conds(s[j], limits) by {
                if j > 0 {
                    assert(rest[j - 1] == s[j]);
                }
            }
        }
    }
}

/// A successful wire validation visits every node and stays within the node
/// bound.
pub proof fn lemma_wire_validate_ok(w: FilterExpressionWireV1, limits: FilterLimits, depth: nat, count: nat)
    requires
        wire_validate_at(w, limits, depth, count).0 is Ok,
    ensures
        wire_validate_at(w, limits, depth, count).1 == count + wire_nodes(w),
        count + wire_nodes(w) <= limits.spec_max_nodes(),
        depth + wire_depth(w) <= limits.spec_max_depth() + 1,
        wire_conds(w, limits),
    decreases w,
{
    match w {
        FilterExpressionWireV1::And { children } => {
            lemma_wire_validate_seq_ok(children@, limits, depth + 1, count + 1);
            if children@.len() == 0 {
                assert(wire_depth_seq(children@) == 0);
            }
        },
        FilterExpressionWireV1::Or { children } => {
            lemma_wire_validate_seq_ok(children@, limits, depth + 1, count + 1);
            if children@.len() == 0 {
                assert(wire_depth_seq(children@) == 0);
            }
        },
        FilterExpressionWireV1::Not { expression } => lemma_wire_validate_ok(*expression, limits, depth + 1, count + 1),
        _ => {},
    }
}

proof fn lemma_wire_validate_seq_ok(s: Seq<FilterExpressionWireV1>, limits: FilterLimits, depth: nat, count: nat)
    requires
        wire_validate_seq(s, limits, depth, count).0 is Ok,
    ensures
        wire_validate_seq(s, limits, depth, count).1 == count + wire_nodes_seq(s),
        s.len() > 0 ==> count + wire_nodes_seq(s) <= limits.spec_max_nodes(),
        s.len() > 0 ==> depth + wire_depth_seq(s) <= limits.spec_max_depth() + 1,
        wire_conds_seq(s, limits),
    decreases s,
{
    if s.len() > 0 {
        lemma_wire_validate_ok(s[0], limits, depth, count);
        lemma_wire_validate_seq_ok(s.subrange(1, s.len() as int), limits, depth, count + wire_nodes(s[0]));
    }
}

impl FilterExpressionWireV1 {
    /// The key of a leaf node.
    fn leaf_key(&self) -> (r: &str)
        requires
            wire_leaf(*self) is Some,
        ensures
            r@ == (wire_leaf(*self)->0).1,
    {
        match self {
            FilterExpressionWireV1::Eq { key, .. } => key.as_str(),
            FilterExpressionWireV1::Ne { key, .. } => key.as_str(),
            FilterExpressionWireV1::Lt { key, .. } => key.as_str(),
            FilterExpressionWireV1::Le { key, .. } => key.as_str(),
            FilterExpressionWireV1::Gt { key, .. } => key.as_str(),
            FilterExpressionWireV1::Ge { key, .. } => key.as_str(),
            FilterExpressionWireV1::In { key, .. } => key.as_str(),
            FilterExpressionWireV1::NotIn { key, .. } => key.as_str(),
            FilterExpressionWireV1::Exists { key } => key.as_str(),
            FilterExpressionWireV1::NotExists { key } => key.as_str(),
            _ => "",
        }
    }

    /// Validates this wire tree against `limits` in depth-first preorder,
    /// reporting the first depth, node-count, key or membership violation.
    pub fn validate_limits(&self, limits: FilterLimits) -> (r: Result<(), MetadataError>)
        ensures
            r == wire_validate(*self, limits),
    {
        proof {
            use_type_invariant(&limits);
        }
        let mut node_count: usize = 0;
        self.validate_limits_at(limits, 1, &mut node_count)
    }

    /// Validates one node at root-inclusive `depth` after `node_count` nodes.
    fn validate_limits_at(&self, limits: FilterLimits, depth: usize, node_count: &mut usize) -> (r: Result<
        (),
        MetadataError,
    >)
        requires
            limits.wf(),
            *old(node_count) <= limits.spec_max_nodes(),
            1 <= depth <= limits.spec_max_depth() + 1,
        ensures
            (r, *final(node_count) as nat) == wire_validate_at(
                *self,
                limits,
                depth as nat,
                *old(node_count) as nat,
            ),
            r is Ok ==> *final(node_count) <= limits.spec_max_nodes(),
        decreases self,
    {
        let ghost start = *node_count as nat;
        if depth > limits.max_depth() {
            return Err(
                MetadataError::FilterLimitExceeded {
                    kind: FilterLimitKind::Depth,
                    value: depth,
                    maximum: limits.max_depth(),
                },
            );
        }
        *node_count = *node_count + 1;
        if *node_count > limits.max_nodes() {
            return Err(
                MetadataError::FilterLimitExceeded {
                    kind: FilterLimitKind::Nodes,
                    value: *node_count,
                    maximum: limits.max_nodes(),
                },
            );
        }
        match self {
            FilterExpressionWireV1::All | FilterExpressionWireV1::Nothing => Ok(()),
            FilterExpressionWireV1::Not { expression } => expression.validate_limits_at(limits, depth + 1, node_count),
            FilterExpressionWireV1::And { children } | FilterExpressionWireV1::Or { children } => {
                let ghost c0 = *node_count as nat;
                let mut i: usize = 0;
                assert(children@.skip(0) =~= children@);
                while i < children.len()
                    invariant
                        i <= children@.len(),
                        limits.wf(),
                        start == *old(node_count),
                        *self == (FilterExpressionWireV1::And { children: *children }) || *self
                            == (FilterExpressionWireV1::Or { children: *children }),
                        wire_validate_at(*self, limits, depth as nat, start) == wire_validate_seq(
                            children@,
                            limits,
                            (depth + 1) as nat,
                            c0,
                        ),
                        depth + 1 <= limits.spec_max_depth() + 1,
                        *node_count <= limits.spec_max_nodes(),
                        wire_validate_seq(children@, limits, (depth + 1) as nat, c0) == wire_validate_seq(
                            children@.skip(i as int),
                            limits,
                            (depth + 1) as nat,
                            *node_count as nat,
                        ),
                    decreases children.len() - i,
                {
                    let ghost before = *node_count as nat;
                    proof {
                        assert(decreases_to!(*self => children@[i as int])) by {
                            if *self is And {
                                assert(decreases_to!(*self => self->And_children));
                            } else {
                                assert(decreases_to!(*self => self->Or_children));
                            }
                            assert(decreases_to!(*children => children@));
                            assert(decreases_to!(children@ => children@[i as int]));
                        }
                    }
                    let r = children[i].validate_limits_at(limits, depth + 1, node_count);
                    let ghost s = children@.skip(i as int);
                    proof {
                        assert(s[0] == children@[i as int]);
                        assert(s.subrange(1, s.len() as int) =~= children@.skip(i + 1));
                    }
                    if r.is_err() {
                        return r;
                    }
                    i = i + 1;
                }
                proof {
                    assert(children@.skip(i as int).len() == 0);
                }
                Ok(())
            },
            _ => {
                let key_bytes = self.leaf_key().as_bytes().len();
                if key_bytes > limits.max_key_bytes() {
                    return Err(
                        MetadataError::FilterLimitExceeded {
                            kind: FilterLimitKind::KeyBytes,
                            value: key_bytes,
                            maximum: limits.max_key_bytes(),
                        },
                    );
                }
                match self {
                    FilterExpressionWireV1::In { values, .. } | FilterExpressionWireV1::NotIn { values, .. } => {
                        if values.len() > limits.max_set_values() {
                            return Err(
                                MetadataError::FilterLimitExceeded {
                                    kind: FilterLimitKind::SetValues,
                                    value: values.len(),
                                    maximum: limits.max_set_values(),
                                },
                            );
                        }
                        Ok(())
                    },
                    _ => Ok(()),
                }
            },
        }
    }
}


/// The first unset position is unique.
proof fn lemma_first_unset_unique(ops: Seq<ValueModel>, i: int, j: int)
    requires
        first_unset(ops, i),
        first_unset(ops, j),
    ensures
        i == j,
{
    if i < j {
        assert(!ops[i].is_unset());
    } else if j < i {
        assert(!ops[j].is_unset());
    }
}

/// When some operand is unset, a first unset operand exists.
proof fn lemma_first_unset_exists(ops: Seq<ValueModel>, j: int)
    requires
        0 <= j < ops.len(),
        ops[j].is_unset(),
    ensures
        exists|i: int| first_unset(ops, i),
    decreases j,
{
    if exists|k: int| 0 <= k < j && (#[trigger] ops[k]).is_unset() {
        let k = choose|k: int| 0 <= k < j && (#[trigger] ops[k]).is_unset();
        lemma_first_unset_exists(ops, k);
    } else {
        assert(first_unset(ops, j));
    }
}

proof fn lemma_wire_nodes_concat(a: Seq<FilterExpressionWireV1>, b: Seq<FilterExpressionWireV1>)
    ensures
        wire_nodes_seq(a + b) == wire_nodes_seq(a) + wire_nodes_seq(b),
    decreases a.len(),
{
    if a.len() == 0 {
        assert(a + b =~= b);
    } else {
        assert((a + b)[0] == a[0]);
        assert((a + b).subrange(1, (a + b).len() as int) =~= a.subrange(1, a.len() as int) + b);
        lemma_wire_nodes_concat(a.subrange(1, a.len() as int), b);
    }
}

proof fn lemma_wire_nodes_prefix(s: Seq<FilterExpressionWireV1>, i: int)
    requires
        0 <= i < s.len(),
    ensures
        wire_nodes_seq(s.take(i + 1)) == wire_nodes_seq(s.take(i)) + wire_nodes(s[i]),
        wire_nodes_seq(s.take(i + 1)) <= wire_nodes_seq(s),
{
    assert(s.take(i + 1) =~= s.take(i) + seq![s[i]]);
    lemma_wire_nodes_concat(s.take(i), seq![s[i]]);
    assert(seq![s[i]].subrange(1, 1) =~= Seq::<FilterExpressionWireV1>::empty());
    assert(wire_nodes_seq(Seq::<FilterExpressionWireV1>::empty()) == 0);
    assert(seq![s[i]][0] == s[i]);
    assert(wire_nodes_seq(seq![s[i]]) == wire_nodes(s[i]));
    assert(s =~= s.take(i + 1) + s.skip(i + 1));
    lemma_wire_nodes_concat(s.take(i + 1), s.skip(i + 1));
}

/// When every tree of a sequence converts, the sequence converts to their
/// shapes in order.
proof fn lemma_conv_seq_ok(s: Seq<FilterExpressionWireV1>)
    requires
        forall|i: int| 0 <= i < s.len() ==> (#[trigger] wire_conv(s[i])) is Ok,
    ensures
        wire_conv_seq(s) is Ok,
        wire_conv_seq(s)->Ok_0.len() == s.len(),
        forall|i: int| 0 <= i < s.len() ==> #[trigger] wire_conv_seq(s)->Ok_0[i] == wire_conv(s[i])->Ok_0,
    decreases s.len(),
{
    if s.len() > 0 {
        let rest = s.subrange(1, s.len() as int);
        assert forall|i: int| 0 <= i < rest.len() implies (#[trigger] wire_conv(rest[i])) is Ok by {
            assert(rest[i] == s[i + 1]);
            assert(wire_conv(s[i + 1]) is Ok);
        }
        lemma_conv_seq_ok(rest);
        assert(wire_conv(s[0]) is Ok);
        let xs = wire_conv_seq(s)->Ok_0;
        assert forall|i: int| 0 <= i < s.len() implies #[trigger] xs[i] == wire_conv(s[i])->Ok_0 by {
            if i > 0 {
                assert(rest[i - 1] == s[i]);
                assert(wire_conv_seq(rest)->Ok_0[i - 1] == wire_conv(rest[i - 1])->Ok_0);
            }
        }
    }
}

/// The first tree of a sequence that fails to convert decides the failure of
/// the sequence.
proof fn lemma_conv_seq_err(s: Seq<FilterExpressionWireV1>, i: int)
    requires
        0 <= i < s.len(),
        wire_conv(s[i]) is Err,
        forall|j: int| 0 <= j < i ==> (#[trigger] wire_conv(s[j])) is Ok,
    ensures
        wire_conv_seq(s) == Err::<Seq<ExprShape>, WireFault>(wire_conv(s[i])->Err_0),
    decreases i,
{
    if i > 0 {
        let rest = s.subrange(1, s.len() as int);
        assert(rest[i - 1] == s[i]);
        assert forall|j: int| 0 <= j < i - 1 implies (#[trigger] wire_conv(rest[j])) is Ok by {
            assert(rest[j] == s[j + 1]);
            assert(wire_conv(s[j + 1]) is Ok);
        }
        assert(wire_conv(s[0]) is Ok);
        lemma_conv_seq_err(rest, i - 1);
    }
}

impl FilterExpressionWireV1 {
    /// The scalar carried by an operand.
    fn scalar(value: &WireValue) -> (r: Result<MetadataValue, MetadataError>)
        ensures
            match scalar_model(*value) {
                Some(x) => r matches Ok(v) && v@ == x,
                None => r matches Err(e) && fault_error(WireFault::NonScalar, e),
            },
    {
        match value {
            WireValue::Scalar(v) => Ok(v.clone()),
            WireValue::Collection(_) => Err(
                MetadataError::InvalidFilterExpression {
                    message: "metadata filter wire values must be scalar".to_owned(),
                },
            ),
        }
    }

    /// The scalars carried by a list of operands.
    fn scalars(values: &Vec<WireValue>) -> (r: Result<Vec<MetadataValue>, MetadataError>)
        ensures
            match scalar_models(values@) {
                Some(xs) => r matches Ok(v) && crate::condition::value_models(v@) == xs,
                None => r matches Err(e) && fault_error(WireFault::NonScalar, e),
            },
    {
        let mut out: Vec<MetadataValue> = Vec::new();
        let mut i: usize = 0;
        while i < values.len()
            invariant
                i <= values@.len(),
                out@.len() == i,
                forall|j: int| 0 <= j < i ==> (#[trigger] values@[j]) is Scalar,
                forall|j: int| 0 <= j < i ==> (#[trigger] out@[j])@ == values@[j]->Scalar_0@,
            decreases values.len() - i,
        {
            match &values[i] {
                WireValue::Scalar(v) => {
                    out.push(v.clone());
                },
                WireValue::Collection(_) => {
                    return Err(
                        MetadataError::InvalidFilterExpression {
                            message: "metadata filter wire values must be scalar".to_owned(),
                        },
                    );
                },
            }
            i = i + 1;
        }
        proof {
            let xs = values@.map_values(|v: WireValue| v->Scalar_0@);
            assert(crate::condition::value_models(out@) =~= xs);
        }
        Ok(out)
    }

    /// Converts one leaf into a single-condition expression.
    fn leaf_expression(&self) -> (r: Result<FilterExpression, MetadataError>)
        requires
            wire_leaf(*self) is Some,
        ensures
            ({
                let (kind, key, operands) = wire_leaf(*self)->0;
                match leaf_conv(kind, key, operands) {
                    Ok(s) => r matches Ok(e) && shape(e) == s && crate::filter_expression::tree_nodes(e) == 1
                        && tree_depth(e) == 1 && forall|l: FilterLimits|
                        wire_conds(*self, l) ==> #[trigger] conditions_within(e, l),
                    Err(f) => r matches Err(e) && fault_error(f, e),
                }
            }),
    {
        let condition = match self {
            FilterExpressionWireV1::Eq { key, value } => Condition::Equal { key: key.clone(), value: Self::scalar(value)? },
            FilterExpressionWireV1::Ne { key, value } => Condition::NotEqual {
                key: key.clone(),
                value: Self::scalar(value)?,
            },
            FilterExpressionWireV1::Lt { key, value } => Condition::Less { key: key.clone(), value: Self::scalar(value)? },
            FilterExpressionWireV1::Le { key, value } => Condition::LessEqual {
                key: key.clone(),
                value: Self::scalar(value)?,
            },
            FilterExpressionWireV1::Gt { key, value } => Condition::Greater {
                key: key.clone(),
                value: Self::scalar(value)?,
            },
            FilterExpressionWireV1::Ge { key, value } => Condition::GreaterEqual {
                key: key.clone(),
                value: Self::scalar(value)?,
            },
            FilterExpressionWireV1::In { key, values } => Condition::In { key: key.clone(), values: Self::scalars(values)? },
            FilterExpressionWireV1::NotIn { key, values } => Condition::NotIn {
                key: key.clone(),
                values: Self::scalars(values)?,
            },
            FilterExpressionWireV1::Exists { key } => Condition::Exists { key: key.clone() },
            FilterExpressionWireV1::NotExists { key } => Condition::NotExists { key: key.clone() },
            _ => {
                return Err(
                    MetadataError::InvalidFilterExpression {
                        message: "metadata filter wire values must be scalar".to_owned(),
                    },
                );
            },
        };
        let ghost c = condition;
        let ghost (kind, key, operands) = wire_leaf(*self)->0;
        proof {
            assert(c.spec_shape() == (ConditionShape { kind, key, operands: operands->0 }));
            assert(c.spec_operator() == kind_operator(kind));
            let ops = c.spec_operands();
            if exists|i: int| first_unset(ops, i) {
                let i = choose|i: int| first_unset(ops, i);
                assert(!c.spec_operands_valid());
            } else {
                assert forall|j: int| 0 <= j < ops.len() implies !(#[trigger] ops[j]).is_unset() by {
                    if ops[j].is_unset() {
                        lemma_first_unset_exists(ops, j);
                    }
                }
            }
        }
        let r = FilterExpression::condition(condition);
        proof {
            let ops = c.spec_operands();
            if r is Err {
                let e = r->Err_0;
                let i = choose|i: int| first_unset(ops, i) && is_operand_error(e, c.spec_operator(), ops[i]);
                let k = choose|i: int| first_unset(ops, i);
                lemma_first_unset_unique(ops, i, k);
            } else {
                crate::filter_expression::lemma_leaf_meaning(c);
                let e = r->Ok_0;
                assert(wire_read(*self) == Some(ExprShape::Cond(c.spec_shape())));
                lemma_wire_read_leaf(*self, c);
                assert forall|l: FilterLimits| wire_conds(*self, l) implies #[trigger] conditions_within(e, l) by {
                    lemma_leaf_conditions(c, l);
                }
                lemma_leaf_conditions(c, FilterLimits::hard_max());
            }
        }
        r
    }
}


impl FilterExpressionWireV1 {
    /// Converts this wire tree into an expression without checking limits:
    /// groups need at least two children and fold from the left, and every
    /// operand must be a concrete scalar.
    fn into_expression_unchecked(&self) -> (r: Result<FilterExpression, MetadataError>)
        requires
            wire_nodes(*self) < usize::MAX,
        ensures
            match wire_conv(*self) {
                Ok(s) => r matches Ok(e) && shape(e) == s && tree_nodes(e) <= wire_nodes(*self) && tree_depth(e)
                    <= wire_depth(*self) && forall|l: FilterLimits|
                    wire_conds(*self, l) ==> #[trigger] conditions_within(e, l),
                Err(f) => r matches Err(e) && fault_error(f, e),
            },
        decreases self,
    {
        match self {
            FilterExpressionWireV1::All | FilterExpressionWireV1::Nothing => {
                let r = if matches!(self, FilterExpressionWireV1::All) {
                    FilterExpression::match_all()
                } else {
                    FilterExpression::match_none()
                };
                proof {
                    assert forall|l: FilterLimits| wire_conds(*self, l) implies #[trigger] conditions_within(r, l) by {
                        lemma_constant_conditions(r, l);
                    }
                    lemma_constant_conditions(r, FilterLimits::hard_max());
                }
                Ok(r)
            },
            FilterExpressionWireV1::Not { expression } => {
                let inner = expression.into_expression_unchecked()?;
                let ghost gi = inner;
                let r = inner.negated_unchecked();
                proof {
                    lemma_negation_shape(r, gi);
                    lemma_negation_metrics(r, gi);
                }
                Ok(r)
            },
            FilterExpressionWireV1::And { children } | FilterExpressionWireV1::Or { children } => {
                let and = matches!(self, FilterExpressionWireV1::And { .. });
                if children.len() < 2 {
                    let message = if and {
                        "'and' group requires at least two children".to_owned()
                    } else {
                        "'or' group requires at least two children".to_owned()
                    };
                    return Err(MetadataError::InvalidFilterExpression { message });
                }
                proof {
                    assert(decreases_to!(*self => children@[0])) by {
                        if *self is And {
                            assert(decreases_to!(*self => self->And_children));
                        } else {
                            assert(decreases_to!(*self => self->Or_children));
                        }
                        assert(decreases_to!(*children => children@));
                        assert(decreases_to!(children@ => children@[0]));
                    }
                    lemma_wire_nodes_prefix(children@, 0);
                    assert(children@.take(0) =~= Seq::<FilterExpressionWireV1>::empty());
                }
                let mut acc = match children[0].into_expression_unchecked() {
                    Ok(e) => e,
                    Err(e) => {
                        proof {
                            lemma_conv_seq_err(children@, 0);
                        }
                        return Err(e);
                    },
                };
                let ghost mut xs: Seq<ExprShape> = seq![shape(acc)];
                let ghost mut total: nat = tree_nodes(acc);
                let ghost depth_bound: nat = wire_depth_seq(children@);
                proof {
                    lemma_wire_seq_elementwise(children@, FilterLimits::hard_max());
                    assert forall|l: FilterLimits| conds_prefix(children@, 1, l) implies #[trigger] conditions_within(
                        acc,
                        l,
                    ) by {
                        assert(wire_conds(children@[0], l));
                    }
                }
                let mut i: usize = 1;
                while i < children.len()
                    invariant
                        1 <= i <= children@.len(),
                        and == (*self is And),
                        *self == (FilterExpressionWireV1::And { children: *children }) || *self
                            == (FilterExpressionWireV1::Or { children: *children }),
                        wire_nodes(*self) == 1 + wire_nodes_seq(children@),
                        wire_nodes(*self) < usize::MAX,
                        xs.len() == i,
                        forall|j: int| 0 <= j < i ==> #[trigger] wire_conv(children@[j]) == Ok::<ExprShape, WireFault>(xs[j]),
                        shape(acc) == shape_fold(xs, and),
                        total <= wire_nodes_seq(children@.take(i as int)),
                        tree_nodes(acc) <= total + (if (and && acc.spec_node() is And) || (!and && acc.spec_node() is Or) {
                            1int
                        } else {
                            0
                        }),
                        depth_bound == wire_depth_seq(children@),
                        depth_bound >= 1,
                        forall|j: int| 0 <= j < children@.len() ==> #[trigger] wire_depth(children@[j]) <= depth_bound,
                        tree_depth(acc) + (if (and && acc.spec_node() is And) || (!and && acc.spec_node() is Or) {
                            0int
                        } else {
                            1
                        }) <= 1 + depth_bound,
                        forall|l: FilterLimits| conds_prefix(children@, i as int, l) ==> #[trigger] conditions_within(acc, l),
                    decreases children.len() - i,
                {
                    proof {
                        assert(decreases_to!(*self => children@[i as int])) by {
                            if *self is And {
                                assert(decreases_to!(*self => self->And_children));
                            } else {
                                assert(decreases_to!(*self => self->Or_children));
                            }
                            assert(decreases_to!(*children => children@));
                            assert(decreases_to!(children@ => children@[i as int]));
                        }
                        lemma_wire_nodes_prefix(children@, i as int);
                    }
                    let next = match children[i].into_expression_unchecked() {
                        Ok(e) => e,
                        Err(e) => {
                            proof {
                                lemma_conv_seq_err(children@, i as int);
                            }
                            return Err(e);
                        },
                    };
                    let ghost gacc = acc;
                    let ghost gnext = next;
                    acc = if and {
                        FilterExpression::and_unchecked(acc, next)
                    } else {
                        FilterExpression::or_unchecked(acc, next)
                    };
                    proof {
                        if and {
                            lemma_and_shape(acc, gacc, gnext);
                            lemma_and_metrics(acc, gacc, gnext);
                        } else {
                            lemma_or_shape(acc, gacc, gnext);
                            lemma_or_metrics(acc, gacc, gnext);
                        }
                        assert forall|l: FilterLimits| conds_prefix(children@, i + 1, l) implies #[trigger] conditions_within(
                            acc,
                            l,
                        ) by {
                            assert(conds_prefix(children@, i as int, l));
                            assert(wire_conds(children@[i as int], l));
                        }
                        let old_xs = xs;
                        xs = xs.push(shape(gnext));
                        assert(xs.drop_last() =~= old_xs);
                        total = total + tree_nodes(gnext);
                    }
                    i = i + 1;
                }
                proof {
                    lemma_conv_seq_ok(children@);
                    assert(wire_conv_seq(children@)->Ok_0 =~= xs);
                    assert(children@.take(i as int) =~= children@);
                    assert forall|l: FilterLimits| wire_conds(*self, l) implies #[trigger] conditions_within(acc, l) by {
                        lemma_wire_seq_elementwise(children@, l);
                        assert(conds_prefix(children@, i as int, l));
                    }
                }
                Ok(acc)
            },
            _ => self.leaf_expression(),
        }
    }

    /// Converts this wire tree into an expression and checks it against the
    /// hard maximums.
    pub fn into_expression(&self) -> (r: Result<FilterExpression, MetadataError>)
        requires
            wire_nodes(*self) < usize::MAX,
        ensures
            wire_conv(*self) matches Err(f) ==> r matches Err(e) && fault_error(f, e),
            wire_conv(*self) matches Ok(s) ==> exists|e: FilterExpression|
                shape(e) == s && match spec_validate(e, FilterLimits::hard_max()) {
                    Ok(()) => r matches Ok(x) && shape(x) == s,
                    Err(err) => r == Err::<FilterExpression, MetadataError>(err),
                },
            r matches Ok(x) ==> spec_validate(x, FilterLimits::hard_max()) is Ok,
            r matches Ok(x) ==> tree_nodes(x) <= wire_nodes(*self) && tree_depth(x) <= wire_depth(*self),
            r matches Ok(x) ==> forall|l: FilterLimits| wire_conds(*self, l) ==> #[trigger] conditions_within(x, l),
    {
        let expression = self.into_expression_unchecked()?;
        match expression.validate_limits(FilterLimits::max_limits()) {
            Ok(()) => Ok(expression),
            Err(error) => Err(error),
        }
    }
}


impl FilterExpressionWireV1 {
    /// Writes one condition in wire form.
    fn from_condition(c: &Condition) -> (w: FilterExpressionWireV1)
        ensures
            wire_read(w) == Some(ExprShape::Cond(c.spec_shape())),
            wire_nodes(w) == 1,
    {
        match c {
            Condition::Equal { key, value } => FilterExpressionWireV1::Eq {
                key: key.clone(),
                value: WireValue::Scalar(value.clone()),
            },
            Condition::NotEqual { key, value } => FilterExpressionWireV1::Ne {
                key: key.clone(),
                value: WireValue::Scalar(value.clone()),
            },
            Condition::Less { key, value } => FilterExpressionWireV1::Lt {
                key: key.clone(),
                value: WireValue::Scalar(value.clone()),
            },
            Condition::LessEqual { key, value } => FilterExpressionWireV1::Le {
                key: key.clone(),
                value: WireValue::Scalar(value.clone()),
            },
            Condition::Greater { key, value } => FilterExpressionWireV1::Gt {
                key: key.clone(),
                value: WireValue::Scalar(value.clone()),
            },
            Condition::GreaterEqual { key, value } => FilterExpressionWireV1::Ge {
                key: key.clone(),
                value: WireValue::Scalar(value.clone()),
            },
            Condition::In { key, values } => FilterExpressionWireV1::In {
                key: key.clone(),
                values: Self::scalar_list(values),
            },
            Condition::NotIn { key, values } => FilterExpressionWireV1::NotIn {
                key: key.clone(),
                values: Self::scalar_list(values),
            },
            Condition::Exists { key } => FilterExpressionWireV1::Exists { key: key.clone() },
            Condition::NotExists { key } => FilterExpressionWireV1::NotExists { key: key.clone() },
        }
    }

    /// Writes a list of candidates as scalars.
    fn scalar_list(values: &Vec<MetadataValue>) -> (r: Vec<WireValue>)
        ensures
            scalar_models(r@) == Some(crate::condition::value_models(values@)),
    {
        let mut out: Vec<WireValue> = Vec::new();
        let mut i: usize = 0;
        while i < values.len()
            invariant
                i <= values@.len(),
                out@.len() == i,
                forall|j: int| 0 <= j < i ==> (#[trigger] out@[j]) is Scalar,
                forall|j: int| 0 <= j < i ==> (#[trigger] out@[j])->Scalar_0@ == values@[j]@,
            decreases values.len() - i,
        {
            out.push(WireValue::Scalar(values[i].clone()));
            i = i + 1;
        }
        proof {
            assert(out@.map_values(|v: WireValue| v->Scalar_0@) =~= crate::condition::value_models(values@));
        }
        out
    }

    /// Writes an expression in wire form, node by node.
    pub fn from_expression(e: &FilterExpression) -> (w: FilterExpressionWireV1)
        ensures
            wire_read(w) == Some(shape(*e)),
        decreases e,
    {
        proof {
            lemma_shape_unfold(*e);
        }
        match e.view() {
            FilterExpressionView::True => FilterExpressionWireV1::All,
            FilterExpressionView::False => FilterExpressionWireV1::Nothing,
            FilterExpressionView::Condition(c) => Self::from_condition(c),
            FilterExpressionView::Not(inner) => {
                proof {
                    lemma_children_decrease(*e, 0);
                }
                FilterExpressionWireV1::Not { expression: Box::new(Self::from_expression(inner)) }
            },
            FilterExpressionView::And(children) => FilterExpressionWireV1::And {
                children: Self::from_children(e, children, true),
            },
            FilterExpressionView::Or(children) => FilterExpressionWireV1::Or {
                children: Self::from_children(e, children, false),
            },
        }
    }

    /// Writes the children of a group in wire form.
    fn from_children(e: &FilterExpression, children: &[FilterExpression], and: bool) -> (r: Vec<FilterExpressionWireV1>)
        requires
            and ==> e.spec_node() is And && e.spec_node()->And_0@ == children@,
            !and ==> e.spec_node() is Or && e.spec_node()->Or_0@ == children@,
        ensures
            wire_read_seq(r@) == Some(shapes(children@)),
        decreases e, 0nat,
    {
        let mut out: Vec<FilterExpressionWireV1> = Vec::new();
        let mut i: usize = 0;
        while i < children.len()
            invariant
                i <= children@.len(),
                and ==> e.spec_node() is And && e.spec_node()->And_0@ == children@,
                !and ==> e.spec_node() is Or && e.spec_node()->Or_0@ == children@,
                out@.len() == i,
                forall|j: int| 0 <= j < i ==> wire_read(#[trigger] out@[j]) == Some(shape(children@[j])),
            decreases children.len() - i,
        {
            proof {
                lemma_children_decrease(*e, i as int);
            }
            out.push(Self::from_expression(&children[i]));
            i = i + 1;
        }
        proof {
            lemma_read_seq_elementwise(out@, shapes(children@), children@);
        }
        out
    }
}

proof fn lemma_read_seq_elementwise(w: Seq<FilterExpressionWireV1>, xs: Seq<ExprShape>, es: Seq<FilterExpression>)
    requires
        w.len() == es.len(),
        xs == shapes(es),
        forall|j: int| 0 <= j < w.len() ==> wire_read(#[trigger] w[j]) == Some(shape(es[j])),
    ensures
        wire_read_seq(w) == Some(xs),
    decreases w.len(),
{
    lemma_shapes_index(es);
    if w.len() > 0 {
        let rw = w.subrange(1, w.len() as int);
        let re = es.subrange(1, es.len() as int);
        lemma_shapes_index(re);
        assert(shapes(re) =~= xs.subrange(1, xs.len() as int)) by {
            assert forall|j: int| 0 <= j < re.len() implies #[trigger] shapes(re)[j] == xs.subrange(1, xs.len() as int)[j] by {
                assert(re[j] == es[j + 1]);
            }
        }
        assert forall|j: int| 0 <= j < rw.len() implies wire_read(#[trigger] rw[j]) == Some(shape(re[j])) by {
            assert(rw[j] == w[j + 1]);
            assert(re[j] == es[j + 1]);
        }
        lemma_read_seq_elementwise(rw, shapes(re), re);
        assert(wire_read(w[0]) == Some(xs[0]));
        assert(xs =~= seq![xs[0]] + xs.subrange(1, xs.len() as int));
    } else {
        assert(xs =~= Seq::<ExprShape>::empty());
    }
}


/// Folding children that may stand in a group of the operator rebuilds that
/// group.
proof fn lemma_fold_group(xs: Seq<ExprShape>, and: bool)
    requires
        xs.len() >= 2,
        forall|i: int| 0 <= i < xs.len() ==> child_ok(#[trigger] xs[i], and),
    ensures
        shape_fold(xs, and) == (if and {
            ExprShape::And(xs)
        } else {
            ExprShape::Or(xs)
        }),
    decreases xs.len(),
{
    let d = xs.drop_last();
    let last = xs.last();
    assert(child_ok(xs[xs.len() - 1], and));
    if xs.len() == 2 {
        assert(child_ok(xs[0], and));
        assert(d[0] == xs[0]);
        assert(seq![xs[0]] + seq![last] =~= xs);
    } else {
        assert forall|i: int| 0 <= i < d.len() implies child_ok(#[trigger] d[i], and) by {
            assert(d[i] == xs[i]);
            assert(child_ok(xs[i], and));
        }
        lemma_fold_group(d, and);
        assert(d + seq![last] =~= xs);
    }
}

/// The literal readings of a sequence of wire trees line up with the trees.
proof fn lemma_read_seq_len(s: Seq<FilterExpressionWireV1>)
    requires
        wire_read_seq(s) is Some,
    ensures
        wire_read_seq(s)->0.len() == s.len(),
        forall|i: int| 0 <= i < s.len() ==> wire_read(#[trigger] s[i]) == Some(wire_read_seq(s)->0[i]),
    decreases s.len(),
{
    if s.len() > 0 {
        let rest = s.subrange(1, s.len() as int);
        lemma_read_seq_len(rest);
        assert forall|i: int| 0 <= i < s.len() implies wire_read(#[trigger] s[i]) == Some(wire_read_seq(s)->0[i]) by {
            if i > 0 {
                assert(rest[i - 1] == s[i]);
            }
        }
    }
}

/// A wire tree whose literal reading is in normal form converts to exactly
/// that reading.
pub proof fn lemma_read_conv(w: FilterExpressionWireV1)
    requires
        wire_read(w) is Some,
        normal(wire_read(w)->0),
    ensures
        wire_conv(w) == Ok::<ExprShape, WireFault>(wire_read(w)->0),
    decreases w,
{
    match w {
        FilterExpressionWireV1::And { children } => {
            let xs = wire_read_seq(children@)->0;
            lemma_normal_children(xs, true);
            lemma_read_seq_len(children@);
            lemma_read_conv_seq(children@);
            lemma_fold_group(xs, true);
        },
        FilterExpressionWireV1::Or { children } => {
            let xs = wire_read_seq(children@)->0;
            lemma_normal_children(xs, false);
            lemma_read_seq_len(children@);
            lemma_read_conv_seq(children@);
            lemma_fold_group(xs, false);
        },
        FilterExpressionWireV1::Not { expression } => {
            lemma_read_conv(*expression);
        },
        FilterExpressionWireV1::All | FilterExpressionWireV1::Nothing => {},
        _ => {
            let (kind, key, operands) = wire_leaf(w)->0;
            assert(operands is Some);
            let ops = operands->0;
            let c = ConditionShape { kind, key, operands: ops };
            assert(wire_read(w)->0 == ExprShape::Cond(c));
            assert(forall|j: int| 0 <= j < c.operands.len() ==> !(#[trigger] c.operands[j]).is_unset());
            if exists|i: int| first_unset(ops, i) {
                let i = choose|i: int| first_unset(ops, i);
                assert(!ops[i].is_unset());
            }
        },
    }
}

proof fn lemma_read_conv_seq(s: Seq<FilterExpressionWireV1>)
    requires
        wire_read_seq(s) is Some,
        forall|i: int| 0 <= i < wire_read_seq(s)->0.len() ==> normal(#[trigger] wire_read_seq(s)->0[i]),
    ensures
        wire_conv_seq(s) == Ok::<Seq<ExprShape>, WireFault>(wire_read_seq(s)->0),
    decreases s,
{
    if s.len() > 0 {
        let rest = s.subrange(1, s.len() as int);
        let xs = wire_read_seq(s)->0;
        let ys = wire_read_seq(rest)->0;
        assert(xs == seq![wire_read(s[0])->0] + ys);
        assert(xs[0] == wire_read(s[0])->0);
        assert(normal(xs[0]));
        lemma_read_conv(s[0]);
        assert forall|i: int| 0 <= i < ys.len() implies normal(#[trigger] ys[i]) by {
            assert(xs[i + 1] == ys[i]);
            assert(normal(xs[i + 1]));
        }
        lemma_read_conv_seq(rest);
    }
}


/// A leaf that reads as the shape of a condition has the key and candidate
/// count of that condition.
pub proof fn lemma_wire_read_leaf(w: FilterExpressionWireV1, c: Condition)
    requires
        wire_read(w) == Some(ExprShape::Cond(c.spec_shape())),
    ensures
        wire_leaf(w) is Some,
        (wire_leaf(w)->0).1 == c.spec_key(),
        wire_set_len(w) == (match c {
            Condition::In { values, .. } => Some(values@.len()),
            Condition::NotIn { values, .. } => Some(values@.len()),
            _ => None::<nat>,
        }),
        forall|l: FilterLimits| #[trigger] leaf_limits((wire_leaf(w)->0).1, wire_set_len(w), l) == c.spec_validate_limits(l),
{
    assert(wire_leaf(w) is Some);
    let (kind, key, operands) = wire_leaf(w)->0;
    assert(operands is Some);
    match w {
        FilterExpressionWireV1::In { values, .. } | FilterExpressionWireV1::NotIn { values, .. } => {
            assert(operands->0 == values@.map_values(|v: WireValue| v->Scalar_0@));
            assert(operands->0.len() == values@.len());
            match c {
                Condition::In { values: cv, .. } | Condition::NotIn { values: cv, .. } => {
                    assert(crate::condition::value_models(cv@).len() == cv@.len());
                },
                _ => {},
            }
        },
        _ => {},
    }
}

} // verus!
