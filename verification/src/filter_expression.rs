use vstd::prelude::*;

use crate::condition::Condition;
use crate::expression_shape::{
    and_parts_of, is_constant, lemma_join_normal, normal, or_parts_of, shape_and, shape_depth, shape_nodes, shape_not,
    shape_or, shapes_depth, shapes_nodes, ExprShape,
};
use crate::filter_limit_kind::FilterLimitKind;
use crate::filter_wire::{
    lemma_wire_read_leaf, wire_read, wire_read_seq, wire_validate_at, wire_validate_seq, FilterExpressionWireV1,
};
use crate::filter_limits::FilterLimits;
use crate::match_outcome::{and2, not1, or2, MatchOutcome};
use crate::metadata::Metadata;
use crate::metadata_error::MetadataError;
use crate::value::NumericComparisonPolicy;
use crate::value::ValueModel;

verus! {

/// The private storage of one filter expression node.
#[derive(Debug, PartialEq)]
pub enum FilterExpressionNode {
    /// A leaf condition.
    Condition(Condition),
    /// All children must be true.
    And(Vec<FilterExpression>),
    /// At least one child must be true.
    Or(Vec<FilterExpression>),
    /// Three-valued negation.
    Not(Box<FilterExpression>),
    /// Constant true.
    True,
    /// Constant false.
    False,
}

/// An immutable Boolean expression over metadata conditions.
///
/// The node count and depth are cached; they always equal the counts of the
/// tree itself.
#[derive(Debug, PartialEq)]
pub struct FilterExpression {
    node: FilterExpressionNode,
    node_count: usize,
    max_depth: usize,
}

/// The number of nodes in an expression tree.
pub closed spec fn tree_nodes(e: FilterExpression) -> nat
    decreases e,
{
    match e.node {
        FilterExpressionNode::And(children) => 1 + nodes_sum(children@),
        FilterExpressionNode::Or(children) => 1 + nodes_sum(children@),
        FilterExpressionNode::Not(inner) => 1 + tree_nodes(*inner),
        _ => 1,
    }
}

/// The total number of nodes in a sequence of trees.
pub closed spec fn nodes_sum(s: Seq<FilterExpression>) -> nat
    decreases s,
{
    if s.len() == 0 {
        0
    } else {
        nodes_sum(s.drop_last()) + tree_nodes(s.last())
    }
}

/// The root-inclusive depth of an expression tree.
pub closed spec fn tree_depth(e: FilterExpression) -> nat
    decreases e,
{
    match e.node {
        FilterExpressionNode::And(children) => 1 + depth_max(children@),
        FilterExpressionNode::Or(children) => 1 + depth_max(children@),
        FilterExpressionNode::Not(inner) => 1 + tree_depth(*inner),
        _ => 1,
    }
}

/// The largest depth among a sequence of trees (zero when empty).
pub closed spec fn depth_max(s: Seq<FilterExpression>) -> nat
    decreases s,
{
    if s.len() == 0 {
        0
    } else {
        let a = depth_max(s.drop_last());
        let b = tree_depth(s.last());
        if a >= b { a } else { b }
    }
}

/// The three-valued outcome of an expression on a metadata map.
pub closed spec fn eval(e: FilterExpression, m: Map<Seq<char>, ValueModel>) -> MatchOutcome
    decreases e,
{
    match e.node {
        FilterExpressionNode::Condition(c) => c.spec_evaluate(m),
        FilterExpressionNode::And(children) => eval_and(children@, m),
        FilterExpressionNode::Or(children) => eval_or(children@, m),
        FilterExpressionNode::Not(inner) => not1(eval(*inner, m)),
        FilterExpressionNode::True => MatchOutcome::True,
        FilterExpressionNode::False => MatchOutcome::False,
    }
}

/// Three-valued conjunction of the outcomes of a sequence of trees.
pub closed spec fn eval_and(s: Seq<FilterExpression>, m: Map<Seq<char>, ValueModel>) -> MatchOutcome
    decreases s,
{
    if s.len() == 0 {
        MatchOutcome::True
    } else {
        and2(eval_and(s.drop_last(), m), eval(s.last(), m))
    }
}

/// Three-valued disjunction of the outcomes of a sequence of trees.
pub closed spec fn eval_or(s: Seq<FilterExpression>, m: Map<Seq<char>, ValueModel>) -> MatchOutcome
    decreases s,
{
    if s.len() == 0 {
        MatchOutcome::False
    } else {
        or2(eval_or(s.drop_last(), m), eval(s.last(), m))
    }
}

/// The children an expression contributes to an AND group: its own
/// children when it is an AND group, otherwise itself.
pub closed spec fn and_parts(e: FilterExpression) -> Seq<FilterExpression> {
    match e.node {
        FilterExpressionNode::And(children) => children@,
        _ => seq![e],
    }
}

/// The children an expression contributes to an OR group: its own children
/// when it is an OR group, otherwise itself.
pub closed spec fn or_parts(e: FilterExpression) -> Seq<FilterExpression> {
    match e.node {
        FilterExpressionNode::Or(children) => children@,
        _ => seq![e],
    }
}

proof fn lemma_nodes_concat(a: Seq<FilterExpression>, b: Seq<FilterExpression>)
    ensures
        nodes_sum(a + b) == nodes_sum(a) + nodes_sum(b),
        depth_max(a + b) == (if depth_max(a) >= depth_max(b) { depth_max(a) } else { depth_max(b) }),
    decreases b.len(),
{
    if b.len() == 0 {
        assert(a + b =~= a);
    } else {
        assert((a + b).drop_last() =~= a + b.drop_last());
        assert((a + b).last() == b.last());
        lemma_nodes_concat(a, b.drop_last());
    }
}

proof fn lemma_eval_concat(a: Seq<FilterExpression>, b: Seq<FilterExpression>, m: Map<Seq<char>, ValueModel>)
    ensures
        eval_and(a + b, m) == and2(eval_and(a, m), eval_and(b, m)),
        eval_or(a + b, m) == or2(eval_or(a, m), eval_or(b, m)),
    decreases b.len(),
{
    if b.len() == 0 {
        assert(a + b =~= a);
    } else {
        assert((a + b).drop_last() =~= a + b.drop_last());
        assert((a + b).last() == b.last());
        lemma_eval_concat(a, b.drop_last(), m);
    }
}

proof fn lemma_single(e: FilterExpression, m: Map<Seq<char>, ValueModel>)
    ensures
        nodes_sum(seq![e]) == tree_nodes(e),
        depth_max(seq![e]) == tree_depth(e),
        eval_and(seq![e], m) == eval(e, m),
        eval_or(seq![e], m) == eval(e, m),
{
    assert(seq![e].drop_last() =~= Seq::<FilterExpression>::empty());
    assert(nodes_sum(Seq::<FilterExpression>::empty()) == 0);
    assert(depth_max(Seq::<FilterExpression>::empty()) == 0);
    assert(eval_and(Seq::<FilterExpression>::empty(), m) == MatchOutcome::True);
    assert(eval_or(Seq::<FilterExpression>::empty(), m) == MatchOutcome::False);
    assert(seq![e].last() == e);
}

/// A tree is never deeper than it has nodes.
proof fn lemma_depth_le_nodes(e: FilterExpression)
    ensures
        1 <= tree_depth(e) <= tree_nodes(e),
    decreases e,
{
    match e.node {
        FilterExpressionNode::And(children) => lemma_depth_le_nodes_seq(children@),
        FilterExpressionNode::Or(children) => lemma_depth_le_nodes_seq(children@),
        FilterExpressionNode::Not(inner) => lemma_depth_le_nodes(*inner),
        _ => {},
    }
}

proof fn lemma_depth_le_nodes_seq(s: Seq<FilterExpression>)
    ensures
        depth_max(s) <= nodes_sum(s),
    decreases s,
{
    if s.len() > 0 {
        lemma_depth_le_nodes_seq(s.drop_last());
        lemma_depth_le_nodes(s.last());
    }
}

/// Depth-first limit validation of one tree at root-inclusive `depth`
/// after `count` nodes were visited: the first violation in preorder, and the
/// number of nodes visited when it stopped.
pub closed spec fn validate_at(e: FilterExpression, limits: FilterLimits, depth: nat, count: nat) -> (
    Result<(), MetadataError>,
    nat,
)
    decreases e,
{
    if depth > limits.spec_max_depth() {
        (
            Err(
                MetadataError::FilterLimitExceeded {
                    kind: FilterLimitKind::Depth,
                    value: depth as usize,
                    maximum: limits.spec_max_depth(),
                },
            ),
            count,
        )
    } else if count + 1 > limits.spec_max_nodes() {
        (
            Err(
                MetadataError::FilterLimitExceeded {
                    kind: FilterLimitKind::Nodes,
                    value: (count + 1) as usize,
                    maximum: limits.spec_max_nodes(),
                },
            ),
            count + 1,
        )
    } else {
        match e.node {
            FilterExpressionNode::Condition(c) => (c.spec_validate_limits(limits), count + 1),
            FilterExpressionNode::And(children) => validate_seq(children@, limits, depth + 1, count + 1),
            FilterExpressionNode::Or(children) => validate_seq(children@, limits, depth + 1, count + 1),
            FilterExpressionNode::Not(inner) => validate_at(*inner, limits, depth + 1, count + 1),
            _ => (Ok(()), count + 1),
        }
    }
}

/// Depth-first limit validation of a sequence of sibling trees.
pub closed spec fn validate_seq(s: Seq<FilterExpression>, limits: FilterLimits, depth: nat, count: nat) -> (
    Result<(), MetadataError>,
    nat,
)
    decreases s,
{
    if s.len() == 0 {
        (Ok(()), count)
    } else {
        let first = validate_at(s[0], limits, depth, count);
        if first.0 is Err {
            first
        } else {
            validate_seq(s.subrange(1, s.len() as int), limits, depth, first.1)
        }
    }
}

/// Limit validation of a whole expression.
pub open spec fn spec_validate(e: FilterExpression, limits: FilterLimits) -> Result<(), MetadataError> {
    validate_at(e, limits, 1, 0).0
}

/// `r` is the simplified conjunction of `left` and `right`.
pub closed spec fn is_and_of(r: FilterExpression, left: FilterExpression, right: FilterExpression) -> bool {
    if left.node is False || right.node is False {
        r.node is False
    } else if left.node is True {
        r == right
    } else if right.node is True {
        r == left
    } else {
        r.node matches FilterExpressionNode::And(children) && children@ == and_parts(left) + and_parts(right)
    }
}

/// `r` is the simplified disjunction of `left` and `right`.
pub closed spec fn is_or_of(r: FilterExpression, left: FilterExpression, right: FilterExpression) -> bool {
    if left.node is True || right.node is True {
        r.node is True
    } else if left.node is False {
        r == right
    } else if right.node is False {
        r == left
    } else {
        r.node matches FilterExpressionNode::Or(children) && children@ == or_parts(left) + or_parts(right)
    }
}

/// `r` is the simplified negation of `e`.
pub closed spec fn is_negation_of(r: FilterExpression, e: FilterExpression) -> bool {
    match e.node {
        FilterExpressionNode::True => r.node is False,
        FilterExpressionNode::False => r.node is True,
        FilterExpressionNode::Not(inner) => r == *inner,
        _ => r.node matches FilterExpressionNode::Not(inner) && *inner == e,
    }
}

proof fn lemma_eval_and_false(s: Seq<FilterExpression>, i: int, m: Map<Seq<char>, ValueModel>)
    requires
        0 <= i < s.len(),
        eval(s[i], m) == MatchOutcome::False,
    ensures
        eval_and(s, m) == MatchOutcome::False,
    decreases s.len(),
{
    if i < s.len() - 1 {
        assert(s.drop_last()[i] == s[i]);
        lemma_eval_and_false(s.drop_last(), i, m);
    }
}

proof fn lemma_eval_or_true(s: Seq<FilterExpression>, i: int, m: Map<Seq<char>, ValueModel>)
    requires
        0 <= i < s.len(),
        eval(s[i], m) == MatchOutcome::True,
    ensures
        eval_or(s, m) == MatchOutcome::True,
    decreases s.len(),
{
    if i < s.len() - 1 {
        assert(s.drop_last()[i] == s[i]);
        lemma_eval_or_true(s.drop_last(), i, m);
    }
}

proof fn lemma_eval_prefix(s: Seq<FilterExpression>, i: int, m: Map<Seq<char>, ValueModel>)
    requires
        0 <= i < s.len(),
    ensures
        eval_and(s.take(i + 1), m) == and2(eval_and(s.take(i), m), eval(s[i], m)),
        eval_or(s.take(i + 1), m) == or2(eval_or(s.take(i), m), eval(s[i], m)),
{
    assert(s.take(i + 1).drop_last() =~= s.take(i));
    assert(s.take(i + 1).last() == s[i]);
}

proof fn lemma_validate_step(s: Seq<FilterExpression>, i: int, limits: FilterLimits, depth: nat, count: nat)
    requires
        0 <= i < s.len(),
        validate_at(s[i], limits, depth, count).0 is Ok,
    ensures
        validate_seq(s.skip(i), limits, depth, count) == validate_seq(
            s.skip(i + 1),
            limits,
            depth,
            validate_at(s[i], limits, depth, count).1,
        ),
{
    assert(s.skip(i).subrange(1, s.skip(i).len() as int) =~= s.skip(i + 1));
    assert(s.skip(i)[0] == s[i]);
}

proof fn lemma_and_parts(e: FilterExpression)
    ensures
        nodes_sum(and_parts(e)) + (if e.node is And { 1int } else { 0int }) == tree_nodes(e),
        depth_max(and_parts(e)) + (if e.node is And { 1int } else { 0int }) == tree_depth(e),
        forall|m: Map<Seq<char>, ValueModel>| #[trigger] eval_and(and_parts(e), m) == eval(e, m),
{
    if !(e.node is And) {
        lemma_single(e, Map::empty());
        assert forall|m: Map<Seq<char>, ValueModel>| #[trigger] eval_and(and_parts(e), m) == eval(e, m) by {
            lemma_single(e, m);
        }
    }
}

proof fn lemma_or_parts(e: FilterExpression)
    ensures
        nodes_sum(or_parts(e)) + (if e.node is Or { 1int } else { 0int }) == tree_nodes(e),
        depth_max(or_parts(e)) + (if e.node is Or { 1int } else { 0int }) == tree_depth(e),
        forall|m: Map<Seq<char>, ValueModel>| #[trigger] eval_or(or_parts(e), m) == eval(e, m),
{
    if !(e.node is Or) {
        lemma_single(e, Map::empty());
        assert forall|m: Map<Seq<char>, ValueModel>| #[trigger] eval_or(or_parts(e), m) == eval(e, m) by {
            lemma_single(e, m);
        }
    }
}

/// The facts about an AND group built from the parts of two expressions.
proof fn lemma_join_and(l: FilterExpression, r: FilterExpression, children: Seq<FilterExpression>)
    requires
        children == and_parts(l) + and_parts(r),
    ensures
        1 + nodes_sum(children) == tree_nodes(l) + tree_nodes(r) + 1 - (if l.node is And { 1int } else { 0int })
            - (if r.node is And { 1int } else { 0int }),
        ({
            let dl = depth_max(and_parts(l)) as int;
            let dr = depth_max(and_parts(r)) as int;
            1 + depth_max(children) == 1 + (if dl >= dr { dl } else { dr })
        }),
        forall|m: Map<Seq<char>, ValueModel>| #[trigger] eval_and(children, m) == and2(eval(l, m), eval(r, m)),
{
    lemma_and_parts(l);
    lemma_and_parts(r);
    lemma_nodes_concat(and_parts(l), and_parts(r));
    assert forall|m: Map<Seq<char>, ValueModel>| #[trigger] eval_and(children, m) == and2(eval(l, m), eval(r, m)) by {
        lemma_eval_concat(and_parts(l), and_parts(r), m);
    }
}

/// The facts about an OR group built from the parts of two expressions.
proof fn lemma_join_or(l: FilterExpression, r: FilterExpression, children: Seq<FilterExpression>)
    requires
        children == or_parts(l) + or_parts(r),
    ensures
        1 + nodes_sum(children) == tree_nodes(l) + tree_nodes(r) + 1 - (if l.node is Or { 1int } else { 0int })
            - (if r.node is Or { 1int } else { 0int }),
        ({
            let dl = depth_max(or_parts(l)) as int;
            let dr = depth_max(or_parts(r)) as int;
            1 + depth_max(children) == 1 + (if dl >= dr { dl } else { dr })
        }),
        forall|m: Map<Seq<char>, ValueModel>| #[trigger] eval_or(children, m) == or2(eval(l, m), eval(r, m)),
{
    lemma_or_parts(l);
    lemma_or_parts(r);
    lemma_nodes_concat(or_parts(l), or_parts(r));
    assert forall|m: Map<Seq<char>, ValueModel>| #[trigger] eval_or(children, m) == or2(eval(l, m), eval(r, m)) by {
        lemma_eval_concat(or_parts(l), or_parts(r), m);
    }
}

/// Every leaf condition of the tree is within the key and membership
/// bounds of `limits`.
pub closed spec fn conditions_within(e: FilterExpression, limits: FilterLimits) -> bool
    decreases e,
{
    match e.node {
        FilterExpressionNode::Condition(c) => c.spec_validate_limits(limits) is Ok,
        FilterExpressionNode::And(children) => conditions_within_seq(children@, limits),
        FilterExpressionNode::Or(children) => conditions_within_seq(children@, limits),
        FilterExpressionNode::Not(inner) => conditions_within(*inner, limits),
        _ => true,
    }
}

/// Every tree of the sequence satisfies [`conditions_within`].
pub closed spec fn conditions_within_seq(s: Seq<FilterExpression>, limits: FilterLimits) -> bool
    decreases s,
{
    if s.len() == 0 {
        true
    } else {
        conditions_within(s[0], limits) && conditions_within_seq(s.subrange(1, s.len() as int), limits)
    }
}

proof fn lemma_front_split(s: Seq<FilterExpression>)
    requires
        s.len() > 0,
    ensures
        nodes_sum(s) == tree_nodes(s[0]) + nodes_sum(s.subrange(1, s.len() as int)),
        depth_max(s) == (if tree_depth(s[0]) >= depth_max(s.subrange(1, s.len() as int)) {
            tree_depth(s[0])
        } else {
            depth_max(s.subrange(1, s.len() as int))
        }),
{
    let rest = s.subrange(1, s.len() as int);
    assert(s =~= seq![s[0]] + rest);
    lemma_nodes_concat(seq![s[0]], rest);
    lemma_single(s[0], Map::empty());
}

/// A successful validation visits exactly the nodes of the tree and stays
/// within every bound.
proof fn lemma_validate_ok(e: FilterExpression, limits: FilterLimits, depth: nat, count: nat)
    requires
        validate_at(e, limits, depth, count).0 is Ok,
    ensures
        validate_at(e, limits, depth, count).1 == count + tree_nodes(e),
        count + tree_nodes(e) <= limits.spec_max_nodes(),
        depth + tree_depth(e) <= limits.spec_max_depth() + 1,
        conditions_within(e, limits),
    decreases e,
{
    match e.node {
        FilterExpressionNode::And(children) => {
            lemma_validate_seq_ok(children@, limits, depth + 1, count + 1);
            if children@.len() == 0 {
                assert(depth_max(children@) == 0);
            }
        },
        FilterExpressionNode::Or(children) => {
            lemma_validate_seq_ok(children@, limits, depth + 1, count + 1);
            if children@.len() == 0 {
                assert(depth_max(children@) == 0);
            }
        },
        FilterExpressionNode::Not(inner) => lemma_validate_ok(*inner, limits, depth + 1, count + 1),
        _ => {},
    }
}

proof fn lemma_validate_seq_ok(s: Seq<FilterExpression>, limits: FilterLimits, depth: nat, count: nat)
    requires
        validate_seq(s, limits, depth, count).0 is Ok,
    ensures
        validate_seq(s, limits, depth, count).1 == count + nodes_sum(s),
        s.len() > 0 ==> count + nodes_sum(s) <= limits.spec_max_nodes(),
        s.len() > 0 ==> depth + depth_max(s) <= limits.spec_max_depth() + 1,
        conditions_within_seq(s, limits),
    decreases s,
{
    if s.len() > 0 {
        let rest = s.subrange(1, s.len() as int);
        lemma_front_split(s);
        lemma_validate_ok(s[0], limits, depth, count);
        lemma_validate_seq_ok(rest, limits, depth, count + tree_nodes(s[0]));
    } else {
        assert(nodes_sum(s) == 0);
    }
}

/// A tree within every bound passes validation.
proof fn lemma_validate_within(e: FilterExpression, limits: FilterLimits, depth: nat, count: nat)
    requires
        1 <= depth,
        count + tree_nodes(e) <= limits.spec_max_nodes(),
        depth + tree_depth(e) <= limits.spec_max_depth() + 1,
        conditions_within(e, limits),
    ensures
        validate_at(e, limits, depth, count).0 is Ok,
    decreases e,
{
    lemma_depth_le_nodes(e);
    match e.node {
        FilterExpressionNode::And(children) => lemma_validate_seq_within(children@, limits, depth + 1, count + 1),
        FilterExpressionNode::Or(children) => lemma_validate_seq_within(children@, limits, depth + 1, count + 1),
        FilterExpressionNode::Not(inner) => lemma_validate_within(*inner, limits, depth + 1, count + 1),
        _ => {},
    }
}

proof fn lemma_validate_seq_within(s: Seq<FilterExpression>, limits: FilterLimits, depth: nat, count: nat)
    requires
        1 <= depth,
        count + nodes_sum(s) <= limits.spec_max_nodes(),
        depth + depth_max(s) <= limits.spec_max_depth() + 1,
        conditions_within_seq(s, limits),
    ensures
        validate_seq(s, limits, depth, count).0 is Ok,
    decreases s,
{
    if s.len() > 0 {
        let rest = s.subrange(1, s.len() as int);
        lemma_front_split(s);
        lemma_validate_within(s[0], limits, depth, count);
        lemma_validate_ok(s[0], limits, depth, count);
        lemma_validate_seq_within(rest, limits, depth, count + tree_nodes(s[0]));
    }
}

/// Limit validation succeeds exactly when the expression is no deeper and has
/// no more nodes than the limits allow, and every condition is within the key
/// and membership bounds.
pub proof fn lemma_validate_limits_exact(e: FilterExpression, limits: FilterLimits)
    ensures
        spec_validate(e, limits) is Ok <==> (tree_nodes(e) <= limits.spec_max_nodes() && tree_depth(e)
            <= limits.spec_max_depth() && conditions_within(e, limits)),
{
    if spec_validate(e, limits) is Ok {
        lemma_validate_ok(e, limits, 1, 0);
    }
    if tree_nodes(e) <= limits.spec_max_nodes() && tree_depth(e) <= limits.spec_max_depth() && conditions_within(
        e,
        limits,
    ) {
        lemma_validate_within(e, limits, 1, 0);
    }
}

/// Simplified conjunction keeps the meaning of AND: on every metadata map the
/// result evaluates to the three-valued AND of the two operands.
pub proof fn lemma_and_meaning(r: FilterExpression, left: FilterExpression, right: FilterExpression)
    requires
        is_and_of(r, left, right),
    ensures
        forall|m: Map<Seq<char>, ValueModel>| #[trigger] eval(r, m) == and2(eval(left, m), eval(right, m)),
{
    if !(left.node is False || right.node is False || left.node is True || right.node is True) {
        let children = r.node->And_0;
        lemma_join_and(left, right, children@);
        assert forall|m: Map<Seq<char>, ValueModel>| #[trigger] eval(r, m) == and2(eval(left, m), eval(right, m)) by {
            assert(eval(r, m) == eval_and(children@, m));
        }
    }
}

/// Simplified disjunction keeps the meaning of OR: on every metadata map the
/// result evaluates to the three-valued OR of the two operands.
pub proof fn lemma_or_meaning(r: FilterExpression, left: FilterExpression, right: FilterExpression)
    requires
        is_or_of(r, left, right),
    ensures
        forall|m: Map<Seq<char>, ValueModel>| #[trigger] eval(r, m) == or2(eval(left, m), eval(right, m)),
{
    if !(left.node is False || right.node is False || left.node is True || right.node is True) {
        let children = r.node->Or_0;
        lemma_join_or(left, right, children@);
        assert forall|m: Map<Seq<char>, ValueModel>| #[trigger] eval(r, m) == or2(eval(left, m), eval(right, m)) by {
            assert(eval(r, m) == eval_or(children@, m));
        }
    }
}

/// Simplified negation keeps the meaning of NOT: on every metadata map the
/// result evaluates to the three-valued negation of the operand.
pub proof fn lemma_negation_meaning(r: FilterExpression, e: FilterExpression)
    requires
        is_negation_of(r, e),
    ensures
        forall|m: Map<Seq<char>, ValueModel>| #[trigger] eval(r, m) == not1(eval(e, m)),
{
    assert forall|m: Map<Seq<char>, ValueModel>| #[trigger] eval(r, m) == not1(eval(e, m)) by {
        match e.node {
            FilterExpressionNode::Not(inner) => {
                assert(eval(e, m) == not1(eval(*inner, m)));
            },
            _ => {},
        }
    }
}

/// A single-condition expression passes validation exactly when its
/// condition is within the key and membership bounds.
pub proof fn lemma_leaf_valid(c: Condition, limits: FilterLimits)
    requires
        limits.wf(),
    ensures
        spec_validate(FilterExpression::leaf(c), limits) == c.spec_validate_limits(limits),
{
}

/// A single-condition expression evaluates exactly as its condition.
pub proof fn lemma_leaf_meaning(c: Condition)
    ensures
        forall|m: Map<Seq<char>, ValueModel>| #[trigger] eval(FilterExpression::leaf(c), m) == c.spec_evaluate(m),
        shape(FilterExpression::leaf(c)) == ExprShape::Cond(c.spec_shape()),
        tree_nodes(FilterExpression::leaf(c)) == 1,
        tree_depth(FilterExpression::leaf(c)) == 1,
        FilterExpression::leaf(c).spec_node() == FilterExpressionNode::Condition(c),
{
}

/// The mathematical content of an expression tree.
pub closed spec fn shape(e: FilterExpression) -> ExprShape
    decreases e,
{
    match e.node {
        FilterExpressionNode::Condition(c) => ExprShape::Cond(c.spec_shape()),
        FilterExpressionNode::And(children) => ExprShape::And(shapes(children@)),
        FilterExpressionNode::Or(children) => ExprShape::Or(shapes(children@)),
        FilterExpressionNode::Not(inner) => ExprShape::Not(Box::new(shape(*inner))),
        FilterExpressionNode::True => ExprShape::True,
        FilterExpressionNode::False => ExprShape::False,
    }
}

/// The shapes of a sequence of trees.
pub closed spec fn shapes(s: Seq<FilterExpression>) -> Seq<ExprShape>
    decreases s,
{
    if s.len() == 0 {
        Seq::empty()
    } else {
        shapes(s.drop_last()).push(shape(s.last()))
    }
}

pub proof fn lemma_shapes_index(s: Seq<FilterExpression>)
    ensures
        shapes(s).len() == s.len(),
        forall|i: int| 0 <= i < s.len() ==> #[trigger] shapes(s)[i] == shape(s[i]),
    decreases s.len(),
{
    if s.len() > 0 {
        lemma_shapes_index(s.drop_last());
        assert forall|i: int| 0 <= i < s.len() implies #[trigger] shapes(s)[i] == shape(s[i]) by {
            if i < s.len() - 1 {
                assert(s.drop_last()[i] == s[i]);
            }
        }
    }
}

proof fn lemma_shapes_concat(a: Seq<FilterExpression>, b: Seq<FilterExpression>)
    ensures
        shapes(a + b) == shapes(a) + shapes(b),
{
    lemma_shapes_index(a);
    lemma_shapes_index(b);
    lemma_shapes_index(a + b);
    assert forall|i: int| 0 <= i < (a + b).len() implies #[trigger] shapes(a + b)[i] == (shapes(a) + shapes(b))[i] by {
        if i < a.len() {
            assert((a + b)[i] == a[i]);
        } else {
            assert((a + b)[i] == b[i - a.len()]);
        }
    }
    assert(shapes(a + b) =~= shapes(a) + shapes(b));
}

/// The root of an expression is a constant exactly when the root of its
/// shape is.
proof fn lemma_shape_root(e: FilterExpression)
    ensures
        (shape(e) is True) == (e.node is True),
        (shape(e) is False) == (e.node is False),
        (shape(e) is And) == (e.node is And),
        (shape(e) is Or) == (e.node is Or),
        (shape(e) is Not) == (e.node is Not),
{
}

/// Simplified conjunction with a constant: FALSE on either side absorbs, and
/// TRUE on one side gives back the other operand itself.
pub proof fn lemma_and_constants(r: FilterExpression, left: FilterExpression, right: FilterExpression)
    requires
        is_and_of(r, left, right),
    ensures
        shape(left) is False || shape(right) is False ==> shape(r) is False,
        shape(left) is True && !(shape(right) is False) ==> r == right,
        shape(right) is True && !is_constant(shape(left)) ==> r == left,
{
    lemma_shape_root(r);
    lemma_shape_root(left);
    lemma_shape_root(right);
}

/// Simplified disjunction with a constant: TRUE on either side absorbs, and
/// FALSE on one side gives back the other operand itself.
pub proof fn lemma_or_constants(r: FilterExpression, left: FilterExpression, right: FilterExpression)
    requires
        is_or_of(r, left, right),
    ensures
        shape(left) is True || shape(right) is True ==> shape(r) is True,
        shape(left) is False && !(shape(right) is True) ==> r == right,
        shape(right) is False && !is_constant(shape(left)) ==> r == left,
{
    lemma_shape_root(r);
    lemma_shape_root(left);
    lemma_shape_root(right);
}

/// Simplified negation swaps the two constants, and negating twice gives back
/// an expression of the original shape; one that is neither a negation nor a
/// constant comes back unchanged.
pub proof fn lemma_double_negation(e: FilterExpression, once: FilterExpression, twice: FilterExpression)
    requires
        normal(shape(e)),
        is_negation_of(once, e),
        is_negation_of(twice, once),
    ensures
        shape(e) is True ==> shape(once) is False,
        shape(e) is False ==> shape(once) is True,
        shape(twice) == shape(e),
        !(shape(e) is Not) && !is_constant(shape(e)) ==> twice == e,
{
    lemma_shape_root(e);
    lemma_shape_root(once);
    lemma_shape_root(twice);
    match e.node {
        FilterExpressionNode::Not(inner) => {
            assert(shape(e) == ExprShape::Not(Box::new(shape(*inner))));
            lemma_shape_root(*inner);
            assert(once == *inner);
            let x = twice.node->Not_0;
            assert(*x == once);
            assert(shape(twice) == ExprShape::Not(Box::new(shape(*x))));
        },
        _ => {},
    }
}

/// The node count and depth of an expression, which its limits are checked
/// against, are those of its shape: one per node, a group or negation adding
/// one to its children's total and to their largest depth.
pub proof fn lemma_metrics_of_shape(e: FilterExpression)
    ensures
        tree_nodes(e) == shape_nodes(shape(e)),
        tree_depth(e) == shape_depth(shape(e)),
    decreases e,
{
    match e.node {
        FilterExpressionNode::And(x) => {
            lemma_metrics_of_shapes(x@);
        },
        FilterExpressionNode::Or(x) => {
            lemma_metrics_of_shapes(x@);
        },
        FilterExpressionNode::Not(x) => {
            lemma_metrics_of_shape(*x);
        },
        _ => {},
    }
}

/// The sequence form of [`lemma_metrics_of_shape`].
proof fn lemma_metrics_of_shapes(s: Seq<FilterExpression>)
    ensures
        nodes_sum(s) == shapes_nodes(shapes(s)),
        depth_max(s) == shapes_depth(shapes(s)),
    decreases s,
{
    if s.len() > 0 {
        let d = s.drop_last();
        assert(shapes(s).drop_last() =~= shapes(d));
        assert(shapes(s).last() == shape(s.last()));
        lemma_metrics_of_shapes(d);
        lemma_metrics_of_shape(s.last());
    }
}

/// The shape of a simplified conjunction is the simplified conjunction of the
/// shapes.
pub proof fn lemma_and_shape(r: FilterExpression, left: FilterExpression, right: FilterExpression)
    requires
        is_and_of(r, left, right),
    ensures
        shape(r) == shape_and(shape(left), shape(right)),
{
    lemma_shape_root(left);
    lemma_shape_root(right);
    if !(left.node is False || right.node is False || left.node is True || right.node is True) {
        let children = r.node->And_0;
        lemma_shapes_concat(and_parts(left), and_parts(right));
        assert(shapes(and_parts(left)) == and_parts_of(shape(left))) by {
            if !(left.node is And) {
                assert(shapes(seq![left]) =~= seq![shape(left)]) by {
                    lemma_shapes_index(seq![left]);
                }
            }
        }
        assert(shapes(and_parts(right)) == and_parts_of(shape(right))) by {
            if !(right.node is And) {
                assert(shapes(seq![right]) =~= seq![shape(right)]) by {
                    lemma_shapes_index(seq![right]);
                }
            }
        }
    }
}

/// The shape of a simplified disjunction is the simplified disjunction of
/// the shapes.
pub proof fn lemma_or_shape(r: FilterExpression, left: FilterExpression, right: FilterExpression)
    requires
        is_or_of(r, left, right),
    ensures
        shape(r) == shape_or(shape(left), shape(right)),
{
    lemma_shape_root(left);
    lemma_shape_root(right);
    if !(left.node is False || right.node is False || left.node is True || right.node is True) {
        lemma_shapes_concat(or_parts(left), or_parts(right));
        assert(shapes(or_parts(left)) == or_parts_of(shape(left))) by {
            if !(left.node is Or) {
                assert(shapes(seq![left]) =~= seq![shape(left)]) by {
                    lemma_shapes_index(seq![left]);
                }
            }
        }
        assert(shapes(or_parts(right)) == or_parts_of(shape(right))) by {
            if !(right.node is Or) {
                assert(shapes(seq![right]) =~= seq![shape(right)]) by {
                    lemma_shapes_index(seq![right]);
                }
            }
        }
    }
}

/// The shape of a simplified negation is the simplified negation of the
/// shape.
pub proof fn lemma_negation_shape(r: FilterExpression, e: FilterExpression)
    requires
        is_negation_of(r, e),
    ensures
        shape(r) == shape_not(shape(e)),
{
    lemma_shape_root(e);
}

/// The shape facts of a group built from the parts of two normal,
/// non-constant expressions.
proof fn lemma_group_shape(children: Seq<FilterExpression>, left: FilterExpression, right: FilterExpression, and: bool)
    requires
        normal(shape(left)),
        normal(shape(right)),
        !is_constant(shape(left)),
        !is_constant(shape(right)),
        and ==> children == and_parts(left) + and_parts(right),
        !and ==> children == or_parts(left) + or_parts(right),
    ensures
        and ==> ExprShape::And(shapes(children)) == shape_and(shape(left), shape(right)),
        !and ==> ExprShape::Or(shapes(children)) == shape_or(shape(left), shape(right)),
        and ==> normal(ExprShape::And(shapes(children))),
        !and ==> normal(ExprShape::Or(shapes(children))),
{
    lemma_shape_root(left);
    lemma_shape_root(right);
    lemma_join_normal(shape(left), shape(right), and);
    if and {
        lemma_shapes_concat(and_parts(left), and_parts(right));
        if !(left.node is And) {
            lemma_shapes_index(seq![left]);
            assert(shapes(seq![left]) =~= seq![shape(left)]);
        }
        if !(right.node is And) {
            lemma_shapes_index(seq![right]);
            assert(shapes(seq![right]) =~= seq![shape(right)]);
        }
    } else {
        lemma_shapes_concat(or_parts(left), or_parts(right));
        if !(left.node is Or) {
            lemma_shapes_index(seq![left]);
            assert(shapes(seq![left]) =~= seq![shape(left)]);
        }
        if !(right.node is Or) {
            lemma_shapes_index(seq![right]);
            assert(shapes(seq![right]) =~= seq![shape(right)]);
        }
    }
}

/// Trees of the same shape behave alike: they have the same node count and
/// depth, evaluate identically on every metadata map, and pass or fail
/// validation identically under every limits.
pub proof fn lemma_same_shape_behaves(a: FilterExpression, b: FilterExpression)
    requires
        shape(a) == shape(b),
    ensures
        tree_nodes(a) == tree_nodes(b),
        tree_depth(a) == tree_depth(b),
        forall|m: Map<Seq<char>, ValueModel>| #[trigger] eval(a, m) == eval(b, m),
        forall|l: FilterLimits| #[trigger] spec_validate(a, l) == spec_validate(b, l),
{
    lemma_same_shape_tree(a, b, None, None);
    assert forall|m: Map<Seq<char>, ValueModel>| #[trigger] eval(a, m) == eval(b, m) by {
        lemma_same_shape_tree(a, b, Some(m), None);
    }
    assert forall|l: FilterLimits| #[trigger] spec_validate(a, l) == spec_validate(b, l) by {
        lemma_same_shape_tree(a, b, None, Some((l, 1nat, 0nat)));
    }
}

/// The shape-determined facts of two trees of the same shape, for one
/// metadata map and one validation state when given.
proof fn lemma_same_shape_tree(
    a: FilterExpression,
    b: FilterExpression,
    m: Option<Map<Seq<char>, ValueModel>>,
    v: Option<(FilterLimits, nat, nat)>,
)
    requires
        shape(a) == shape(b),
    ensures
        tree_nodes(a) == tree_nodes(b),
        tree_depth(a) == tree_depth(b),
        m matches Some(m) ==> eval(a, m) == eval(b, m),
        v matches Some((l, d, c)) ==> validate_at(a, l, d, c) == validate_at(b, l, d, c),
    decreases a,
{
    lemma_shape_root(a);
    lemma_shape_root(b);
    match a.node {
        FilterExpressionNode::Condition(x) => {
            let y = b.node->Condition_0;
            crate::condition::lemma_same_shape(x, y);
        },
        FilterExpressionNode::And(x) => {
            let y = b.node->And_0;
            assert(shapes(x@) == shapes(y@));
            let w = match v {
                Some((l, d, c)) => Some((l, d + 1, c + 1)),
                None => None,
            };
            lemma_same_shapes_seq(x@, y@, m, w);
        },
        FilterExpressionNode::Or(x) => {
            let y = b.node->Or_0;
            assert(shapes(x@) == shapes(y@));
            let w = match v {
                Some((l, d, c)) => Some((l, d + 1, c + 1)),
                None => None,
            };
            lemma_same_shapes_seq(x@, y@, m, w);
        },
        FilterExpressionNode::Not(x) => {
            let y = b.node->Not_0;
            assert(shape(*x) == shape(*y));
            let w = match v {
                Some((l, d, c)) => Some((l, d + 1, c + 1)),
                None => None,
            };
            lemma_same_shape_tree(*x, *y, m, w);
        },
        _ => {},
    }
}

proof fn lemma_same_shapes_seq(
    a: Seq<FilterExpression>,
    b: Seq<FilterExpression>,
    m: Option<Map<Seq<char>, ValueModel>>,
    v: Option<(FilterLimits, nat, nat)>,
)
    requires
        shapes(a) == shapes(b),
    ensures
        nodes_sum(a) == nodes_sum(b),
        depth_max(a) == depth_max(b),
        m matches Some(m) ==> eval_and(a, m) == eval_and(b, m) && eval_or(a, m) == eval_or(b, m),
        v matches Some((l, d, c)) ==> validate_seq(a, l, d, c) == validate_seq(b, l, d, c),
    decreases a,
{
    lemma_shapes_index(a);
    lemma_shapes_index(b);
    if a.len() > 0 {
        let da = a.drop_last();
        let db = b.drop_last();
        let ra = a.subrange(1, a.len() as int);
        let rb = b.subrange(1, b.len() as int);
        assert(a.len() == b.len());
        lemma_same_elementwise(a, b, da, db, 0);
        lemma_same_elementwise(a, b, ra, rb, 1);
        assert(shape(a.last()) == shape(b.last())) by {
            assert(shapes(a)[a.len() - 1] == shapes(b)[a.len() - 1]);
            assert(shapes(a)[a.len() - 1] == shape(a[a.len() - 1]));
            assert(shapes(b)[a.len() - 1] == shape(b[a.len() - 1]));
        }
        assert(shape(a[0]) == shape(b[0])) by {
            assert(shapes(a)[0] == shapes(b)[0]);
            assert(shapes(a)[0] == shape(a[0]));
            assert(shapes(b)[0] == shape(b[0]));
        }
        lemma_same_shape_tree(a.last(), b.last(), m, None);
        lemma_same_shapes_seq(da, db, m, None);
        match v {
            Some((l, d, c)) => {
                lemma_same_shape_tree(a[0], b[0], None, Some((l, d, c)));
                let first = validate_at(a[0], l, d, c);
                lemma_same_shapes_seq(ra, rb, None, Some((l, d, first.1)));
            },
            None => {},
        }
    }
}

/// Two windows at the same offset of sequences with equal shapes have equal
/// shapes.
proof fn lemma_same_elementwise(
    a: Seq<FilterExpression>,
    b: Seq<FilterExpression>,
    wa: Seq<FilterExpression>,
    wb: Seq<FilterExpression>,
    offset: int,
)
    requires
        shapes(a) == shapes(b),
        0 <= offset,
        wa.len() == wb.len(),
        offset + wa.len() <= a.len(),
        forall|i: int| 0 <= i < wa.len() ==> #[trigger] wa[i] == a[i + offset],
        forall|i: int| 0 <= i < wb.len() ==> #[trigger] wb[i] == b[i + offset],
    ensures
        shapes(wa) == shapes(wb),
{
    lemma_shapes_index(a);
    lemma_shapes_index(b);
    lemma_shapes_index(wa);
    lemma_shapes_index(wb);
    assert(a.len() == b.len());
    assert forall|i: int| 0 <= i < wa.len() implies #[trigger] shapes(wa)[i] == shapes(wb)[i] by {
        assert(wa[i] == a[i + offset]);
        assert(wb[i] == b[i + offset]);
        assert(shapes(a)[i + offset] == shapes(b)[i + offset]);
        assert(shapes(a)[i + offset] == shape(a[i + offset]));
        assert(shapes(b)[i + offset] == shape(b[i + offset]));
        assert(shapes(wa)[i] == shape(wa[i]));
        assert(shapes(wb)[i] == shape(wb[i]));
    }
    assert(shapes(wa) =~= shapes(wb));
}

/// The shape of an expression, one level down.
pub proof fn lemma_shape_unfold(e: FilterExpression)
    ensures
        shape(e) == (match e.spec_node() {
            FilterExpressionNode::Condition(c) => ExprShape::Cond(c.spec_shape()),
            FilterExpressionNode::And(children) => ExprShape::And(shapes(children@)),
            FilterExpressionNode::Or(children) => ExprShape::Or(shapes(children@)),
            FilterExpressionNode::Not(inner) => ExprShape::Not(Box::new(shape(*inner))),
            FilterExpressionNode::True => ExprShape::True,
            FilterExpressionNode::False => ExprShape::False,
        }),
{
}

/// The children of a group, and the operand of a negation, are smaller than
/// the expression.
pub proof fn lemma_children_decrease(e: FilterExpression, i: int)
    ensures
        e.spec_node() is And && 0 <= i < e.spec_node()->And_0@.len() ==> decreases_to!(e => e.spec_node()->And_0@[i]),
        e.spec_node() is Or && 0 <= i < e.spec_node()->Or_0@.len() ==> decreases_to!(e => e.spec_node()->Or_0@[i]),
        e.spec_node() is Not ==> decreases_to!(e => *e.spec_node()->Not_0),
{
    match e.node {
        FilterExpressionNode::And(children) => {
            if 0 <= i < children@.len() {
                assert(decreases_to!(e => e.node));
                assert(decreases_to!(e.node => children));
                assert(decreases_to!(children => children@));
                assert(decreases_to!(children@ => children@[i]));
            }
        },
        FilterExpressionNode::Or(children) => {
            if 0 <= i < children@.len() {
                assert(decreases_to!(e => e.node));
                assert(decreases_to!(e.node => children));
                assert(decreases_to!(children => children@));
                assert(decreases_to!(children@ => children@[i]));
            }
        },
        FilterExpressionNode::Not(inner) => {
            assert(decreases_to!(e => e.node));
            assert(decreases_to!(e.node => inner));
        },
        _ => {},
    }
}

/// Conditions within smaller limits are within larger ones.
proof fn lemma_conditions_monotone(e: FilterExpression, small: FilterLimits, large: FilterLimits)
    requires
        small.spec_max_set_values() <= large.spec_max_set_values(),
        small.spec_max_key_bytes() <= large.spec_max_key_bytes(),
        conditions_within(e, small),
    ensures
        conditions_within(e, large),
    decreases e,
{
    match e.node {
        FilterExpressionNode::And(children) => lemma_conditions_monotone_seq(children@, small, large),
        FilterExpressionNode::Or(children) => lemma_conditions_monotone_seq(children@, small, large),
        FilterExpressionNode::Not(inner) => lemma_conditions_monotone(*inner, small, large),
        _ => {},
    }
}

proof fn lemma_conditions_monotone_seq(s: Seq<FilterExpression>, small: FilterLimits, large: FilterLimits)
    requires
        small.spec_max_set_values() <= large.spec_max_set_values(),
        small.spec_max_key_bytes() <= large.spec_max_key_bytes(),
        conditions_within_seq(s, small),
    ensures
        conditions_within_seq(s, large),
    decreases s,
{
    if s.len() > 0 {
        lemma_conditions_monotone(s[0], small, large);
        lemma_conditions_monotone_seq(s.subrange(1, s.len() as int), small, large);
    }
}

/// An expression within some limits is within every larger limits.
pub proof fn lemma_validate_monotone(e: FilterExpression, small: FilterLimits, large: FilterLimits)
    requires
        small.spec_max_depth() <= large.spec_max_depth(),
        small.spec_max_nodes() <= large.spec_max_nodes(),
        small.spec_max_set_values() <= large.spec_max_set_values(),
        small.spec_max_key_bytes() <= large.spec_max_key_bytes(),
        spec_validate(e, small) is Ok,
    ensures
        spec_validate(e, large) is Ok,
{
    lemma_validate_limits_exact(e, small);
    lemma_validate_limits_exact(e, large);
    lemma_conditions_monotone(e, small, large);
}

/// A wire tree that reads as the shape of an expression is validated exactly
/// like that expression.
pub proof fn lemma_wire_validate_matches(
    w: FilterExpressionWireV1,
    e: FilterExpression,
    limits: FilterLimits,
    depth: nat,
    count: nat,
)
    requires
        wire_read(w) == Some(shape(e)),
    ensures
        wire_validate_at(w, limits, depth, count) == validate_at(e, limits, depth, count),
    decreases e,
{
    match e.node {
        FilterExpressionNode::Condition(c) => {
            lemma_wire_read_leaf(w, c);
        },
        FilterExpressionNode::And(children) => {
            let wc = w->And_children;
            lemma_wire_validate_matches_seq(wc@, children@, limits, depth + 1, count + 1);
        },
        FilterExpressionNode::Or(children) => {
            let wc = w->Or_children;
            lemma_wire_validate_matches_seq(wc@, children@, limits, depth + 1, count + 1);
        },
        FilterExpressionNode::Not(inner) => {
            lemma_wire_validate_matches(*w->Not_expression, *inner, limits, depth + 1, count + 1);
        },
        _ => {},
    }
}

proof fn lemma_wire_validate_matches_seq(
    ws: Seq<FilterExpressionWireV1>,
    es: Seq<FilterExpression>,
    limits: FilterLimits,
    depth: nat,
    count: nat,
)
    requires
        wire_read_seq(ws) == Some(shapes(es)),
    ensures
        wire_validate_seq(ws, limits, depth, count) == validate_seq(es, limits, depth, count),
    decreases es,
{
    lemma_shapes_index(es);
    if es.len() > 0 {
        let rw = ws.subrange(1, ws.len() as int);
        let re = es.subrange(1, es.len() as int);
        lemma_shapes_index(re);
        assert(ws.len() > 0);
        let xs = shapes(es);
        assert(wire_read(ws[0]) == Some(xs[0]));
        assert(shapes(re) =~= xs.subrange(1, xs.len() as int)) by {
            assert forall|j: int| 0 <= j < re.len() implies #[trigger] shapes(re)[j] == xs.subrange(1, xs.len() as int)[j] by {
                assert(re[j] == es[j + 1]);
            }
        }
        assert(wire_read_seq(rw) == Some(shapes(re)));
        lemma_wire_validate_matches(ws[0], es[0], limits, depth, count);
        let first = validate_at(es[0], limits, depth, count);
        lemma_wire_validate_matches_seq(rw, re, limits, depth, first.1);
    } else {
        assert(shapes(es).len() == 0);
    }
}

proof fn lemma_conditions_concat(a: Seq<FilterExpression>, b: Seq<FilterExpression>, limits: FilterLimits)
    requires
        conditions_within_seq(a, limits),
        conditions_within_seq(b, limits),
    ensures
        conditions_within_seq(a + b, limits),
    decreases a.len(),
{
    if a.len() == 0 {
        assert(a + b =~= b);
    } else {
        assert((a + b)[0] == a[0]);
        assert((a + b).subrange(1, (a + b).len() as int) =~= a.subrange(1, a.len() as int) + b);
        lemma_conditions_concat(a.subrange(1, a.len() as int), b, limits);
    }
}

proof fn lemma_conditions_single(e: FilterExpression, limits: FilterLimits)
    ensures
        conditions_within_seq(seq![e], limits) == conditions_within(e, limits),
{
    assert(seq![e].subrange(1, 1) =~= Seq::<FilterExpression>::empty());
    assert(seq![e][0] == e);
    assert(conditions_within_seq(Seq::<FilterExpression>::empty(), limits));
}

/// A simplified conjunction is at most one level deeper than its operands,
/// reuses the depth of an AND operand, and keeps every condition of its
/// operands.
pub proof fn lemma_and_metrics(r: FilterExpression, left: FilterExpression, right: FilterExpression)
    requires
        is_and_of(r, left, right),
    ensures
        tree_depth(r) <= (if tree_depth(left) + (if left.spec_node() is And { 0int } else { 1 }) >= tree_depth(right) + 1 {
            tree_depth(left) + (if left.spec_node() is And { 0int } else { 1 })
        } else {
            tree_depth(right) + 1int
        }),
        !(r.spec_node() is And) && left.spec_node() is And ==> r.spec_node() is False,
        r.spec_node() is False ==> tree_depth(r) == 1,
        !(r.spec_node() is And) ==> tree_depth(r) <= (if tree_depth(left) >= tree_depth(right) {
            tree_depth(left)
        } else {
            tree_depth(right)
        }),
        forall|l: FilterLimits|
            conditions_within(left, l) && conditions_within(right, l) ==> #[trigger] conditions_within(r, l),
{
    lemma_depth_le_nodes(left);
    lemma_depth_le_nodes(right);
    if !(left.node is False || right.node is False || left.node is True || right.node is True) {
        let children = r.node->And_0;
        lemma_and_parts(left);
        lemma_and_parts(right);
        lemma_nodes_concat(and_parts(left), and_parts(right));
        assert forall|l: FilterLimits|
            conditions_within(left, l) && conditions_within(right, l) implies #[trigger] conditions_within(r, l) by {
            if !(left.node is And) {
                lemma_conditions_single(left, l);
            }
            if !(right.node is And) {
                lemma_conditions_single(right, l);
            }
            lemma_conditions_concat(and_parts(left), and_parts(right), l);
        }
    }
}

/// A simplified disjunction is at most one level deeper than its operands,
/// reuses the depth of an OR operand, and keeps every condition of its
/// operands.
pub proof fn lemma_or_metrics(r: FilterExpression, left: FilterExpression, right: FilterExpression)
    requires
        is_or_of(r, left, right),
    ensures
        tree_depth(r) <= (if tree_depth(left) + (if left.spec_node() is Or { 0int } else { 1 }) >= tree_depth(right) + 1 {
            tree_depth(left) + (if left.spec_node() is Or { 0int } else { 1 })
        } else {
            tree_depth(right) + 1int
        }),
        !(r.spec_node() is Or) && left.spec_node() is Or ==> r.spec_node() is True,
        r.spec_node() is True ==> tree_depth(r) == 1,
        !(r.spec_node() is Or) ==> tree_depth(r) <= (if tree_depth(left) >= tree_depth(right) {
            tree_depth(left)
        } else {
            tree_depth(right)
        }),
        forall|l: FilterLimits|
            conditions_within(left, l) && conditions_within(right, l) ==> #[trigger] conditions_within(r, l),
{
    lemma_depth_le_nodes(left);
    lemma_depth_le_nodes(right);
    if !(left.node is False || right.node is False || left.node is True || right.node is True) {
        lemma_or_parts(left);
        lemma_or_parts(right);
        lemma_nodes_concat(or_parts(left), or_parts(right));
        assert forall|l: FilterLimits|
            conditions_within(left, l) && conditions_within(right, l) implies #[trigger] conditions_within(r, l) by {
            if !(left.node is Or) {
                lemma_conditions_single(left, l);
            }
            if !(right.node is Or) {
                lemma_conditions_single(right, l);
            }
            lemma_conditions_concat(or_parts(left), or_parts(right), l);
        }
    }
}

/// A simplified negation is at most one level deeper than its operand and
/// keeps every condition of it.
pub proof fn lemma_negation_metrics(r: FilterExpression, e: FilterExpression)
    requires
        is_negation_of(r, e),
    ensures
        tree_depth(r) <= tree_depth(e) + 1,
        forall|l: FilterLimits| conditions_within(e, l) ==> #[trigger] conditions_within(r, l),
{
    lemma_depth_le_nodes(e);
    lemma_depth_le_nodes(r);
}

/// A single-condition expression is within the limits exactly when its
/// condition is.
pub proof fn lemma_leaf_conditions(c: Condition, limits: FilterLimits)
    ensures
        conditions_within(FilterExpression::leaf(c), limits) == (c.spec_validate_limits(limits) is Ok),
        tree_depth(FilterExpression::leaf(c)) == 1,
{
}

/// The constants have no condition.
pub proof fn lemma_constant_conditions(e: FilterExpression, limits: FilterLimits)
    requires
        e.spec_node() is True || e.spec_node() is False,
    ensures
        conditions_within(e, limits),
        tree_depth(e) == 1,
{
}

impl FilterExpression {
    #[verifier::type_invariant]
    spec fn inv(self) -> bool {
        &&& self.node_count == tree_nodes(self)
        &&& self.max_depth == tree_depth(self)
        &&& normal(shape(self))
    }

    /// The node stored at the root of this expression.
    pub closed spec fn spec_node(self) -> FilterExpressionNode {
        self.node
    }

    /// The normal form that every expression keeps.
    pub open spec fn wf(self) -> bool {
        normal(shape(self))
    }

    /// States that this expression is in normal form.
    pub(crate) fn reveal_normal_form(&self)
        ensures
            self.wf(),
    {
        proof {
            use_type_invariant(self);
        }
    }

    /// The single-condition expression for `c`.
    pub closed spec fn leaf(c: Condition) -> FilterExpression {
        FilterExpression { node: FilterExpressionNode::Condition(c), node_count: 1, max_depth: 1 }
    }

    /// The constant true expression.
    pub closed spec fn spec_true() -> FilterExpression {
        FilterExpression { node: FilterExpressionNode::True, node_count: 1, max_depth: 1 }
    }

    /// The constant false expression.
    pub closed spec fn spec_false() -> FilterExpression {
        FilterExpression { node: FilterExpressionNode::False, node_count: 1, max_depth: 1 }
    }

    /// The negation node wrapping `e`.
    pub closed spec fn spec_not(e: FilterExpression) -> FilterExpression {
        FilterExpression {
            node: FilterExpressionNode::Not(Box::new(e)),
            node_count: (tree_nodes(e) + 1) as usize,
            max_depth: (tree_depth(e) + 1) as usize,
        }
    }

    /// Creates a leaf expression for `condition` after validating its
    /// operands.
    pub(crate) fn condition(condition: Condition) -> (r: Result<FilterExpression, MetadataError>)
        ensures
            condition.spec_operands_valid() <==> r is Ok,
            r matches Ok(e) ==> e == FilterExpression::leaf(condition),
            r matches Err(e) ==> exists|i: int|
                crate::condition::first_unset(condition.spec_operands(), i) && crate::condition::is_operand_error(
                    e,
                    condition.spec_operator(),
                    condition.spec_operands()[i],
                ),
    {
        match condition.validate_operands() {
            Ok(()) => Ok(
                FilterExpression {
                    node: FilterExpressionNode::Condition(condition),
                    node_count: 1,
                    max_depth: 1,
                },
            ),
            Err(e) => Err(e),
        }
    }

    /// Creates a constant true expression.
    pub(crate) fn true_expression() -> (r: FilterExpression)
        ensures
            r == FilterExpression::spec_true(),
            r.spec_node() is True,
            tree_nodes(r) == 1,
            tree_depth(r) == 1,
            forall|m: Map<Seq<char>, ValueModel>| #[trigger] eval(r, m) == MatchOutcome::True,
            forall|l: FilterLimits| l.wf() ==> #[trigger] spec_validate(r, l) is Ok,
            shape(r) == ExprShape::True,
    {
        FilterExpression { node: FilterExpressionNode::True, node_count: 1, max_depth: 1 }
    }

    /// Creates a constant false expression.
    pub(crate) fn false_expression() -> (r: FilterExpression)
        ensures
            r == FilterExpression::spec_false(),
            r.spec_node() is False,
            tree_nodes(r) == 1,
            tree_depth(r) == 1,
            forall|m: Map<Seq<char>, ValueModel>| #[trigger] eval(r, m) == MatchOutcome::False,
            forall|l: FilterLimits| l.wf() ==> #[trigger] spec_validate(r, l) is Ok,
            shape(r) == ExprShape::False,
    {
        FilterExpression { node: FilterExpressionNode::False, node_count: 1, max_depth: 1 }
    }

    /// Creates an expression that matches every metadata object.
    pub fn match_all() -> (r: FilterExpression)
        ensures
            r == FilterExpression::spec_true(),
            r.spec_node() is True,
            tree_nodes(r) == 1,
            forall|m: Map<Seq<char>, ValueModel>| #[trigger] eval(r, m) == MatchOutcome::True,
            forall|l: FilterLimits| l.wf() ==> #[trigger] spec_validate(r, l) is Ok,
            shape(r) == ExprShape::True,
    {
        Self::true_expression()
    }

    /// Creates an expression that matches no metadata object.
    pub fn match_none() -> (r: FilterExpression)
        ensures
            r == FilterExpression::spec_false(),
            r.spec_node() is False,
            tree_nodes(r) == 1,
            forall|m: Map<Seq<char>, ValueModel>| #[trigger] eval(r, m) == MatchOutcome::False,
            forall|l: FilterLimits| l.wf() ==> #[trigger] spec_validate(r, l) is Ok,
            shape(r) == ExprShape::False,
    {
        Self::false_expression()
    }

    /// Reports whether this is the constant true expression.
    pub(crate) fn is_true(&self) -> (r: bool)
        ensures
            r == (self.spec_node() is True),
    {
        matches!(&self.node, FilterExpressionNode::True)
    }

    /// Reports whether this is the constant false expression.
    pub(crate) fn is_false(&self) -> (r: bool)
        ensures
            r == (self.spec_node() is False),
    {
        matches!(&self.node, FilterExpressionNode::False)
    }

    /// Returns the cached node count.
    pub fn node_count(&self) -> (r: usize)
        ensures
            r == tree_nodes(*self),
    {
        proof {
            use_type_invariant(self);
        }
        self.node_count
    }

    /// Returns the cached root-inclusive depth.
    pub fn max_depth(&self) -> (r: usize)
        ensures
            r == tree_depth(*self),
    {
        proof {
            use_type_invariant(self);
        }
        self.max_depth
    }

    /// Computes the metrics of two expressions joined under one operator,
    /// where a joined root of the same operator is flattened into the result.
    fn combined_metrics(left: &FilterExpression, right: &FilterExpression, left_same_kind: bool, right_same_kind: bool) -> (r: (
        usize,
        usize,
    ))
        requires
            tree_nodes(*left) + tree_nodes(*right) < usize::MAX,
        ensures
            r.0 as int == (if left_same_kind && right_same_kind {
                tree_nodes(*left) + tree_nodes(*right) - 1
            } else if left_same_kind || right_same_kind {
                tree_nodes(*left) + tree_nodes(*right) + 0int
            } else {
                tree_nodes(*left) + tree_nodes(*right) + 1int
            }),
            ({
                let l = tree_depth(*left) as int;
                let rd = tree_depth(*right) as int;
                let l1 = if left_same_kind { l } else { l + 1 };
                let r1 = if right_same_kind { rd } else { rd + 1 };
                r.1 == (if left_same_kind || right_same_kind {
                    if l1 >= r1 { l1 } else { r1 }
                } else if l >= rd {
                    l + 1
                } else {
                    rd + 1
                })
            }),
    {
        proof {
            use_type_invariant(left);
            use_type_invariant(right);
            lemma_depth_le_nodes(*left);
            lemma_depth_le_nodes(*right);
        }
        let node_count = if left_same_kind && right_same_kind {
            left.node_count + right.node_count - 1
        } else if left_same_kind || right_same_kind {
            left.node_count + right.node_count
        } else {
            left.node_count + right.node_count + 1
        };
        let max_depth = if left_same_kind && right_same_kind {
            if left.max_depth >= right.max_depth { left.max_depth } else { right.max_depth }
        } else if left_same_kind {
            if left.max_depth >= right.max_depth + 1 { left.max_depth } else { right.max_depth + 1 }
        } else if right_same_kind {
            if left.max_depth + 1 >= right.max_depth { left.max_depth + 1 } else { right.max_depth }
        } else {
            if left.max_depth >= right.max_depth { left.max_depth + 1 } else { right.max_depth + 1 }
        };
        (node_count, max_depth)
    }

    /// Joins two expressions under AND, reusing the children of AND roots.
    #[verifier::rlimit(40)]
    fn combine_and(left: FilterExpression, right: FilterExpression) -> (r: FilterExpression)
        requires
            tree_nodes(left) + tree_nodes(right) < usize::MAX,
            !(left.spec_node() is True || left.spec_node() is False),
            !(right.spec_node() is True || right.spec_node() is False),
        ensures
            r.spec_node() matches FilterExpressionNode::And(children) && children@ == and_parts(left)
                + and_parts(right),
            forall|m: Map<Seq<char>, ValueModel>| #[trigger] eval(r, m) == and2(eval(left, m), eval(right, m)),
            tree_nodes(r) + (if left.spec_node() is And { 1int } else { 0 }) + (if right.spec_node() is And {
                1int
            } else {
                0
            }) == tree_nodes(left) + tree_nodes(right) + 1,
    {
        proof {
            use_type_invariant(&left);
            use_type_invariant(&right);
        }
        let left_same_kind = matches!(&left.node, FilterExpressionNode::And(_));
        let right_same_kind = matches!(&right.node, FilterExpressionNode::And(_));
        let (node_count, max_depth) = Self::combined_metrics(&left, &right, left_same_kind, right_same_kind);
        let ghost gl = left;
        let ghost gr = right;
        let mut children = match left {
            FilterExpression { node: FilterExpressionNode::And(children), .. } => children,
            expression => vec![expression],
        };
        match right {
            FilterExpression { node: FilterExpressionNode::And(mut nested), .. } => children.append(&mut nested),
            expression => children.push(expression),
        }
        proof {
            assert(children@ =~= and_parts(gl) + and_parts(gr));
            lemma_group_shape(children@, gl, gr, true);
            lemma_join_and(gl, gr, children@);
            lemma_and_parts(gl);
            lemma_and_parts(gr);
        }
        let ghost ch = children@;
        let r = FilterExpression { node: FilterExpressionNode::And(children), node_count, max_depth };
        assert forall|m: Map<Seq<char>, ValueModel>| #[trigger] eval(r, m) == and2(eval(gl, m), eval(gr, m)) by {
            assert(eval(r, m) == eval_and(ch, m));
        }
        r
    }

    /// Joins two expressions under OR, reusing the children of OR roots.
    #[verifier::rlimit(40)]
    fn combine_or(left: FilterExpression, right: FilterExpression) -> (r: FilterExpression)
        requires
            tree_nodes(left) + tree_nodes(right) < usize::MAX,
            !(left.spec_node() is True || left.spec_node() is False),
            !(right.spec_node() is True || right.spec_node() is False),
        ensures
            r.spec_node() matches FilterExpressionNode::Or(children) && children@ == or_parts(left)
                + or_parts(right),
            forall|m: Map<Seq<char>, ValueModel>| #[trigger] eval(r, m) == or2(eval(left, m), eval(right, m)),
            tree_nodes(r) + (if left.spec_node() is Or { 1int } else { 0 }) + (if right.spec_node() is Or {
                1int
            } else {
                0
            }) == tree_nodes(left) + tree_nodes(right) + 1,
    {
        proof {
            use_type_invariant(&left);
            use_type_invariant(&right);
        }
        let left_same_kind = matches!(&left.node, FilterExpressionNode::Or(_));
        let right_same_kind = matches!(&right.node, FilterExpressionNode::Or(_));
        let (node_count, max_depth) = Self::combined_metrics(&left, &right, left_same_kind, right_same_kind);
        let ghost gl = left;
        let ghost gr = right;
        let mut children = match left {
            FilterExpression { node: FilterExpressionNode::Or(children), .. } => children,
            expression => vec![expression],
        };
        match right {
            FilterExpression { node: FilterExpressionNode::Or(mut nested), .. } => children.append(&mut nested),
            expression => children.push(expression),
        }
        proof {
            assert(children@ =~= or_parts(gl) + or_parts(gr));
            lemma_group_shape(children@, gl, gr, false);
            lemma_join_or(gl, gr, children@);
            lemma_or_parts(gl);
            lemma_or_parts(gr);
        }
        let ghost ch = children@;
        let r = FilterExpression { node: FilterExpressionNode::Or(children), node_count, max_depth };
        assert forall|m: Map<Seq<char>, ValueModel>| #[trigger] eval(r, m) == or2(eval(gl, m), eval(gr, m)) by {
            assert(eval(r, m) == eval_or(ch, m));
        }
        r
    }

    /// Combines two expressions with logical AND, simplifying constants and
    /// flattening AND groups.
    pub(crate) fn and_unchecked(left: FilterExpression, right: FilterExpression) -> (r: FilterExpression)
        requires
            tree_nodes(left) + tree_nodes(right) < usize::MAX,
        ensures
            is_and_of(r, left, right),
            forall|m: Map<Seq<char>, ValueModel>| #[trigger] eval(r, m) == and2(eval(left, m), eval(right, m)),
            tree_nodes(r) <= tree_nodes(left) + tree_nodes(right) + 1,
            tree_nodes(r) + (if left.spec_node() is And { 1int } else { 0 }) <= tree_nodes(left) + tree_nodes(right)
                + (if r.spec_node() is And { 1int } else { 0 }),
    {
        if left.is_false() || right.is_false() {
            return Self::false_expression();
        }
        if left.is_true() {
            return right;
        }
        if right.is_true() {
            return left;
        }
        Self::combine_and(left, right)
    }

    /// Combines two expressions with logical OR, simplifying constants and
    /// flattening OR groups.
    pub(crate) fn or_unchecked(left: FilterExpression, right: FilterExpression) -> (r: FilterExpression)
        requires
            tree_nodes(left) + tree_nodes(right) < usize::MAX,
        ensures
            is_or_of(r, left, right),
            forall|m: Map<Seq<char>, ValueModel>| #[trigger] eval(r, m) == or2(eval(left, m), eval(right, m)),
            tree_nodes(r) <= tree_nodes(left) + tree_nodes(right) + 1,
            tree_nodes(r) + (if left.spec_node() is Or { 1int } else { 0 }) <= tree_nodes(left) + tree_nodes(right)
                + (if r.spec_node() is Or { 1int } else { 0 }),
    {
        if left.is_true() || right.is_true() {
            return Self::true_expression();
        }
        if left.is_false() {
            return right;
        }
        if right.is_false() {
            return left;
        }
        Self::combine_or(left, right)
    }

    /// Wraps an expression in a NOT node without simplifying it.
    pub(crate) fn not_expression(expression: FilterExpression) -> (r: FilterExpression)
        requires
            tree_nodes(expression) < usize::MAX,
            !(expression.spec_node() is Not || expression.spec_node() is True || expression.spec_node() is False),
        ensures
            r.spec_node() matches FilterExpressionNode::Not(inner) && *inner == expression,
            forall|m: Map<Seq<char>, ValueModel>| #[trigger] eval(r, m) == not1(eval(expression, m)),
            tree_nodes(r) == tree_nodes(expression) + 1,
    {
        proof {
            use_type_invariant(&expression);
            lemma_depth_le_nodes(expression);
            lemma_shape_root(expression);
        }
        let node_count = expression.node_count + 1;
        let max_depth = expression.max_depth + 1;
        FilterExpression { node: FilterExpressionNode::Not(Box::new(expression)), node_count, max_depth }
    }

    /// Returns the three-valued negation: constants flip, a double negation
    /// is removed, anything else is wrapped in NOT.
    pub(crate) fn negated_unchecked(self) -> (r: FilterExpression)
        requires
            tree_nodes(self) < usize::MAX,
        ensures
            is_negation_of(r, self),
            forall|m: Map<Seq<char>, ValueModel>| #[trigger] eval(r, m) == not1(eval(self, m)),
            tree_nodes(r) <= tree_nodes(self) + 1,
    {
        let ghost g = self;
        if self.is_true() {
            return Self::false_expression();
        }
        if self.is_false() {
            return Self::true_expression();
        }
        match self {
            FilterExpression { node: FilterExpressionNode::Not(inner), .. } => {
                proof {
                    assert forall|m: Map<Seq<char>, ValueModel>| #[trigger] eval(*inner, m) == not1(eval(g, m)) by {
                        assert(eval(g, m) == not1(eval(*inner, m)));
                    }
                }
                *inner
            },
            expression => Self::not_expression(expression),
        }
    }

    /// Evaluates this expression on `metadata`.
    #[verifier::rlimit(40)]
    pub(crate) fn evaluate(&self, metadata: &Metadata, policy: NumericComparisonPolicy) -> (r: MatchOutcome)
        ensures
            r == eval(*self, metadata@),
        decreases self,
    {
        match &self.node {
            FilterExpressionNode::Condition(condition) => condition.evaluate(metadata, policy),
            FilterExpressionNode::And(children) => {
                let ghost m = metadata@;
                let mut result = MatchOutcome::True;
                let mut i: usize = 0;
                assert(children@.take(0) =~= Seq::<FilterExpression>::empty());
                while i < children.len()
                    invariant
                        i <= children@.len(),
                        m == metadata@,
                        self.node == FilterExpressionNode::And(*children),
                        result == eval_and(children@.take(i as int), m),
                        result != MatchOutcome::False,
                    decreases children.len() - i,
                {
                    proof {
                        assert(decreases_to!(*self => children@[i as int])) by {
                            assert(decreases_to!(*self => self.node));
                            assert(decreases_to!(self.node => *children));
                            assert(decreases_to!(*children => children@));
                            assert(decreases_to!(children@ => children@[i as int]));
                        }
                    }
                    let outcome = children[i].evaluate(metadata, policy);
                    proof {
                        lemma_eval_prefix(children@, i as int, m);
                    }
                    match outcome {
                        MatchOutcome::False => {
                            proof {
                                lemma_eval_and_false(children@, i as int, m);
                            }
                            return MatchOutcome::False;
                        },
                        MatchOutcome::Unknown => {
                            result = MatchOutcome::Unknown;
                        },
                        MatchOutcome::True => {},
                    }
                    i = i + 1;
                }
                assert(children@.take(i as int) =~= children@);
                result
            },
            FilterExpressionNode::Or(children) => {
                let ghost m = metadata@;
                let mut result = MatchOutcome::False;
                let mut i: usize = 0;
                assert(children@.take(0) =~= Seq::<FilterExpression>::empty());
                while i < children.len()
                    invariant
                        i <= children@.len(),
                        m == metadata@,
                        self.node == FilterExpressionNode::Or(*children),
                        result == eval_or(children@.take(i as int), m),
                        result != MatchOutcome::True,
                    decreases children.len() - i,
                {
                    proof {
                        assert(decreases_to!(*self => children@[i as int])) by {
                            assert(decreases_to!(*self => self.node));
                            assert(decreases_to!(self.node => *children));
                            assert(decreases_to!(*children => children@));
                            assert(decreases_to!(children@ => children@[i as int]));
                        }
                    }
                    let outcome = children[i].evaluate(metadata, policy);
                    proof {
                        lemma_eval_prefix(children@, i as int, m);
                    }
                    match outcome {
                        MatchOutcome::True => {
                            proof {
                                lemma_eval_or_true(children@, i as int, m);
                            }
                            return MatchOutcome::True;
                        },
                        MatchOutcome::Unknown => {
                            result = MatchOutcome::Unknown;
                        },
                        MatchOutcome::False => {},
                    }
                    i = i + 1;
                }
                assert(children@.take(i as int) =~= children@);
                result
            },
            FilterExpressionNode::Not(inner) => inner.evaluate(metadata, policy).not(),
            FilterExpressionNode::True => MatchOutcome::True,
            FilterExpressionNode::False => MatchOutcome::False,
        }
    }

    /// Validates this expression against `limits` in depth-first preorder,
    /// reporting the first depth, node-count, key or membership violation.
    pub(crate) fn validate_limits(&self, limits: FilterLimits) -> (r: Result<(), MetadataError>)
        ensures
            r == spec_validate(*self, limits),
    {
        proof {
            use_type_invariant(&limits);
        }
        let mut node_count: usize = 0;
        self.validate_limits_at(limits, 1, &mut node_count)
    }

    /// Validates one node at root-inclusive `depth` after `node_count` nodes.
    fn validate_limits_at(&self, limits: FilterLimits, depth: usize, node_count: &mut usize) -> (r: Result<
        (),
        MetadataError,
    >)
        requires
            limits.wf(),
            *old(node_count) <= limits.spec_max_nodes(),
            1 <= depth <= limits.spec_max_depth() + 1,
        ensures
            (r, *final(node_count) as nat) == validate_at(*self, limits, depth as nat, *old(node_count) as nat),
            r is Ok ==> *final(node_count) <= limits.spec_max_nodes(),
        decreases self,
    {
        let ghost start = *node_count as nat;
        if depth > limits.max_depth() {
            return Err(
                MetadataError::FilterLimitExceeded {
                    kind: FilterLimitKind::Depth,
                    value: depth,
                    maximum: limits.max_depth(),
                },
            );
        }
        *node_count = *node_count + 1;
        if *node_count > limits.max_nodes() {
            return Err(
                MetadataError::FilterLimitExceeded {
                    kind: FilterLimitKind::Nodes,
                    value: *node_count,
                    maximum: limits.max_nodes(),
                },
            );
        }
        match &self.node {
            FilterExpressionNode::Condition(condition) => condition.validate_limits(limits),
            FilterExpressionNode::And(children) | FilterExpressionNode::Or(children) => {
                let ghost c0 = *node_count as nat;
                let mut i: usize = 0;
                assert(children@.skip(0) =~= children@);
                assert(validate_at(*self, limits, depth as nat, start) == validate_seq(
                    children@,
                    limits,
                    (depth + 1) as nat,
                    c0,
                ));
                while i < children.len()
                    invariant
                        i <= children@.len(),
                        limits.wf(),
                        start == *old(node_count),
                        self.node == FilterExpressionNode::And(*children) || self.node
                            == FilterExpressionNode::Or(*children),
                        validate_at(*self, limits, depth as nat, start) == validate_seq(
                            children@,
                            limits,
                            (depth + 1) as nat,
                            c0,
                        ),
                        depth + 1 <= limits.spec_max_depth() + 1,
                        *node_count <= limits.spec_max_nodes(),
                        validate_seq(children@, limits, (depth + 1) as nat, c0) == validate_seq(
                            children@.skip(i as int),
                            limits,
                            (depth + 1) as nat,
                            *node_count as nat,
                        ),
                    decreases children.len() - i,
                {
                    let ghost before = *node_count as nat;
                    proof {
                        assert(decreases_to!(*self => children@[i as int])) by {
                            assert(decreases_to!(*self => self.node));
                            if self.node is And {
                                assert(decreases_to!(self.node => self.node->And_0));
                            } else {
                                assert(decreases_to!(self.node => self.node->Or_0));
                            }
                            assert(decreases_to!(*children => children@));
                            assert(decreases_to!(children@ => children@[i as int]));
                        }
                    }
                    let r = children[i].validate_limits_at(limits, depth + 1, node_count);
                    if r.is_err() {
                        proof {
                            let s = children@.skip(i as int);
                            assert(s[0] == children@[i as int]);
                            assert(validate_seq(s, limits, (depth + 1) as nat, before) == (r, *node_count as nat));
                        }
                        return r;
                    }
                    proof {
                        lemma_validate_step(children@, i as int, limits, (depth + 1) as nat, before);
                    }
                    i = i + 1;
                }
                proof {
                    assert(children@.skip(i as int).len() == 0);
                }
                Ok(())
            },
            FilterExpressionNode::Not(inner) => inner.validate_limits_at(limits, depth + 1, node_count),
            FilterExpressionNode::True | FilterExpressionNode::False => Ok(()),
        }
    }
}

/// A borrowed, read-only view of the root of a filter expression.
#[derive(Debug, Clone, Copy, PartialEq)]
pub enum FilterExpressionView<'a> {
    /// A leaf condition.
    Condition(&'a Condition),
    /// A logical AND over the child expressions.
    And(&'a [FilterExpression]),
    /// A logical OR over the child expressions.
    Or(&'a [FilterExpression]),
    /// A logical NOT around one expression.
    Not(&'a FilterExpression),
    /// The constant true expression.
    True,
    /// The constant false expression.
    False,
}

impl FilterExpression {
    /// Copies the tree node by node.
    fn copy_tree(&self) -> (r: FilterExpression)
        ensures
            tree_nodes(r) == tree_nodes(*self),
            tree_depth(r) == tree_depth(*self),
            shape(r) == shape(*self),
        decreases self,
    {
        proof {
            use_type_invariant(self);
        }
        let node = match &self.node {
            FilterExpressionNode::Condition(condition) => FilterExpressionNode::Condition(condition.clone()),
            FilterExpressionNode::And(children) | FilterExpressionNode::Or(children) => {
                let mut copied: Vec<FilterExpression> = Vec::new();
                let mut i: usize = 0;
                assert(children@.take(0) =~= Seq::<FilterExpression>::empty());
                while i < children.len()
                    invariant
                        i <= children@.len(),
                        self.node == FilterExpressionNode::And(*children) || self.node
                            == FilterExpressionNode::Or(*children),
                        nodes_sum(copied@) == nodes_sum(children@.take(i as int)),
                        depth_max(copied@) == depth_max(children@.take(i as int)),
                        shapes(copied@) == shapes(children@.take(i as int)),
                    decreases children.len() - i,
                {
                    proof {
                        assert(decreases_to!(*self => children@[i as int])) by {
                            assert(decreases_to!(*self => self.node));
                            if self.node is And {
                                assert(decreases_to!(self.node => self.node->And_0));
                            } else {
                                assert(decreases_to!(self.node => self.node->Or_0));
                            }
                            assert(decreases_to!(*children => children@));
                            assert(decreases_to!(children@ => children@[i as int]));
                        }
                    }
                    let child = children[i].copy_tree();
                    let ghost before = copied@;
                    copied.push(child);
                    proof {
                        assert(copied@.drop_last() =~= before);
                        assert(children@.take(i + 1).drop_last() =~= children@.take(i as int));
                    }
                    i = i + 1;
                }
                assert(children@.take(i as int) =~= children@);
                if matches!(&self.node, FilterExpressionNode::And(_)) {
                    FilterExpressionNode::And(copied)
                } else {
                    FilterExpressionNode::Or(copied)
                }
            },
            FilterExpressionNode::Not(inner) => FilterExpressionNode::Not(Box::new(inner.copy_tree())),
            FilterExpressionNode::True => FilterExpressionNode::True,
            FilterExpressionNode::False => FilterExpressionNode::False,
        };
        FilterExpression { node, node_count: self.node_count, max_depth: self.max_depth }
    }

    /// Recomputes the node count and the root-inclusive depth by walking the
    /// tree.
    pub fn recursive_metrics(&self) -> (r: (usize, usize))
        ensures
            r.0 == tree_nodes(*self),
            r.1 == tree_depth(*self),
        decreases self,
    {
        proof {
            use_type_invariant(self);
        }
        match &self.node {
            FilterExpressionNode::And(children) | FilterExpressionNode::Or(children) => {
                let mut node_count: usize = 1;
                let mut max_child_depth: usize = 0;
                let mut i: usize = 0;
                assert(children@.take(0) =~= Seq::<FilterExpression>::empty());
                while i < children.len()
                    invariant
                        i <= children@.len(),
                        self.node == FilterExpressionNode::And(*children) || self.node
                            == FilterExpressionNode::Or(*children),
                        tree_nodes(*self) == 1 + nodes_sum(children@),
                        tree_depth(*self) == 1 + depth_max(children@),
                        tree_nodes(*self) <= usize::MAX,
                        node_count == 1 + nodes_sum(children@.take(i as int)),
                        max_child_depth == depth_max(children@.take(i as int)),
                    decreases children.len() - i,
                {
                    proof {
                        assert(decreases_to!(*self => children@[i as int])) by {
                            assert(decreases_to!(*self => self.node));
                            if self.node is And {
                                assert(decreases_to!(self.node => self.node->And_0));
                            } else {
                                assert(decreases_to!(self.node => self.node->Or_0));
                            }
                            assert(decreases_to!(*children => children@));
                            assert(decreases_to!(children@ => children@[i as int]));
                        }
                    }
                    let (child_nodes, child_depth) = children[i].recursive_metrics();
                    proof {
                        assert(children@.take(i + 1).drop_last() =~= children@.take(i as int));
                        assert(children@ =~= children@.take(i + 1) + children@.skip(i + 1));
                        lemma_nodes_concat(children@.take(i + 1), children@.skip(i + 1));
                    }
                    node_count = node_count + child_nodes;
                    if child_depth > max_child_depth {
                        max_child_depth = child_depth;
                    }
                    i = i + 1;
                }
                assert(children@.take(i as int) =~= children@);
                proof {
                    lemma_depth_le_nodes(*self);
                }
                (node_count, max_child_depth + 1)
            },
            FilterExpressionNode::Not(inner) => {
                let (node_count, max_depth) = inner.recursive_metrics();
                (node_count + 1, max_depth + 1)
            },
            _ => (1, 1),
        }
    }

    /// Returns a borrowed view of the root of this expression.
    pub fn view(&self) -> (r: FilterExpressionView<'_>)
        ensures
            match self.spec_node() {
                FilterExpressionNode::Condition(c) => r == FilterExpressionView::Condition(&c),
                FilterExpressionNode::And(children) => r matches FilterExpressionView::And(s) && s@ == children@,
                FilterExpressionNode::Or(children) => r matches FilterExpressionView::Or(s) && s@ == children@,
                FilterExpressionNode::Not(inner) => r == FilterExpressionView::Not(&*inner),
                FilterExpressionNode::True => r is True,
                FilterExpressionNode::False => r is False,
            },
    {
        match &self.node {
            FilterExpressionNode::Condition(condition) => FilterExpressionView::Condition(condition),
            FilterExpressionNode::And(children) => FilterExpressionView::And(children.as_slice()),
            FilterExpressionNode::Or(children) => FilterExpressionView::Or(children.as_slice()),
            FilterExpressionNode::Not(inner) => FilterExpressionView::Not(inner),
            FilterExpressionNode::True => FilterExpressionView::True,
            FilterExpressionNode::False => FilterExpressionView::False,
        }
    }

    /// Combines this expression with `other` by logical AND, then validates
    /// the result against the hard maximums.
    pub fn try_and(self, other: FilterExpression) -> (r: Result<FilterExpression, MetadataError>)
        requires
            tree_nodes(self) + tree_nodes(other) < usize::MAX,
        ensures
            r matches Ok(e) ==> is_and_of(e, self, other) && spec_validate(e, FilterLimits::hard_max()) is Ok,
            r matches Ok(e) ==> forall|m: Map<Seq<char>, ValueModel>| #[trigger] eval(e, m) == and2(
                eval(self, m),
                eval(other, m),
            ),
            r matches Err(err) ==> exists|e: FilterExpression|
                is_and_of(e, self, other) && spec_validate(e, FilterLimits::hard_max()) == Err::<(), MetadataError>(
                    err,
                ),
            shape(self) is False || shape(other) is False ==> r == Ok::<FilterExpression, MetadataError>(
                FilterExpression::spec_false(),
            ),
            shape(self) is True && spec_validate(other, FilterLimits::hard_max()) is Ok
                ==> r == Ok::<FilterExpression, MetadataError>(other),
            shape(other) is True && spec_validate(self, FilterLimits::hard_max()) is Ok
                ==> r == Ok::<FilterExpression, MetadataError>(self),
    {
        proof {
            use_type_invariant(&self);
            use_type_invariant(&other);
            lemma_shape_root(self);
            lemma_shape_root(other);
            FilterLimits::lemma_hard_max();
        }
        let expression = Self::and_unchecked(self, other);
        proof {
            use_type_invariant(&expression);
            lemma_shape_root(expression);
            if self.node is True {
                assert(self == FilterExpression::spec_true());
            }
            if other.node is True {
                assert(other == FilterExpression::spec_true());
            }
            if self.node is False {
                assert(self == FilterExpression::spec_false());
            }
            if other.node is False {
                assert(other == FilterExpression::spec_false());
            }
        }
        match expression.validate_limits(FilterLimits::max_limits()) {
            Ok(()) => Ok(expression),
            Err(err) => Err(err),
        }
    }

    /// Combines this expression with `other` by logical OR, then validates
    /// the result against the hard maximums.
    pub fn try_or(self, other: FilterExpression) -> (r: Result<FilterExpression, MetadataError>)
        requires
            tree_nodes(self) + tree_nodes(other) < usize::MAX,
        ensures
            r matches Ok(e) ==> is_or_of(e, self, other) && spec_validate(e, FilterLimits::hard_max()) is Ok,
            r matches Ok(e) ==> forall|m: Map<Seq<char>, ValueModel>| #[trigger] eval(e, m) == or2(
                eval(self, m),
                eval(other, m),
            ),
            r matches Err(err) ==> exists|e: FilterExpression|
                is_or_of(e, self, other) && spec_validate(e, FilterLimits::hard_max()) == Err::<(), MetadataError>(
                    err,
                ),
            shape(self) is True || shape(other) is True ==> r == Ok::<FilterExpression, MetadataError>(
                FilterExpression::spec_true(),
            ),
            shape(self) is False && spec_validate(other, FilterLimits::hard_max()) is Ok
                ==> r == Ok::<FilterExpression, MetadataError>(other),
            shape(other) is False && spec_validate(self, FilterLimits::hard_max()) is Ok
                ==> r == Ok::<FilterExpression, MetadataError>(self),
    {
        proof {
            use_type_invariant(&self);
            use_type_invariant(&other);
            lemma_shape_root(self);
            lemma_shape_root(other);
            FilterLimits::lemma_hard_max();
        }
        let expression = Self::or_unchecked(self, other);
        proof {
            use_type_invariant(&expression);
            lemma_shape_root(expression);
            if self.node is True {
                assert(self == FilterExpression::spec_true());
            }
            if other.node is True {
                assert(other == FilterExpression::spec_true());
            }
            if self.node is False {
                assert(self == FilterExpression::spec_false());
            }
            if other.node is False {
                assert(other == FilterExpression::spec_false());
            }
        }
        match expression.validate_limits(FilterLimits::max_limits()) {
            Ok(()) => Ok(expression),
            Err(err) => Err(err),
        }
    }

    /// Negates this expression, then validates the result against the hard
    /// maximums.
    #[verifier::rlimit(40)]
    pub fn try_not(self) -> (r: Result<FilterExpression, MetadataError>)
        requires
            tree_nodes(self) < usize::MAX,
        ensures
            r matches Ok(e) ==> is_negation_of(e, self) && spec_validate(e, FilterLimits::hard_max()) is Ok,
            r matches Ok(e) ==> forall|m: Map<Seq<char>, ValueModel>| #[trigger] eval(e, m) == not1(eval(self, m)),
            r matches Err(err) ==> exists|e: FilterExpression|
                is_negation_of(e, self) && spec_validate(e, FilterLimits::hard_max()) == Err::<(), MetadataError>(
                    err,
                ),
            shape(self) is True ==> r == Ok::<FilterExpression, MetadataError>(FilterExpression::spec_false()),
            shape(self) is False ==> r == Ok::<FilterExpression, MetadataError>(FilterExpression::spec_true()),
            self.spec_node() matches FilterExpressionNode::Not(inner) ==> self == FilterExpression::spec_not(*inner)
                && !(shape(*inner) is Not) && !is_constant(shape(*inner)),
            self.spec_node() matches FilterExpressionNode::Not(inner) ==> (spec_validate(
                self,
                FilterLimits::hard_max(),
            ) is Ok ==> r == Ok::<FilterExpression, MetadataError>(*inner)),
            !(shape(self) is Not) && !is_constant(shape(self)) ==> (r matches Ok(n) ==> n
                == FilterExpression::spec_not(self) && n.spec_node() == FilterExpressionNode::Not(Box::new(self))),
            !(shape(self) is Not) && !is_constant(shape(self)) && spec_validate(
                FilterExpression::spec_not(self),
                FilterLimits::hard_max(),
            ) is Ok ==> r == Ok::<FilterExpression, MetadataError>(FilterExpression::spec_not(self)),
    {
        proof {
            use_type_invariant(&self);
            lemma_shape_root(self);
            FilterLimits::lemma_hard_max();
            if self.node is Not {
                let inner = *self.node->Not_0;
                lemma_shape_root(inner);
                lemma_validate_limits_exact(self, FilterLimits::hard_max());
                lemma_validate_limits_exact(inner, FilterLimits::hard_max());
            }
        }
        let expression = self.negated_unchecked();
        proof {
            use_type_invariant(&expression);
            lemma_shape_root(expression);
        }
        match expression.validate_limits(FilterLimits::max_limits()) {
            Ok(()) => Ok(expression),
            Err(err) => Err(err),
        }
    }

    /// Checks the cached depth and node count against `limits`, reporting the
    /// first value beyond the bound.
    pub(crate) fn validate_structure_limits(&self, limits: FilterLimits) -> (r: Result<(), MetadataError>)
        ensures
            r == (if tree_depth(*self) > limits.spec_max_depth() {
                Err(
                    MetadataError::FilterLimitExceeded {
                        kind: FilterLimitKind::Depth,
                        value: (limits.spec_max_depth() + 1) as usize,
                        maximum: limits.spec_max_depth(),
                    },
                )
            } else if tree_nodes(*self) > limits.spec_max_nodes() {
                Err(
                    MetadataError::FilterLimitExceeded {
                        kind: FilterLimitKind::Nodes,
                        value: (limits.spec_max_nodes() + 1) as usize,
                        maximum: limits.spec_max_nodes(),
                    },
                )
            } else {
                Ok(())
            }),
    {
        proof {
            use_type_invariant(self);
        }
        let max_depth = limits.max_depth();
        let max_nodes = limits.max_nodes();
        if self.max_depth > max_depth {
            return Err(
                MetadataError::FilterLimitExceeded {
                    kind: FilterLimitKind::Depth,
                    value: max_depth + 1,
                    maximum: max_depth,
                },
            );
        }
        if self.node_count > max_nodes {
            return Err(
                MetadataError::FilterLimitExceeded {
                    kind: FilterLimitKind::Nodes,
                    value: max_nodes + 1,
                    maximum: max_nodes,
                },
            );
        }
        Ok(())
    }
}

impl Clone for FilterExpression {
    /// Copies the expression; the copy has the same shape, node count and
    /// depth.
    fn clone(&self) -> (r: Self)
        ensures
            tree_nodes(r) == tree_nodes(*self),
            tree_depth(r) == tree_depth(*self),
            shape(r) == shape(*self),
    {
        self.copy_tree()
    }
}

} // verus!
