use vstd::prelude::*;

use crate::value::ValueModel;

verus! {

/// The comparison a condition applies.
#[derive(Debug, Clone, Copy, PartialEq, Eq, Structural)]
pub enum ConditionKind {
    /// `key == value`.
    Equal,
    /// `key != value`.
    NotEqual,
    /// `key < value`.
    Less,
    /// `key <= value`.
    LessEqual,
    /// `key > value`.
    Greater,
    /// `key >= value`.
    GreaterEqual,
    /// The value of `key` is one of the candidates.
    In,
    /// The value of `key` is none of the candidates.
    NotIn,
    /// `key` holds a concrete value.
    Exists,
    /// `key` holds no concrete value.
    NotExists,
}

/// The mathematical content of a condition: its comparison, its key and its
/// operands.
pub struct ConditionShape {
    /// The comparison.
    pub kind: ConditionKind,
    /// The key.
    pub key: Seq<char>,
    /// The operands, in order.
    pub operands: Seq<ValueModel>,
}

/// The mathematical content of a filter expression tree.
pub enum ExprShape {
    /// A leaf condition.
    Cond(ConditionShape),
    /// Conjunction of the children.
    And(Seq<ExprShape>),
    /// Disjunction of the children.
    Or(Seq<ExprShape>),
    /// Negation.
    Not(Box<ExprShape>),
    /// Constant true.
    True,
    /// Constant false.
    False,
}

/// Whether a shape is one of the two constants.
pub open spec fn is_constant(s: ExprShape) -> bool {
    s is True || s is False
}

/// The children a shape contributes to an AND group.
pub open spec fn and_parts_of(s: ExprShape) -> Seq<ExprShape> {
    match s {
        ExprShape::And(children) => children,
        _ => seq![s],
    }
}

/// The children a shape contributes to an OR group.
pub open spec fn or_parts_of(s: ExprShape) -> Seq<ExprShape> {
    match s {
        ExprShape::Or(children) => children,
        _ => seq![s],
    }
}

/// Simplified conjunction: false absorbs, true is neutral, AND groups are
/// flattened.
pub open spec fn shape_and(a: ExprShape, b: ExprShape) -> ExprShape {
    if a is False || b is False {
        ExprShape::False
    } else if a is True {
        b
    } else if b is True {
        a
    } else {
        ExprShape::And(and_parts_of(a) + and_parts_of(b))
    }
}

/// Simplified disjunction: true absorbs, false is neutral, OR groups are
/// flattened.
pub open spec fn shape_or(a: ExprShape, b: ExprShape) -> ExprShape {
    if a is True || b is True {
        ExprShape::True
    } else if a is False {
        b
    } else if b is False {
        a
    } else {
        ExprShape::Or(or_parts_of(a) + or_parts_of(b))
    }
}

/// Simplified negation: constants flip and a double negation is removed.
pub open spec fn shape_not(a: ExprShape) -> ExprShape {
    match a {
        ExprShape::True => ExprShape::False,
        ExprShape::False => ExprShape::True,
        ExprShape::Not(inner) => *inner,
        _ => ExprShape::Not(Box::new(a)),
    }
}

/// Left fold of a non-empty sequence of shapes with AND (or OR).
pub open spec fn shape_fold(s: Seq<ExprShape>, and: bool) -> ExprShape
    decreases s.len(),
{
    if s.len() <= 1 {
        s[0]
    } else if and {
        shape_and(shape_fold(s.drop_last(), and), s.last())
    } else {
        shape_or(shape_fold(s.drop_last(), and), s.last())
    }
}

/// The normal form kept by every expression the library builds: groups have
/// at least two children, none of which is a constant or a group of the same
/// operator; a negation never wraps a constant or another negation; and every
/// operand is concrete.
pub open spec fn normal(s: ExprShape) -> bool
    decreases s, 1int,
{
    match s {
        ExprShape::Cond(c) => forall|i: int| 0 <= i < c.operands.len() ==> !(#[trigger] c.operands[i]).is_unset(),
        ExprShape::And(children) => children.len() >= 2 && normal_children(children, true),
        ExprShape::Or(children) => children.len() >= 2 && normal_children(children, false),
        ExprShape::Not(inner) => !(*inner is Not) && !is_constant(*inner) && normal(*inner),
        _ => true,
    }
}

/// A child that may stand in a group of the given operator: normal, not a
/// constant, and not a group of the same operator.
pub open spec fn child_ok(x: ExprShape, and: bool) -> bool
    decreases x, 2int,
{
    &&& normal(x)
    &&& !is_constant(x)
    &&& (if and {
        !(x is And)
    } else {
        !(x is Or)
    })
}

/// Every child may stand in a group of the given operator.
pub open spec fn normal_children(s: Seq<ExprShape>, and: bool) -> bool
    decreases s, 0int,
{
    if s.len() == 0 {
        true
    } else {
        normal_children(s.drop_last(), and) && child_ok(s.last(), and)
    }
}

/// The elementwise characterisation of [`normal_children`].
pub proof fn lemma_normal_children(s: Seq<ExprShape>, and: bool)
    ensures
        normal_children(s, and) <==> forall|i: int| 0 <= i < s.len() ==> child_ok(#[trigger] s[i], and),
    decreases s.len(),
{
    if s.len() > 0 {
        let d = s.drop_last();
        lemma_normal_children(d, and);
        if normal_children(s, and) {
            assert forall|i: int| 0 <= i < s.len() implies child_ok(#[trigger] s[i], and) by {
                if i < s.len() - 1 {
                    assert(d[i] == s[i]);
                }
            }
        }
        if forall|i: int| 0 <= i < s.len() ==> child_ok(#[trigger] s[i], and) {
            assert forall|i: int| 0 <= i < d.len() implies child_ok(#[trigger] d[i], and) by {
                assert(d[i] == s[i]);
            }
            assert(child_ok(s[s.len() - 1], and));
        }
    }
}

/// Joining two normal, non-constant shapes keeps the normal form.
pub proof fn lemma_join_normal(a: ExprShape, b: ExprShape, and: bool)
    requires
        normal(a),
        normal(b),
        !is_constant(a),
        !is_constant(b),
    ensures
        and ==> normal(shape_and(a, b)),
        !and ==> normal(shape_or(a, b)),
{
    let pa = if and { and_parts_of(a) } else { or_parts_of(a) };
    let pb = if and { and_parts_of(b) } else { or_parts_of(b) };
    lemma_normal_children(pa, and);
    lemma_normal_children(pb, and);
    lemma_normal_children(pa + pb, and);
    assert forall|i: int| 0 <= i < (pa + pb).len() implies child_ok(#[trigger] (pa + pb)[i], and) by {
        if i < pa.len() {
            assert((pa + pb)[i] == pa[i]);
        } else {
            assert((pa + pb)[i] == pb[i - pa.len()]);
        }
    }
}

/// The number of nodes of a shape: one per condition, constant, group and
/// negation.
pub open spec fn shape_nodes(s: ExprShape) -> nat
    decreases s, 1int,
{
    match s {
        ExprShape::And(children) => 1 + shapes_nodes(children),
        ExprShape::Or(children) => 1 + shapes_nodes(children),
        ExprShape::Not(inner) => 1 + shape_nodes(*inner),
        _ => 1,
    }
}

/// The total number of nodes of a sequence of shapes.
pub open spec fn shapes_nodes(s: Seq<ExprShape>) -> nat
    decreases s, 0int,
{
    if s.len() == 0 {
        0
    } else {
        shapes_nodes(s.drop_last()) + shape_nodes(s.last())
    }
}

/// The root-inclusive depth of a shape.
pub open spec fn shape_depth(s: ExprShape) -> nat
    decreases s, 1int,
{
    match s {
        ExprShape::And(children) => 1 + shapes_depth(children),
        ExprShape::Or(children) => 1 + shapes_depth(children),
        ExprShape::Not(inner) => 1 + shape_depth(*inner),
        _ => 1,
    }
}

/// The largest depth among a sequence of shapes (zero when empty).
pub open spec fn shapes_depth(s: Seq<ExprShape>) -> nat
    decreases s, 0int,
{
    if s.len() == 0 {
        0
    } else {
        let a = shapes_depth(s.drop_last());
        let b = shape_depth(s.last());
        if a >= b {
            a
        } else {
            b
        }
    }
}

} // verus!
