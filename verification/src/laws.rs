//! Laws that tie the filter and value operations to what they mean: how each
//! comparison decides against the stored value, which types form the numeric
//! family, which data type each encoded kind has, and how the wire names of
//! expressions and comparisons correspond.

use vstd::prelude::*;

use crate::condition::{concrete, equality_outcome, ordering_outcome, Condition};
use crate::expression_fields::{spec_into_wire, ExpressionFields, ExpressionKind};
use crate::expression_shape::{ConditionKind, ExprShape};
use crate::filter_expression::{eval, lemma_leaf_meaning, lemma_same_shape_behaves, shape, FilterExpression};
use crate::filter_wire::{wire_conv, wire_leaf, wire_read, FilterExpressionWireV1, WireFault, WireValue};
use crate::match_outcome::{outcome_of, MatchOutcome};
use crate::value::{
    lemma_lex_order_converse, lemma_lex_order_equal, spec_compare_values, spec_values_equal, str_bytes, DataType, EncodedType, MetadataValue,
    ValueModel, ValueOrdering,
};

verus! {

/// The ordering comparisons decide by the order of the stored value against
/// the operand: `Less` holds exactly when the stored value is smaller,
/// `LessEqual` when it is smaller or equal, `Greater` when it is larger, and
/// `GreaterEqual` when it is larger or equal; on comparable values none of
/// them is unknown. A key that holds no concrete value leaves every one of
/// them unknown.
pub proof fn law_ordering_conditions(m: Map<Seq<char>, ValueModel>, key: String, value: MetadataValue)
    ensures
        match concrete(m, key@) {
            Some(s) => match spec_compare_values(s, value@) {
                Some(o) => {
                    &&& ((Condition::Less { key, value }).spec_evaluate(m) == MatchOutcome::True) == (o
                        == ValueOrdering::Less)
                    &&& ((Condition::LessEqual { key, value }).spec_evaluate(m) == MatchOutcome::True) == (o
                        == ValueOrdering::Less || o == ValueOrdering::Equal)
                    &&& ((Condition::Greater { key, value }).spec_evaluate(m) == MatchOutcome::True) == (o
                        == ValueOrdering::Greater)
                    &&& ((Condition::GreaterEqual { key, value }).spec_evaluate(m) == MatchOutcome::True) == (o
                        == ValueOrdering::Greater || o == ValueOrdering::Equal)
                    &&& (Condition::Less { key, value }).spec_evaluate(m) != MatchOutcome::Unknown
                    &&& (Condition::LessEqual { key, value }).spec_evaluate(m) != MatchOutcome::Unknown
                    &&& (Condition::Greater { key, value }).spec_evaluate(m) != MatchOutcome::Unknown
                    &&& (Condition::GreaterEqual { key, value }).spec_evaluate(m) != MatchOutcome::Unknown
                },
                None => true,
            },
            None => {
                &&& (Condition::Less { key, value }).spec_evaluate(m) == MatchOutcome::Unknown
                &&& (Condition::LessEqual { key, value }).spec_evaluate(m) == MatchOutcome::Unknown
                &&& (Condition::Greater { key, value }).spec_evaluate(m) == MatchOutcome::Unknown
                &&& (Condition::GreaterEqual { key, value }).spec_evaluate(m) == MatchOutcome::Unknown
            },
        },
{
    let lt = Condition::Less { key, value };
    let le = Condition::LessEqual { key, value };
    let gt = Condition::Greater { key, value };
    let ge = Condition::GreaterEqual { key, value };
    match concrete(m, key@) {
        Some(s) => {
            assert(lt.spec_evaluate(m) == ordering_outcome(s, value@, true, false, false));
            assert(le.spec_evaluate(m) == ordering_outcome(s, value@, true, true, false));
            assert(gt.spec_evaluate(m) == ordering_outcome(s, value@, false, false, true));
            assert(ge.spec_evaluate(m) == ordering_outcome(s, value@, false, true, true));
            lemma_ordering_outcome(s, value@);
        },
        None => {},
    }
}

/// The outcome of an ordering test on a comparable pair.
proof fn lemma_ordering_outcome(s: ValueModel, v: ValueModel)
    ensures
        spec_compare_values(s, v) matches Some(o) ==> {
            &&& ordering_outcome(s, v, true, false, false) == outcome_of(o == ValueOrdering::Less)
            &&& ordering_outcome(s, v, true, true, false) == outcome_of(o == ValueOrdering::Less || o
                == ValueOrdering::Equal)
            &&& ordering_outcome(s, v, false, false, true) == outcome_of(o == ValueOrdering::Greater)
            &&& ordering_outcome(s, v, false, true, true) == outcome_of(o == ValueOrdering::Greater || o
                == ValueOrdering::Equal)
        },
{
}

/// Equality tests decide by value equality: `Equal` holds exactly when the
/// stored value equals the operand and `NotEqual` exactly when it does not;
/// a key without a concrete value leaves both unknown.
pub proof fn law_equality_conditions(m: Map<Seq<char>, ValueModel>, key: String, value: MetadataValue)
    ensures
        match concrete(m, key@) {
            Some(s) => match spec_values_equal(s, value@) {
                Some(b) => {
                    &&& ((Condition::Equal { key, value }).spec_evaluate(m) == MatchOutcome::True) == b
                    &&& ((Condition::NotEqual { key, value }).spec_evaluate(m) == MatchOutcome::True) == !b
                    &&& (Condition::Equal { key, value }).spec_evaluate(m) != MatchOutcome::Unknown
                    &&& (Condition::NotEqual { key, value }).spec_evaluate(m) != MatchOutcome::Unknown
                },
                None => true,
            },
            None => {
                &&& (Condition::Equal { key, value }).spec_evaluate(m) == MatchOutcome::Unknown
                &&& (Condition::NotEqual { key, value }).spec_evaluate(m) == MatchOutcome::Unknown
            },
        },
{
    let eq = Condition::Equal { key, value };
    let ne = Condition::NotEqual { key, value };
    if let Some(s) = concrete(m, key@) {
        assert(eq.spec_evaluate(m) == equality_outcome(s, value@, false));
        assert(ne.spec_evaluate(m) == equality_outcome(s, value@, true));
        if let Some(b) = spec_values_equal(s, value@) {
            assert(equality_outcome(s, value@, false) == outcome_of(b));
            assert(equality_outcome(s, value@, true) == outcome_of(!b));
        }
    }
}

/// A number or a string compares equal to itself, so a stored value that is
/// the operand satisfies `LessEqual`, `GreaterEqual` and `Equal`, and fails
/// `Less`, `Greater` and `NotEqual`.
pub proof fn law_comparisons_reflexive(m: Map<Seq<char>, ValueModel>, key: String, value: MetadataValue)
    requires
        concrete(m, key@) == Some(value@),
        value@.is_numeric() || (value@ is String),
    ensures
        spec_compare_values(value@, value@) == Some(ValueOrdering::Equal),
        spec_values_equal(value@, value@) == Some(true),
        (Condition::LessEqual { key, value }).spec_evaluate(m) == MatchOutcome::True,
        (Condition::GreaterEqual { key, value }).spec_evaluate(m) == MatchOutcome::True,
        (Condition::Equal { key, value }).spec_evaluate(m) == MatchOutcome::True,
        (Condition::Less { key, value }).spec_evaluate(m) == MatchOutcome::False,
        (Condition::Greater { key, value }).spec_evaluate(m) == MatchOutcome::False,
        (Condition::NotEqual { key, value }).spec_evaluate(m) == MatchOutcome::False,
{
    if let ValueModel::String(a) = value@ {
        lemma_lex_order_equal(str_bytes(a), str_bytes(a));
    }
}

/// Every fixed-width integer, big integer and big decimal is a number, and no
/// Boolean, character, string, encoded or unset value is; so every two
/// concrete integers are ordered by their mathematical values.
pub proof fn law_numeric_family(a: ValueModel, b: ValueModel)
    ensures
        (a is Int8 || a is Int16 || a is Int32 || a is Int64 || a is Int128 || a is UInt8 || a is UInt16
            || a is UInt32 || a is UInt64 || a is UInt128 || a is BigInteger || a is BigDecimal) ==> a.is_numeric(),
        (a is Bool || a is Char || a is String || a is Encoded || a is Unset) ==> !a.is_numeric(),
        DataType::Int8.spec_is_numeric() && DataType::Int16.spec_is_numeric() && DataType::Int32.spec_is_numeric()
            && DataType::Int64.spec_is_numeric() && DataType::Int128.spec_is_numeric()
            && DataType::UInt8.spec_is_numeric() && DataType::UInt16.spec_is_numeric()
            && DataType::UInt32.spec_is_numeric() && DataType::UInt64.spec_is_numeric()
            && DataType::UInt128.spec_is_numeric() && DataType::BigInteger.spec_is_numeric()
            && DataType::BigDecimal.spec_is_numeric() && DataType::Float32.spec_is_numeric()
            && DataType::Float64.spec_is_numeric(),
        !DataType::Bool.spec_is_numeric() && !DataType::Char.spec_is_numeric() && !DataType::String.spec_is_numeric(),
        a.is_numeric() && b.is_numeric() && !(a is BigInteger || a is BigDecimal || b is BigInteger
            || b is BigDecimal) ==> {
            &&& (spec_compare_values(a, b) == Some(ValueOrdering::Less)) == (a.int_value() < b.int_value())
            &&& (spec_compare_values(a, b) == Some(ValueOrdering::Equal)) == (a.int_value() == b.int_value())
            &&& (spec_compare_values(a, b) == Some(ValueOrdering::Greater)) == (a.int_value() > b.int_value())
            &&& spec_values_equal(a, b) == Some(a.int_value() == b.int_value())
        },
{
}

/// Each encoded kind has the data type of the same name, so no two kinds
/// share a data type.
pub proof fn law_encoded_data_types(a: EncodedType, b: EncodedType)
    ensures
        EncodedType::Date.spec_data_type() == DataType::Date,
        EncodedType::Time.spec_data_type() == DataType::Time,
        EncodedType::DateTime.spec_data_type() == DataType::DateTime,
        EncodedType::Instant.spec_data_type() == DataType::Instant,
        EncodedType::Duration.spec_data_type() == DataType::Duration,
        EncodedType::Url.spec_data_type() == DataType::Url,
        EncodedType::StringMap.spec_data_type() == DataType::StringMap,
        EncodedType::Json.spec_data_type() == DataType::Json,
        a.spec_data_type() == b.spec_data_type() ==> a == b,
        !a.spec_data_type().spec_is_numeric(),
{
}

/// Checking the fields of a wire expression object builds the node of the
/// same name as its kind, carrying over the fields that kind takes.
pub proof fn law_into_wire_kinds(f: ExpressionFields)
    ensures
        match spec_into_wire(f) {
            Ok(w) => match f.kind {
                Some(ExpressionKind::All) => w is All,
                Some(ExpressionKind::Nothing) => w is Nothing,
                Some(ExpressionKind::Eq) => (w matches FilterExpressionWireV1::Eq { key, value } && f.key == Some(key)
                    && f.value == Some(value)),
                Some(ExpressionKind::Ne) => (w matches FilterExpressionWireV1::Ne { key, value } && f.key == Some(key)
                    && f.value == Some(value)),
                Some(ExpressionKind::Lt) => (w matches FilterExpressionWireV1::Lt { key, value } && f.key == Some(key)
                    && f.value == Some(value)),
                Some(ExpressionKind::Le) => (w matches FilterExpressionWireV1::Le { key, value } && f.key == Some(key)
                    && f.value == Some(value)),
                Some(ExpressionKind::Gt) => (w matches FilterExpressionWireV1::Gt { key, value } && f.key == Some(key)
                    && f.value == Some(value)),
                Some(ExpressionKind::Ge) => (w matches FilterExpressionWireV1::Ge { key, value } && f.key == Some(key)
                    && f.value == Some(value)),
                Some(ExpressionKind::In) => (w matches FilterExpressionWireV1::In { key, values } && f.key == Some(key)
                    && f.values == Some(values)),
                Some(ExpressionKind::NotIn) => (w matches FilterExpressionWireV1::NotIn { key, values } && f.key
                    == Some(key) && f.values == Some(values)),
                Some(ExpressionKind::Exists) => (w matches FilterExpressionWireV1::Exists { key } && f.key == Some(
                    key,
                )),
                Some(ExpressionKind::NotExists) => (w matches FilterExpressionWireV1::NotExists { key } && f.key
                    == Some(key)),
                Some(ExpressionKind::And) => (w matches FilterExpressionWireV1::And { children } && f.children == Some(
                    children,
                )),
                Some(ExpressionKind::Or) => (w matches FilterExpressionWireV1::Or { children } && f.children == Some(
                    children,
                )),
                Some(ExpressionKind::Not) => (w matches FilterExpressionWireV1::Not { expression } && f.expression
                    == Some(expression)),
                None => false,
            },
            Err(_) => true,
        },
{
}

/// A wire leaf reads as the comparison of the same name on its key, and no
/// other wire node reads as a comparison.
pub proof fn law_wire_leaf_names(w: FilterExpressionWireV1)
    ensures
        match w {
            FilterExpressionWireV1::Eq { key, .. } => (wire_leaf(w) matches Some((k, name, _)) && k
                == ConditionKind::Equal && name == key@),
            FilterExpressionWireV1::Ne { key, .. } => (wire_leaf(w) matches Some((k, name, _)) && k
                == ConditionKind::NotEqual && name == key@),
            FilterExpressionWireV1::Lt { key, .. } => (wire_leaf(w) matches Some((k, name, _)) && k
                == ConditionKind::Less && name == key@),
            FilterExpressionWireV1::Le { key, .. } => (wire_leaf(w) matches Some((k, name, _)) && k
                == ConditionKind::LessEqual && name == key@),
            FilterExpressionWireV1::Gt { key, .. } => (wire_leaf(w) matches Some((k, name, _)) && k
                == ConditionKind::Greater && name == key@),
            FilterExpressionWireV1::Ge { key, .. } => (wire_leaf(w) matches Some((k, name, _)) && k
                == ConditionKind::GreaterEqual && name == key@),
            FilterExpressionWireV1::In { key, .. } => (wire_leaf(w) matches Some((k, name, _)) && k
                == ConditionKind::In && name == key@),
            FilterExpressionWireV1::NotIn { key, .. } => (wire_leaf(w) matches Some((k, name, _)) && k
                == ConditionKind::NotIn && name == key@),
            FilterExpressionWireV1::Exists { key } => (wire_leaf(w) matches Some((k, name, _)) && k
                == ConditionKind::Exists && name == key@),
            FilterExpressionWireV1::NotExists { key } => (wire_leaf(w) matches Some((k, name, _)) && k
                == ConditionKind::NotExists && name == key@),
            _ => wire_leaf(w) is None,
        },
{
}

/// An expression that a comparison wire leaf stands for (the one written
/// for it, or the one it converts to) decides as the comparison of the same
/// name between the stored value and the leaf's operand: `lt` when smaller,
/// `le` when smaller or equal, `gt` when larger, `ge` when larger or equal,
/// `eq` when equal and `ne` when not; a key without a concrete value leaves
/// it unknown.
#[verifier::rlimit(60)]
pub proof fn law_wire_comparison_meaning(w: FilterExpressionWireV1, x: FilterExpression, m: Map<Seq<char>, ValueModel>)
    requires
        wire_read(w) == Some(shape(x)) || wire_conv(w) == Ok::<ExprShape, WireFault>(shape(x)),
    ensures
        match w {
            FilterExpressionWireV1::Lt { key, value: WireValue::Scalar(v) } => ordering_meaning(
                eval(x, m),
                m,
                key@,
                v@,
                true,
                false,
                false,
            ),
            FilterExpressionWireV1::Le { key, value: WireValue::Scalar(v) } => ordering_meaning(
                eval(x, m),
                m,
                key@,
                v@,
                true,
                true,
                false,
            ),
            FilterExpressionWireV1::Gt { key, value: WireValue::Scalar(v) } => ordering_meaning(
                eval(x, m),
                m,
                key@,
                v@,
                false,
                false,
                true,
            ),
            FilterExpressionWireV1::Ge { key, value: WireValue::Scalar(v) } => ordering_meaning(
                eval(x, m),
                m,
                key@,
                v@,
                false,
                true,
                true,
            ),
            FilterExpressionWireV1::Eq { key, value: WireValue::Scalar(v) } => equality_meaning(
                eval(x, m),
                m,
                key@,
                v@,
                true,
            ),
            FilterExpressionWireV1::Ne { key, value: WireValue::Scalar(v) } => equality_meaning(
                eval(x, m),
                m,
                key@,
                v@,
                false,
            ),
            _ => true,
        },
{
    match w {
        FilterExpressionWireV1::Lt { key, value: WireValue::Scalar(v) } => {
            leaf_stands_for(x, Condition::Less { key, value: v }, m);
            law_ordering_conditions(m, key, v);
        },
        FilterExpressionWireV1::Le { key, value: WireValue::Scalar(v) } => {
            leaf_stands_for(x, Condition::LessEqual { key, value: v }, m);
            law_ordering_conditions(m, key, v);
        },
        FilterExpressionWireV1::Gt { key, value: WireValue::Scalar(v) } => {
            leaf_stands_for(x, Condition::Greater { key, value: v }, m);
            law_ordering_conditions(m, key, v);
        },
        FilterExpressionWireV1::Ge { key, value: WireValue::Scalar(v) } => {
            leaf_stands_for(x, Condition::GreaterEqual { key, value: v }, m);
            law_ordering_conditions(m, key, v);
        },
        FilterExpressionWireV1::Eq { key, value: WireValue::Scalar(v) } => {
            leaf_stands_for(x, Condition::Equal { key, value: v }, m);
            law_equality_conditions(m, key, v);
        },
        FilterExpressionWireV1::Ne { key, value: WireValue::Scalar(v) } => {
            leaf_stands_for(x, Condition::NotEqual { key, value: v }, m);
            law_equality_conditions(m, key, v);
        },
        _ => {},
    }
}

/// `outcome` is what an ordering comparison accepting the given orders gives
/// on the value stored under `key` and the operand `v`.
pub open spec fn ordering_meaning(
    outcome: MatchOutcome,
    m: Map<Seq<char>, ValueModel>,
    key: Seq<char>,
    v: ValueModel,
    accept_less: bool,
    accept_equal: bool,
    accept_greater: bool,
) -> bool {
    match concrete(m, key) {
        Some(s) => match spec_compare_values(s, v) {
            Some(ValueOrdering::Less) => outcome == (if accept_less { MatchOutcome::True } else { MatchOutcome::False }),
            Some(ValueOrdering::Equal) => outcome == (if accept_equal { MatchOutcome::True } else { MatchOutcome::False }),
            Some(ValueOrdering::Greater) => outcome == (if accept_greater {
                MatchOutcome::True
            } else {
                MatchOutcome::False
            }),
            None => true,
        },
        None => outcome == MatchOutcome::Unknown,
    }
}

/// `outcome` is what an equality (or, with `positive` false, inequality)
/// test gives on the value stored under `key` and the operand `v`.
pub open spec fn equality_meaning(
    outcome: MatchOutcome,
    m: Map<Seq<char>, ValueModel>,
    key: Seq<char>,
    v: ValueModel,
    positive: bool,
) -> bool {
    match concrete(m, key) {
        Some(s) => match spec_values_equal(s, v) {
            Some(b) => outcome == (if b == positive { MatchOutcome::True } else { MatchOutcome::False }),
            None => true,
        },
        None => outcome == MatchOutcome::Unknown,
    }
}

/// An expression whose shape is the single condition `c` evaluates as `c`.
proof fn leaf_stands_for(x: FilterExpression, c: Condition, m: Map<Seq<char>, ValueModel>)
    requires
        shape(x) == ExprShape::Cond(c.spec_shape()),
    ensures
        eval(x, m) == c.spec_evaluate(m),
{
    lemma_leaf_meaning(c);
    lemma_same_shape_behaves(x, FilterExpression::leaf(c));
}

/// Comparing in the other order gives the converse answer: smaller becomes
/// larger, equal stays equal, and an incomparable pair stays incomparable;
/// equality is symmetric.
pub proof fn law_compare_converse(a: ValueModel, b: ValueModel)
    ensures
        (spec_compare_values(a, b) == Some(ValueOrdering::Less)) == (spec_compare_values(b, a) == Some(
            ValueOrdering::Greater,
        )),
        (spec_compare_values(a, b) == Some(ValueOrdering::Equal)) == (spec_compare_values(b, a) == Some(
            ValueOrdering::Equal,
        )),
        (spec_compare_values(a, b) is None) == (spec_compare_values(b, a) is None),
        spec_values_equal(a, b) == spec_values_equal(b, a),
{
    if let (ValueModel::String(x), ValueModel::String(y)) = (a, b) {
        lemma_lex_order_converse(str_bytes(x), str_bytes(y));
        lemma_lex_order_converse(str_bytes(y), str_bytes(x));
        lemma_lex_order_equal(str_bytes(x), str_bytes(y));
        lemma_lex_order_equal(str_bytes(y), str_bytes(x));
    }
}

} // verus!
