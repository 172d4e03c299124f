use vstd::prelude::*;
use vstd::string::StringExecFns;

use crate::filter_wire::{FilterExpressionWireV1, WireValue};

verus! {

/// The `kind` tag of a wire expression object.
#[derive(Debug, Clone, Copy, PartialEq, Eq, Structural)]
pub enum ExpressionKind {
    /// Constant true.
    All,
    /// Constant false.
    Nothing,
    /// `key == value`.
    Eq,
    /// `key != value`.
    Ne,
    /// `key < value`.
    Lt,
    /// `key <= value`.
    Le,
    /// `key > value`.
    Gt,
    /// `key >= value`.
    Ge,
    /// Membership.
    In,
    /// Non-membership.
    NotIn,
    /// Existence.
    Exists,
    /// Non-existence.
    NotExists,
    /// Conjunction.
    And,
    /// Disjunction.
    Or,
    /// Negation.
    Not,
}

/// The fields of one wire expression object as they were read, before the
/// object is checked against its kind.
#[derive(Debug)]
pub struct ExpressionFields {
    /// The `kind` field.
    pub kind: Option<ExpressionKind>,
    /// The `key` field.
    pub key: Option<String>,
    /// The `value` field.
    pub value: Option<WireValue>,
    /// The `values` field.
    pub values: Option<Vec<WireValue>>,
    /// The `children` field.
    pub children: Option<Vec<FilterExpressionWireV1>>,
    /// The `expression` field.
    pub expression: Option<Box<FilterExpressionWireV1>>,
}

/// The message for a required field that is absent.
pub open spec fn missing_message(field: Seq<char>) -> Seq<char> {
    "missing field `"@ + field + "`"@
}

/// The message for a field that the kind does not take.
pub open spec fn unknown_message(field: Seq<char>) -> Seq<char> {
    "unknown field `"@ + field + "` for this expression kind"@
}

/// The fields a kind takes, as (key, value, values, children, expression).
pub open spec fn kind_fields(k: ExpressionKind) -> (bool, bool, bool, bool, bool) {
    match k {
        ExpressionKind::All | ExpressionKind::Nothing => (false, false, false, false, false),
        ExpressionKind::Eq | ExpressionKind::Ne | ExpressionKind::Lt | ExpressionKind::Le | ExpressionKind::Gt
        | ExpressionKind::Ge => (true, true, false, false, false),
        ExpressionKind::In | ExpressionKind::NotIn => (true, false, true, false, false),
        ExpressionKind::Exists | ExpressionKind::NotExists => (true, false, false, false, false),
        ExpressionKind::And | ExpressionKind::Or => (false, false, false, true, false),
        ExpressionKind::Not => (false, false, false, false, true),
    }
}

/// The first present field, in the order key, value, values, children,
/// expression, that the kind does not take.
pub open spec fn first_forbidden(f: ExpressionFields, k: ExpressionKind) -> Option<Seq<char>> {
    let (key, value, values, children, expression) = kind_fields(k);
    if !key && f.key is Some {
        Some("key"@)
    } else if !value && f.value is Some {
        Some("value"@)
    } else if !values && f.values is Some {
        Some("values"@)
    } else if !children && f.children is Some {
        Some("children"@)
    } else if !expression && f.expression is Some {
        Some("expression"@)
    } else {
        None
    }
}

/// The first absent field, in the same order, that the kind requires.
pub open spec fn first_missing(f: ExpressionFields, k: ExpressionKind) -> Option<Seq<char>> {
    let (key, value, values, children, expression) = kind_fields(k);
    if key && f.key is None {
        Some("key"@)
    } else if value && f.value is None {
        Some("value"@)
    } else if values && f.values is None {
        Some("values"@)
    } else if children && f.children is None {
        Some("children"@)
    } else if expression && f.expression is None {
        Some("expression"@)
    } else {
        None
    }
}

/// The wire node of kind `k` built from fields that are all present.
pub open spec fn built(f: ExpressionFields, k: ExpressionKind) -> FilterExpressionWireV1 {
    match k {
        ExpressionKind::All => FilterExpressionWireV1::All,
        ExpressionKind::Nothing => FilterExpressionWireV1::Nothing,
        ExpressionKind::Eq => FilterExpressionWireV1::Eq { key: f.key->0, value: f.value->0 },
        ExpressionKind::Ne => FilterExpressionWireV1::Ne { key: f.key->0, value: f.value->0 },
        ExpressionKind::Lt => FilterExpressionWireV1::Lt { key: f.key->0, value: f.value->0 },
        ExpressionKind::Le => FilterExpressionWireV1::Le { key: f.key->0, value: f.value->0 },
        ExpressionKind::Gt => FilterExpressionWireV1::Gt { key: f.key->0, value: f.value->0 },
        ExpressionKind::Ge => FilterExpressionWireV1::Ge { key: f.key->0, value: f.value->0 },
        ExpressionKind::In => FilterExpressionWireV1::In { key: f.key->0, values: f.values->0 },
        ExpressionKind::NotIn => FilterExpressionWireV1::NotIn { key: f.key->0, values: f.values->0 },
        ExpressionKind::Exists => FilterExpressionWireV1::Exists { key: f.key->0 },
        ExpressionKind::NotExists => FilterExpressionWireV1::NotExists { key: f.key->0 },
        ExpressionKind::And => FilterExpressionWireV1::And { children: f.children->0 },
        ExpressionKind::Or => FilterExpressionWireV1::Or { children: f.children->0 },
        ExpressionKind::Not => FilterExpressionWireV1::Not { expression: f.expression->0 },
    }
}

/// The result of checking the fields against their kind: a missing kind,
/// then the first field the kind does not take, then the first field it
/// requires that is absent.
pub open spec fn spec_into_wire(f: ExpressionFields) -> Result<FilterExpressionWireV1, Seq<char>> {
    match f.kind {
        None => Err(missing_message("kind"@)),
        Some(k) => match first_forbidden(f, k) {
            Some(name) => Err(unknown_message(name)),
            None => match first_missing(f, k) {
                Some(name) => Err(missing_message(name)),
                None => Ok(built(f, k)),
            },
        },
    }
}

/// Returns the value of a required field, or the message naming it.
pub fn required<T>(value: Option<T>, field: &str) -> (r: Result<T, String>)
    ensures
        match value {
            Some(v) => r == Ok::<T, String>(v),
            None => r matches Err(m) && m@ == missing_message(field@),
        },
{
    match value {
        Some(v) => Ok(v),
        None => Err("missing field `".to_owned().concat(field).concat("`")),
    }
}

/// Rejects a field that the expression kind does not take.
pub fn ensure_absent<T>(value: Option<T>, field: &str) -> (r: Result<(), String>)
    ensures
        match value {
            Some(_) => r matches Err(m) && m@ == unknown_message(field@),
            None => r is Ok,
        },
{
    if value.is_some() {
        Err("unknown field `".to_owned().concat(field).concat("` for this expression kind"))
    } else {
        Ok(())
    }
}

impl ExpressionFields {
    /// Checks the fields against their kind and builds the wire node.
    pub fn into_wire(self) -> (r: Result<FilterExpressionWireV1, String>)
        ensures
            match (r, spec_into_wire(self)) {
                (Ok(w), Ok(x)) => w == x,
                (Err(m), Err(n)) => m@ == n,
                _ => false,
            },
    {
        proof {
            reveal_strlit("key");
            reveal_strlit("value");
            reveal_strlit("values");
            reveal_strlit("children");
            reveal_strlit("expression");
            reveal_strlit("kind");
        }
        let ExpressionFields { kind, key, value, values, children, expression } = self;
        let kind = match kind {
            Some(kind) => kind,
            None => {
                return Err("missing field `".to_owned().concat("kind").concat("`"));
            },
        };
        match kind {
            ExpressionKind::All | ExpressionKind::Nothing => {
                ensure_absent(key, "key")?;
                ensure_absent(value, "value")?;
                ensure_absent(values, "values")?;
                ensure_absent(children, "children")?;
                ensure_absent(expression, "expression")?;
                if matches!(kind, ExpressionKind::All) {
                    Ok(FilterExpressionWireV1::All)
                } else {
                    Ok(FilterExpressionWireV1::Nothing)
                }
            },
            ExpressionKind::Eq | ExpressionKind::Ne | ExpressionKind::Lt | ExpressionKind::Le
            | ExpressionKind::Gt | ExpressionKind::Ge => {
                ensure_absent(values, "values")?;
                ensure_absent(children, "children")?;
                ensure_absent(expression, "expression")?;
                let key = required(key, "key")?;
                let value = required(value, "value")?;
                Ok(
                    match kind {
                        ExpressionKind::Eq => FilterExpressionWireV1::Eq { key, value },
                        ExpressionKind::Ne => FilterExpressionWireV1::Ne { key, value },
                        ExpressionKind::Lt => FilterExpressionWireV1::Lt { key, value },
                        ExpressionKind::Le => FilterExpressionWireV1::Le { key, value },
                        ExpressionKind::Gt => FilterExpressionWireV1::Gt { key, value },
                        _ => FilterExpressionWireV1::Ge { key, value },
                    },
                )
            },
            ExpressionKind::In | ExpressionKind::NotIn => {
                ensure_absent(value, "value")?;
                ensure_absent(children, "children")?;
                ensure_absent(expression, "expression")?;
                let key = required(key, "key")?;
                let values = required(values, "values")?;
                if matches!(kind, ExpressionKind::In) {
                    Ok(FilterExpressionWireV1::In { key, values })
                } else {
                    Ok(FilterExpressionWireV1::NotIn { key, values })
                }
            },
            ExpressionKind::Exists | ExpressionKind::NotExists => {
                ensure_absent(value, "value")?;
                ensure_absent(values, "values")?;
                ensure_absent(children, "children")?;
                ensure_absent(expression, "expression")?;
                let key = required(key, "key")?;
                if matches!(kind, ExpressionKind::Exists) {
                    Ok(FilterExpressionWireV1::Exists { key })
                } else {
                    Ok(FilterExpressionWireV1::NotExists { key })
                }
            },
            ExpressionKind::And | ExpressionKind::Or => {
                ensure_absent(key, "key")?;
                ensure_absent(value, "value")?;
                ensure_absent(values, "values")?;
                ensure_absent(expression, "expression")?;
                let children = required(children, "children")?;
                if matches!(kind, ExpressionKind::And) {
                    Ok(FilterExpressionWireV1::And { children })
                } else {
                    Ok(FilterExpressionWireV1::Or { children })
                }
            },
            ExpressionKind::Not => {
                ensure_absent(key, "key")?;
                ensure_absent(value, "value")?;
                ensure_absent(values, "values")?;
                ensure_absent(children, "children")?;
                let expression = required(expression, "expression")?;
                Ok(FilterExpressionWireV1::Not { expression })
            },
        }
    }
}

} // verus!
