use vstd::prelude::*;
use vstd::string::StringExecFns;

use crate::expression_fields::{ExpressionFields, ExpressionKind};
use crate::value::str_equal;

verus! {

/// A field of a wire expression object.
#[derive(Debug, Clone, Copy, PartialEq, Eq, Structural)]
pub enum ExpressionField {
    /// `kind`.
    Kind,
    /// `key`.
    Key,
    /// `value`.
    Value,
    /// `values`.
    Values,
    /// `children`.
    Children,
    /// `expression`.
    Expression,
}

/// The field with the given name.
pub open spec fn field_of_name(name: Seq<char>) -> Option<ExpressionField> {
    if name == "kind"@ {
        Some(ExpressionField::Kind)
    } else if name == "key"@ {
        Some(ExpressionField::Key)
    } else if name == "value"@ {
        Some(ExpressionField::Value)
    } else if name == "values"@ {
        Some(ExpressionField::Values)
    } else if name == "children"@ {
        Some(ExpressionField::Children)
    } else if name == "expression"@ {
        Some(ExpressionField::Expression)
    } else {
        None
    }
}

/// The expression kind with the given wire name.
pub open spec fn kind_of_name(name: Seq<char>) -> Option<ExpressionKind> {
    if name == "all"@ {
        Some(ExpressionKind::All)
    } else if name == "none"@ {
        Some(ExpressionKind::Nothing)
    } else if name == "eq"@ {
        Some(ExpressionKind::Eq)
    } else if name == "ne"@ {
        Some(ExpressionKind::Ne)
    } else if name == "lt"@ {
        Some(ExpressionKind::Lt)
    } else if name == "le"@ {
        Some(ExpressionKind::Le)
    } else if name == "gt"@ {
        Some(ExpressionKind::Gt)
    } else if name == "ge"@ {
        Some(ExpressionKind::Ge)
    } else if name == "in"@ {
        Some(ExpressionKind::In)
    } else if name == "not_in"@ {
        Some(ExpressionKind::NotIn)
    } else if name == "exists"@ {
        Some(ExpressionKind::Exists)
    } else if name == "not_exists"@ {
        Some(ExpressionKind::NotExists)
    } else if name == "and"@ {
        Some(ExpressionKind::And)
    } else if name == "or"@ {
        Some(ExpressionKind::Or)
    } else if name == "not"@ {
        Some(ExpressionKind::Not)
    } else {
        None
    }
}

/// The message for a field name that no expression object takes.
pub open spec fn unknown_field_message(name: Seq<char>) -> Seq<char> {
    "unknown field `"@ + name + "`, expected one of `kind`, `key`, `value`, `values`, `children`, `expression`"@
}

/// The message for a kind name that names no expression kind.
pub open spec fn unknown_kind_message(name: Seq<char>) -> Seq<char> {
    "unknown variant `"@ + name
        + "`, expected one of `all`, `none`, `eq`, `ne`, `lt`, `le`, `gt`, `ge`, `in`, `not_in`, `exists`, `not_exists`, `and`, `or`, `not`"@
}

/// The message for a field that occurs twice.
pub open spec fn duplicate_field_message(name: Seq<char>) -> Seq<char> {
    "duplicate field `"@ + name + "`"@
}

/// The name of a field.
pub open spec fn field_name(f: ExpressionField) -> Seq<char> {
    match f {
        ExpressionField::Kind => "kind"@,
        ExpressionField::Key => "key"@,
        ExpressionField::Value => "value"@,
        ExpressionField::Values => "values"@,
        ExpressionField::Children => "children"@,
        ExpressionField::Expression => "expression"@,
    }
}

/// Whether a field has been read into `f`.
pub open spec fn field_is_set(f: ExpressionFields, field: ExpressionField) -> bool {
    match field {
        ExpressionField::Kind => f.kind is Some,
        ExpressionField::Key => f.key is Some,
        ExpressionField::Value => f.value is Some,
        ExpressionField::Values => f.values is Some,
        ExpressionField::Children => f.children is Some,
        ExpressionField::Expression => f.expression is Some,
    }
}

impl ExpressionField {
    /// Reads a field name, refusing a name that no expression object takes.
    pub fn from_name(name: &str) -> (r: Result<ExpressionField, String>)
        ensures
            match field_of_name(name@) {
                Some(f) => r == Ok::<ExpressionField, String>(f),
                None => r matches Err(m) && m@ == unknown_field_message(name@),
            },
    {
        if str_equal(name, "kind") {
            Ok(ExpressionField::Kind)
        } else if str_equal(name, "key") {
            Ok(ExpressionField::Key)
        } else if str_equal(name, "value") {
            Ok(ExpressionField::Value)
        } else if str_equal(name, "values") {
            Ok(ExpressionField::Values)
        } else if str_equal(name, "children") {
            Ok(ExpressionField::Children)
        } else if str_equal(name, "expression") {
            Ok(ExpressionField::Expression)
        } else {
            Err(
                "unknown field `".to_owned().concat(name).concat(
                    "`, expected one of `kind`, `key`, `value`, `values`, `children`, `expression`",
                ),
            )
        }
    }

    /// Returns the name of the field.
    pub fn name(self) -> (r: &'static str)
        ensures
            r@ == field_name(self),
    {
        match self {
            ExpressionField::Kind => "kind",
            ExpressionField::Key => "key",
            ExpressionField::Value => "value",
            ExpressionField::Values => "values",
            ExpressionField::Children => "children",
            ExpressionField::Expression => "expression",
        }
    }
}

impl ExpressionKind {
    /// Reads a kind name, refusing a name that names no expression kind.
    pub fn from_name(name: &str) -> (r: Result<ExpressionKind, String>)
        ensures
            match kind_of_name(name@) {
                Some(k) => r == Ok::<ExpressionKind, String>(k),
                None => r matches Err(m) && m@ == unknown_kind_message(name@),
            },
    {
        if str_equal(name, "all") {
            Ok(ExpressionKind::All)
        } else if str_equal(name, "none") {
            Ok(ExpressionKind::Nothing)
        } else if str_equal(name, "eq") {
            Ok(ExpressionKind::Eq)
        } else if str_equal(name, "ne") {
            Ok(ExpressionKind::Ne)
        } else if str_equal(name, "lt") {
            Ok(ExpressionKind::Lt)
        } else if str_equal(name, "le") {
            Ok(ExpressionKind::Le)
        } else if str_equal(name, "gt") {
            Ok(ExpressionKind::Gt)
        } else if str_equal(name, "ge") {
            Ok(ExpressionKind::Ge)
        } else if str_equal(name, "in") {
            Ok(ExpressionKind::In)
        } else if str_equal(name, "not_in") {
            Ok(ExpressionKind::NotIn)
        } else if str_equal(name, "exists") {
            Ok(ExpressionKind::Exists)
        } else if str_equal(name, "not_exists") {
            Ok(ExpressionKind::NotExists)
        } else if str_equal(name, "and") {
            Ok(ExpressionKind::And)
        } else if str_equal(name, "or") {
            Ok(ExpressionKind::Or)
        } else if str_equal(name, "not") {
            Ok(ExpressionKind::Not)
        } else {
            Err(
                "unknown variant `".to_owned().concat(name).concat(
                    "`, expected one of `all`, `none`, `eq`, `ne`, `lt`, `le`, `gt`, `ge`, `in`, `not_in`, `exists`, `not_exists`, `and`, `or`, `not`",
                ),
            )
        }
    }
}

impl ExpressionFields {
    /// Refuses a field that has already been read into these fields.
    pub fn check_unset(&self, field: ExpressionField) -> (r: Result<(), String>)
        ensures
            field_is_set(*self, field) ==> (r matches Err(m) && m@ == duplicate_field_message(field_name(field))),
            !field_is_set(*self, field) ==> r is Ok,
    {
        let set = match field {
            ExpressionField::Kind => self.kind.is_some(),
            ExpressionField::Key => self.key.is_some(),
            ExpressionField::Value => self.value.is_some(),
            ExpressionField::Values => self.values.is_some(),
            ExpressionField::Children => self.children.is_some(),
            ExpressionField::Expression => self.expression.is_some(),
        };
        if set {
            Err("duplicate field `".to_owned().concat(field.name()).concat("`"))
        } else {
            Ok(())
        }
    }
}

} // verus!
