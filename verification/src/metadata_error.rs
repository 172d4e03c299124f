use vstd::prelude::*;

use crate::filter_limit_kind::FilterLimitKind;
use crate::metadata_wire_limit_kind::MetadataWireLimitKind;
use crate::value::DataType;

verus! {

/// Errors produced by explicit metadata accessors and filter construction.
#[derive(Debug, PartialEq, Eq)]
pub enum MetadataError {
    /// The requested key does not exist.
    MissingKey(String),
    /// A requested key exists but stores no concrete value.
    MissingValue {
        /// Metadata key being read.
        key: String,
        /// Data type declared by the unset value.
        data_type: DataType,
    },
    /// A stored value does not have the requested type.
    TypeMismatch {
        /// Metadata key being read or validated.
        key: String,
        /// Expected data type.
        expected: DataType,
        /// Actual stored data type.
        actual: DataType,
        /// Human-readable message.
        message: String,
    },
    /// A metadata value exceeds a strict V1 wire limit.
    WireLimitExceeded {
        /// Wire resource category that exceeded its limit.
        kind: MetadataWireLimitKind,
        /// Observed resource value.
        value: usize,
        /// Largest value accepted by the V1 wire contract.
        maximum: usize,
    },
    /// A filter expression is structurally invalid.
    InvalidFilterExpression {
        /// Human-readable validation message.
        message: String,
    },
    /// A filter condition uses an operand with no stable matching semantics.
    InvalidFilterOperand {
        /// Stable filter operator name.
        operator: &'static str,
        /// Data type declared by the rejected operand.
        data_type: DataType,
        /// Human-readable rejection reason.
        message: String,
    },
    /// A metadata-filter builder was finalized without an expression.
    MissingFilterExpression,
    /// A configured filter resource bound is outside the allowed range.
    InvalidFilterLimit {
        /// Resource category being configured.
        kind: FilterLimitKind,
        /// Requested resource bound.
        value: usize,
        /// Library hard maximum for the resource.
        maximum: usize,
    },
    /// A filter exceeds an enforced resource bound.
    FilterLimitExceeded {
        /// Resource category that exceeded its limit.
        kind: FilterLimitKind,
        /// Observed resource value.
        value: usize,
        /// Largest allowed value for the resource.
        maximum: usize,
    },
}

impl Clone for MetadataError {
    /// Copies the error.
    fn clone(&self) -> (r: Self)
        ensures
            r == *self,
    {
        match self {
            MetadataError::MissingKey(key) => MetadataError::MissingKey(key.clone()),
            MetadataError::MissingValue { key, data_type } => MetadataError::MissingValue {
                key: key.clone(),
                data_type: *data_type,
            },
            MetadataError::TypeMismatch { key, expected, actual, message } => MetadataError::TypeMismatch {
                key: key.clone(),
                expected: *expected,
                actual: *actual,
                message: message.clone(),
            },
            MetadataError::WireLimitExceeded { kind, value, maximum } => MetadataError::WireLimitExceeded {
                kind: *kind,
                value: *value,
                maximum: *maximum,
            },
            MetadataError::InvalidFilterExpression { message } => MetadataError::InvalidFilterExpression {
                message: message.clone(),
            },
            MetadataError::InvalidFilterOperand { operator, data_type, message } => MetadataError::InvalidFilterOperand {
                operator: *operator,
                data_type: *data_type,
                message: message.clone(),
            },
            MetadataError::MissingFilterExpression => MetadataError::MissingFilterExpression,
            MetadataError::InvalidFilterLimit { kind, value, maximum } => MetadataError::InvalidFilterLimit {
                kind: *kind,
                value: *value,
                maximum: *maximum,
            },
            MetadataError::FilterLimitExceeded { kind, value, maximum } => MetadataError::FilterLimitExceeded {
                kind: *kind,
                value: *value,
                maximum: *maximum,
            },
        }
    }
}

} // verus!
