use vstd::prelude::*;
use vstd::string::StringExecFns;

use crate::decimal::{decimal, decimal_string};
use crate::filter_limit_kind::FilterLimitKind;
use crate::metadata_error::MetadataError;
use crate::metadata_wire_limit_kind::MetadataWireLimitKind;
use crate::value::DataType;

verus! {

impl DataType {
    /// The stable lower-case name of the type.
    pub open spec fn spec_name(self) -> Seq<char> {
        match self {
            DataType::Bool => "bool"@,
            DataType::Char => "char"@,
            DataType::Int8 => "int8"@,
            DataType::Int16 => "int16"@,
            DataType::Int32 => "int32"@,
            DataType::Int64 => "int64"@,
            DataType::Int128 => "int128"@,
            DataType::UInt8 => "uint8"@,
            DataType::UInt16 => "uint16"@,
            DataType::UInt32 => "uint32"@,
            DataType::UInt64 => "uint64"@,
            DataType::UInt128 => "uint128"@,
            DataType::Float32 => "float32"@,
            DataType::Float64 => "float64"@,
            DataType::String => "string"@,
            DataType::Date => "date"@,
            DataType::Time => "time"@,
            DataType::DateTime => "datetime"@,
            DataType::Instant => "instant"@,
            DataType::BigInteger => "biginteger"@,
            DataType::BigDecimal => "bigdecimal"@,
            DataType::Duration => "duration"@,
            DataType::Url => "url"@,
            DataType::StringMap => "stringmap"@,
            DataType::Json => "json"@,
        }
    }

    /// Returns the stable lower-case name of the type.
    pub fn as_str(self) -> (r: &'static str)
        ensures
            r@ == self.spec_name(),
    {
        match self {
            DataType::Bool => "bool",
            DataType::Char => "char",
            DataType::Int8 => "int8",
            DataType::Int16 => "int16",
            DataType::Int32 => "int32",
            DataType::Int64 => "int64",
            DataType::Int128 => "int128",
            DataType::UInt8 => "uint8",
            DataType::UInt16 => "uint16",
            DataType::UInt32 => "uint32",
            DataType::UInt64 => "uint64",
            DataType::UInt128 => "uint128",
            DataType::Float32 => "float32",
            DataType::Float64 => "float64",
            DataType::String => "string",
            DataType::Date => "date",
            DataType::Time => "time",
            DataType::DateTime => "datetime",
            DataType::Instant => "instant",
            DataType::BigInteger => "biginteger",
            DataType::BigDecimal => "bigdecimal",
            DataType::Duration => "duration",
            DataType::Url => "url",
            DataType::StringMap => "stringmap",
            DataType::Json => "json",
        }
    }
}

/// The debug name of a filter resource.
pub open spec fn filter_kind_name(k: FilterLimitKind) -> Seq<char> {
    match k {
        FilterLimitKind::Depth => "Depth"@,
        FilterLimitKind::Nodes => "Nodes"@,
        FilterLimitKind::SetValues => "SetValues"@,
        FilterLimitKind::KeyBytes => "KeyBytes"@,
    }
}

/// The debug name of a wire resource.
pub open spec fn wire_kind_name(k: MetadataWireLimitKind) -> Seq<char> {
    match k {
        MetadataWireLimitKind::Entries => "Entries"@,
        MetadataWireLimitKind::KeyBytes => "KeyBytes"@,
    }
}

fn filter_kind_str(k: FilterLimitKind) -> (r: &'static str)
    ensures
        r@ == filter_kind_name(k),
{
    match k {
        FilterLimitKind::Depth => "Depth",
        FilterLimitKind::Nodes => "Nodes",
        FilterLimitKind::SetValues => "SetValues",
        FilterLimitKind::KeyBytes => "KeyBytes",
    }
}

fn wire_kind_str(k: MetadataWireLimitKind) -> (r: &'static str)
    ensures
        r@ == wire_kind_name(k),
{
    match k {
        MetadataWireLimitKind::Entries => "Entries",
        MetadataWireLimitKind::KeyBytes => "KeyBytes",
    }
}

/// The human-readable description of an error.
pub open spec fn error_message(e: MetadataError) -> Seq<char> {
    match e {
        MetadataError::MissingKey(key) => "Metadata key not found: "@ + key@,
        MetadataError::MissingValue { key, data_type } => "Metadata key '"@ + key@ + "' has no concrete value (declared "@
            + data_type.spec_name() + ")"@,
        MetadataError::TypeMismatch { key, expected, actual, message } => "Metadata key '"@ + key@ + "' expected "@
            + expected.spec_name() + " but actual "@ + actual.spec_name() + ": "@ + message@,
        MetadataError::WireLimitExceeded { kind, value, maximum } => "Metadata wire "@ + wire_kind_name(kind)
            + " value "@ + decimal(value as nat) + " exceeds the maximum of "@ + decimal(maximum as nat),
        MetadataError::InvalidFilterExpression { message } => "Metadata filter expression is invalid: "@ + message@,
        MetadataError::InvalidFilterOperand { operator, data_type, message } => "Metadata filter operator '"@
            + operator@ + "' cannot use "@ + data_type.spec_name() + ": "@ + message@,
        MetadataError::MissingFilterExpression => "Metadata filter requires an expression"@,
        MetadataError::InvalidFilterLimit { kind, value, maximum } => "Metadata filter "@ + filter_kind_name(kind)
            + " limit "@ + decimal(value as nat) + " is outside 1..="@ + decimal(maximum as nat),
        MetadataError::FilterLimitExceeded { kind, value, maximum } => "Metadata filter "@ + filter_kind_name(kind)
            + " value "@ + decimal(value as nat) + " exceeds the maximum of "@ + decimal(maximum as nat),
    }
}

impl MetadataError {
    /// Returns the human-readable description of this error.
    pub fn message(&self) -> (r: String)
        ensures
            r@ == error_message(*self),
    {
        match self {
            MetadataError::MissingKey(key) => "Metadata key not found: ".to_owned().concat(key.as_str()),
            MetadataError::MissingValue { key, data_type } => "Metadata key '".to_owned().concat(key.as_str()).concat(
                "' has no concrete value (declared ",
            ).concat(data_type.as_str()).concat(")"),
            MetadataError::TypeMismatch { key, expected, actual, message } => "Metadata key '".to_owned().concat(
                key.as_str(),
            ).concat("' expected ").concat(expected.as_str()).concat(" but actual ").concat(actual.as_str()).concat(
                ": ",
            ).concat(message.as_str()),
            MetadataError::WireLimitExceeded { kind, value, maximum } => "Metadata wire ".to_owned().concat(
                wire_kind_str(*kind),
            ).concat(" value ").concat(decimal_string(*value).as_str()).concat(" exceeds the maximum of ").concat(
                decimal_string(*maximum).as_str(),
            ),
            MetadataError::InvalidFilterExpression { message } => "Metadata filter expression is invalid: ".to_owned().concat(
                message.as_str(),
            ),
            MetadataError::InvalidFilterOperand { operator, data_type, message } => "Metadata filter operator '".to_owned().concat(
                operator,
            ).concat("' cannot use ").concat(data_type.as_str()).concat(": ").concat(message.as_str()),
            MetadataError::MissingFilterExpression => "Metadata filter requires an expression".to_owned(),
            MetadataError::InvalidFilterLimit { kind, value, maximum } => "Metadata filter ".to_owned().concat(
                filter_kind_str(*kind),
            ).concat(" limit ").concat(decimal_string(*value).as_str()).concat(" is outside 1..=").concat(
                decimal_string(*maximum).as_str(),
            ),
            MetadataError::FilterLimitExceeded { kind, value, maximum } => "Metadata filter ".to_owned().concat(
                filter_kind_str(*kind),
            ).concat(" value ").concat(decimal_string(*value).as_str()).concat(" exceeds the maximum of ").concat(
                decimal_string(*maximum).as_str(),
            ),
        }
    }
}

} // verus!
