//! A structured, key-sorted metadata store with composable, resource-bounded
//! filters and three-valued filter evaluation.

mod big_number;
mod decimal;
mod filter_limit_kind;
mod filter_limits;
mod value;
mod metadata_wire_limit_kind;
mod metadata_error;
mod error_message;
mod match_outcome;
mod metadata;
mod expression_shape;
mod condition;
mod filter_expression;
mod filter_match_options;
mod filter_expression_builder;
mod metadata_filter;
mod filter_wire;
mod expression_fields;
mod expression_grammar;
mod filter_decode_budget;
mod metadata_filter_wire;
mod metadata_limits;
mod metadata_wire_limits;
mod metadata_validation_error;
mod laws;

pub use filter_limit_kind::FilterLimitKind;
pub use filter_limits::FilterLimits;
pub use filter_limits::FilterLimitsBuilder;
pub use value::{BigDigits, DataType, EncodedType, MetadataValue, NumericComparisonPolicy, ValueOrdering};
pub use metadata_wire_limit_kind::MetadataWireLimitKind;
pub use metadata_error::MetadataError;
pub use match_outcome::MatchOutcome;
pub use metadata::Metadata;
pub use condition::Condition;
pub use expression_shape::{ConditionKind, ConditionShape, ExprShape};
pub use filter_expression::{FilterExpression, FilterExpressionView};
pub use filter_expression_builder::FilterExpressionBuilder;
pub use expression_fields::{ensure_absent, required, ExpressionFields, ExpressionKind};
pub use expression_grammar::ExpressionField;
pub use filter_decode_budget::FilterDecodeBudget;
pub use filter_wire::{FilterExpressionWireV1, WireValue};
pub use metadata_limits::{
    MetadataLimits, MetadataLimitsBuilder, DEFAULT_MAX_JSON_BYTES, DEFAULT_MAX_KEY_BYTES, DEFAULT_MAX_METADATA_ENTRIES,
    DEFAULT_MAX_SCHEMA_FIELDS,
};
pub use metadata_wire_limits::{MetadataWireDecodeError, MetadataWireLimits, WireLimits};
pub use metadata_validation_error::{MetadataValidationError, MetadataValueKind};
pub use metadata_filter_wire::MetadataFilterWireV1;
pub use metadata_filter::{MetadataFilter, MetadataFilterBuilder};
pub use filter_match_options::{FilterMatchOptions, FilterMatchOptionsBuilder};
