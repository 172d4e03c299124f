use vstd::prelude::*;

use crate::metadata::{STRICT_STRING_MAP_MAX_ENTRIES, STRICT_STRING_MAP_MAX_KEY_BYTES};
use crate::metadata_error::MetadataError;
use crate::metadata_limits::{
    DEFAULT_MAX_JSON_BYTES, DEFAULT_MAX_KEY_BYTES, DEFAULT_MAX_METADATA_ENTRIES, DEFAULT_MAX_SCHEMA_FIELDS,
};
use crate::metadata_wire_limit_kind::MetadataWireLimitKind;

verus! {

/// Errors raised by the limit checks of metadata, schema and filter wire
/// decoding.
#[derive(Debug, Clone, PartialEq, Eq)]
pub enum MetadataWireDecodeError {
    /// A decoded quantity exceeds its configured bound.
    LimitExceeded {
        /// The bounded resource.
        kind: MetadataWireLimitKind,
        /// The observed quantity.
        value: usize,
        /// The configured bound.
        maximum: usize,
    },
    /// A configured bound exceeds the strict wire contract.
    InvalidLimit {
        /// The bounded resource.
        kind: MetadataWireLimitKind,
        /// The configured bound.
        value: usize,
        /// The strict maximum.
        maximum: usize,
    },
    /// A decoded filter is invalid.
    Filter(MetadataError),
}

/// The shared structural limits of a JSON wire document.
#[derive(Debug, Clone, Copy, PartialEq, Eq, Structural)]
pub struct WireLimits {
    max_input_bytes: usize,
}

impl WireLimits {
    /// The largest accepted input, in bytes.
    pub closed spec fn spec_max_input_bytes(self) -> usize {
        self.max_input_bytes
    }

    /// Creates limits accepting inputs of at most `max_input_bytes` bytes.
    pub fn new(max_input_bytes: usize) -> (r: Self)
        ensures
            r.spec_max_input_bytes() == max_input_bytes,
    {
        WireLimits { max_input_bytes }
    }

    /// Returns the largest accepted input, in bytes.
    pub fn max_input_bytes(&self) -> (r: usize)
        ensures
            r == self.spec_max_input_bytes(),
    {
        self.max_input_bytes
    }
}

/// Resource bounds applied while decoding metadata, schema and filter
/// documents.
#[derive(Debug, Clone, Copy, PartialEq, Eq, Structural)]
pub struct MetadataWireLimits {
    wire: WireLimits,
    max_metadata_entries: usize,
    max_schema_fields: usize,
    max_key_bytes: usize,
}

/// The check of an observed `value` against `maximum`.
pub open spec fn spec_check(kind: MetadataWireLimitKind, value: usize, maximum: usize) -> Result<
    (),
    MetadataWireDecodeError,
> {
    if value > maximum {
        Err(MetadataWireDecodeError::LimitExceeded { kind, value, maximum })
    } else {
        Ok(())
    }
}

/// The check of a configured `value` against the strict `maximum`.
pub open spec fn spec_check_configured(kind: MetadataWireLimitKind, value: usize, maximum: usize) -> Result<
    (),
    MetadataWireDecodeError,
> {
    if value > maximum {
        Err(MetadataWireDecodeError::InvalidLimit { kind, value, maximum })
    } else {
        Ok(())
    }
}

impl MetadataWireLimits {
    /// The bounds as (JSON bytes, metadata entries, schema fields, key bytes).
    pub closed spec fn spec_bounds(self) -> (usize, usize, usize, usize) {
        (self.wire.spec_max_input_bytes(), self.max_metadata_entries, self.max_schema_fields, self.max_key_bytes)
    }

    /// Creates limits with the given JSON size and the default entry, field
    /// and key bounds.
    pub fn new(max_json_bytes: usize) -> (r: Self)
        ensures
            r.spec_bounds() == (
                max_json_bytes,
                DEFAULT_MAX_METADATA_ENTRIES,
                DEFAULT_MAX_SCHEMA_FIELDS,
                DEFAULT_MAX_KEY_BYTES,
            ),
    {
        MetadataWireLimits {
            wire: WireLimits::new(max_json_bytes),
            max_metadata_entries: DEFAULT_MAX_METADATA_ENTRIES,
            max_schema_fields: DEFAULT_MAX_SCHEMA_FIELDS,
            max_key_bytes: DEFAULT_MAX_KEY_BYTES,
        }
    }

    /// Sets the shared structural limits of the JSON document.
    pub fn with_wire(self, wire: WireLimits) -> (r: Self)
        ensures
            r.spec_wire() == wire,
            r.spec_bounds() == (
                wire.spec_max_input_bytes(),
                self.spec_bounds().1,
                self.spec_bounds().2,
                self.spec_bounds().3,
            ),
    {
        MetadataWireLimits { wire, ..self }
    }

    /// The shared structural limits of the JSON document.
    pub closed spec fn spec_wire(self) -> WireLimits {
        self.wire
    }

    /// Returns the shared structural limits of the JSON document.
    pub fn wire(&self) -> (r: WireLimits)
        ensures
            r == self.spec_wire(),
            r.spec_max_input_bytes() == self.spec_bounds().0,
    {
        self.wire
    }

    /// Sets the maximum number of metadata entries.
    pub fn with_max_metadata_entries(self, max_metadata_entries: usize) -> (r: Self)
        ensures
            r.spec_bounds() == (
                self.spec_bounds().0,
                max_metadata_entries,
                self.spec_bounds().2,
                self.spec_bounds().3,
            ),
    {
        MetadataWireLimits { max_metadata_entries, ..self }
    }

    /// Sets the maximum number of schema fields.
    pub fn with_max_schema_fields(self, max_schema_fields: usize) -> (r: Self)
        ensures
            r.spec_bounds() == (self.spec_bounds().0, self.spec_bounds().1, max_schema_fields, self.spec_bounds().3),
    {
        MetadataWireLimits { max_schema_fields, ..self }
    }

    /// Sets the maximum UTF-8 byte length of one key.
    pub fn with_max_key_bytes(self, max_key_bytes: usize) -> (r: Self)
        ensures
            r.spec_bounds() == (self.spec_bounds().0, self.spec_bounds().1, self.spec_bounds().2, max_key_bytes),
    {
        MetadataWireLimits { max_key_bytes, ..self }
    }

    /// Returns the maximum size of one JSON document in bytes.
    pub fn max_json_bytes(&self) -> (r: usize)
        ensures
            r == self.spec_bounds().0,
    {
        self.wire.max_input_bytes()
    }

    /// Returns the maximum number of metadata entries.
    pub fn max_metadata_entries(&self) -> (r: usize)
        ensures
            r == self.spec_bounds().1,
    {
        self.max_metadata_entries
    }

    /// Returns the maximum number of schema fields.
    pub fn max_schema_fields(&self) -> (r: usize)
        ensures
            r == self.spec_bounds().2,
    {
        self.max_schema_fields
    }

    /// Returns the maximum UTF-8 byte length of one key.
    pub fn max_key_bytes(&self) -> (r: usize)
        ensures
            r == self.spec_bounds().3,
    {
        self.max_key_bytes
    }

    /// Checks a decoded number of metadata entries.
    pub fn check_metadata_entries(&self, entries: usize) -> (r: Result<(), MetadataWireDecodeError>)
        ensures
            r == spec_check(MetadataWireLimitKind::Entries, entries, self.spec_bounds().1),
    {
        Self::check_limit(MetadataWireLimitKind::Entries, entries, self.max_metadata_entries)
    }

    /// Checks a decoded number of schema fields.
    pub fn check_schema_fields(&self, fields: usize) -> (r: Result<(), MetadataWireDecodeError>)
        ensures
            r == spec_check(MetadataWireLimitKind::Entries, fields, self.spec_bounds().2),
    {
        Self::check_limit(MetadataWireLimitKind::Entries, fields, self.max_schema_fields)
    }

    /// Checks the UTF-8 byte length of a decoded key.
    pub fn check_key_bytes(&self, key_bytes: usize) -> (r: Result<(), MetadataWireDecodeError>)
        ensures
            r == spec_check(MetadataWireLimitKind::KeyBytes, key_bytes, self.spec_bounds().3),
    {
        Self::check_limit(MetadataWireLimitKind::KeyBytes, key_bytes, self.max_key_bytes)
    }

    /// Checks the configured metadata bounds against the strict wire
    /// contract: entries first, then key bytes.
    pub fn validate_metadata_limits(&self) -> (r: Result<(), MetadataWireDecodeError>)
        ensures
            r == (match spec_check_configured(
                MetadataWireLimitKind::Entries,
                self.spec_bounds().1,
                STRICT_STRING_MAP_MAX_ENTRIES,
            ) {
                Err(e) => Err(e),
                Ok(()) => spec_check_configured(
                    MetadataWireLimitKind::KeyBytes,
                    self.spec_bounds().3,
                    STRICT_STRING_MAP_MAX_KEY_BYTES,
                ),
            }),
    {
        Self::validate_configured_limit(
            MetadataWireLimitKind::Entries,
            self.max_metadata_entries,
            STRICT_STRING_MAP_MAX_ENTRIES,
        )?;
        Self::validate_configured_limit(MetadataWireLimitKind::KeyBytes, self.max_key_bytes, STRICT_STRING_MAP_MAX_KEY_BYTES)
    }

    /// Checks the configured schema bounds against the strict wire contract:
    /// fields first, then key bytes.
    pub fn validate_schema_limits(&self) -> (r: Result<(), MetadataWireDecodeError>)
        ensures
            r == (match spec_check_configured(
                MetadataWireLimitKind::Entries,
                self.spec_bounds().2,
                STRICT_STRING_MAP_MAX_ENTRIES,
            ) {
                Err(e) => Err(e),
                Ok(()) => spec_check_configured(
                    MetadataWireLimitKind::KeyBytes,
                    self.spec_bounds().3,
                    STRICT_STRING_MAP_MAX_KEY_BYTES,
                ),
            }),
    {
        Self::validate_configured_limit(
            MetadataWireLimitKind::Entries,
            self.max_schema_fields,
            STRICT_STRING_MAP_MAX_ENTRIES,
        )?;
        Self::validate_configured_limit(MetadataWireLimitKind::KeyBytes, self.max_key_bytes, STRICT_STRING_MAP_MAX_KEY_BYTES)
    }

    /// Rejects an observed `value` above `maximum`.
    fn check_limit(kind: MetadataWireLimitKind, value: usize, maximum: usize) -> (r: Result<(), MetadataWireDecodeError>)
        ensures
            r == spec_check(kind, value, maximum),
    {
        if value > maximum {
            return Err(MetadataWireDecodeError::LimitExceeded { kind, value, maximum });
        }
        Ok(())
    }

    /// Rejects a configured `value` above the strict `maximum`.
    fn validate_configured_limit(kind: MetadataWireLimitKind, value: usize, maximum: usize) -> (r: Result<
        (),
        MetadataWireDecodeError,
    >)
        ensures
            r == spec_check_configured(kind, value, maximum),
    {
        if value > maximum {
            return Err(MetadataWireDecodeError::InvalidLimit { kind, value, maximum });
        }
        Ok(())
    }
}

impl Default for MetadataWireLimits {
    /// The default bounds.
    fn default() -> (r: Self)
        ensures
            r.spec_bounds() == (
                DEFAULT_MAX_JSON_BYTES,
                DEFAULT_MAX_METADATA_ENTRIES,
                DEFAULT_MAX_SCHEMA_FIELDS,
                DEFAULT_MAX_KEY_BYTES,
            ),
    {
        Self::new(DEFAULT_MAX_JSON_BYTES)
    }
}

} // verus!
