use vstd::prelude::*;
use vstd::string::StringExecFns;

use crate::decimal::{decimal, decimal_string};

verus! {

/// Default maximum size of one JSON document in bytes.
pub const DEFAULT_MAX_JSON_BYTES: usize = 1_048_576;

/// Default maximum number of metadata entries.
pub const DEFAULT_MAX_METADATA_ENTRIES: usize = 4_096;

/// Default maximum number of schema fields.
pub const DEFAULT_MAX_SCHEMA_FIELDS: usize = 4_096;

/// Default maximum UTF-8 byte length of one metadata key.
pub const DEFAULT_MAX_KEY_BYTES: usize = 256;

#[verifier::external_type_specification]
#[verifier::external_body]
pub struct ExJsonError(serde_json::Error);

/// The JSON error that `serde_json` builds from a custom message.
pub uninterp spec fn custom_json_error(message: Seq<char>) -> serde_json::Error;

/// Builds a `serde_json` error carrying `message`, through
/// `serde::de::Error::custom`; the error is the one named by
/// [`custom_json_error`] for that message.
#[verifier::external_body]
fn json_error(message: String) -> (e: serde_json::Error)
    ensures
        e == custom_json_error(message@),
{
    <serde_json::Error as serde::de::Error>::custom(message)
}

/// The message for a configured `value` above its hard `maximum`.
pub open spec fn limit_message(what: Seq<char>, value: usize, maximum: usize) -> Seq<char> {
    what + " limit "@ + decimal(value as nat) + " exceeds "@ + decimal(maximum as nat)
}

/// The validation of three metadata bounds against their hard maximums, in
/// the order entries, schema fields, key bytes.
pub open spec fn spec_validate_bounds(entries: usize, fields: usize, key_bytes: usize) -> Result<
    (),
    serde_json::Error,
> {
    if entries > DEFAULT_MAX_METADATA_ENTRIES {
        Err(custom_json_error(limit_message("metadata entries"@, entries, DEFAULT_MAX_METADATA_ENTRIES)))
    } else if fields > DEFAULT_MAX_SCHEMA_FIELDS {
        Err(custom_json_error(limit_message("schema fields"@, fields, DEFAULT_MAX_SCHEMA_FIELDS)))
    } else if key_bytes > DEFAULT_MAX_KEY_BYTES {
        Err(custom_json_error(limit_message("metadata key"@, key_bytes, DEFAULT_MAX_KEY_BYTES)))
    } else {
        Ok(())
    }
}

/// Builds the message for a configured `value` above its hard `maximum`.
fn exceeded(what: &str, value: usize, maximum: usize) -> (r: serde_json::Error)
    ensures
        r == custom_json_error(limit_message(what@, value, maximum)),
{
    let message = what.to_owned().concat(" limit").concat(" ").concat(decimal_string(value).as_str()).concat(
        " exceeds ",
    ).concat(decimal_string(maximum).as_str());
    proof {
        reveal_strlit(" limit");
        reveal_strlit(" ");
        reveal_strlit(" limit ");
        assert(" limit"@ + " "@ =~= " limit "@);
        assert(message@ =~= limit_message(what@, value, maximum));
    }
    json_error(message)
}

/// Resource bounds for metadata and schema documents.
#[derive(Debug, Clone, Copy, PartialEq, Eq, Structural)]
pub struct MetadataLimits {
    max_metadata_entries: usize,
    max_schema_fields: usize,
    max_key_bytes: usize,
}

impl MetadataLimits {
    /// The bounds as (metadata entries, schema fields, key bytes).
    pub closed spec fn spec_bounds(self) -> (usize, usize, usize) {
        (self.max_metadata_entries, self.max_schema_fields, self.max_key_bytes)
    }

    /// Creates a builder starting from the default bounds.
    pub fn builder() -> (r: MetadataLimitsBuilder)
        ensures
            r.spec_bounds() == (DEFAULT_MAX_METADATA_ENTRIES, DEFAULT_MAX_SCHEMA_FIELDS, DEFAULT_MAX_KEY_BYTES),
    {
        MetadataLimitsBuilder::new()
    }

    /// Returns the maximum number of metadata entries.
    pub fn max_metadata_entries(&self) -> (r: usize)
        ensures
            r == self.spec_bounds().0,
    {
        self.max_metadata_entries
    }

    /// Returns the maximum number of schema fields.
    pub fn max_schema_fields(&self) -> (r: usize)
        ensures
            r == self.spec_bounds().1,
    {
        self.max_schema_fields
    }

    /// Returns the maximum UTF-8 byte length of one key.
    pub fn max_key_bytes(&self) -> (r: usize)
        ensures
            r == self.spec_bounds().2,
    {
        self.max_key_bytes
    }

    /// Checks every bound against its hard maximum, reporting the first one
    /// that is larger.
    pub fn validate(&self) -> (r: Result<(), serde_json::Error>)
        ensures
            r == spec_validate_bounds(self.spec_bounds().0, self.spec_bounds().1, self.spec_bounds().2),
    {
        proof {
            reveal_strlit("metadata entries");
            reveal_strlit("schema fields");
            reveal_strlit("metadata key");
        }
        if self.max_metadata_entries > DEFAULT_MAX_METADATA_ENTRIES {
            return Err(exceeded("metadata entries", self.max_metadata_entries, DEFAULT_MAX_METADATA_ENTRIES));
        }
        if self.max_schema_fields > DEFAULT_MAX_SCHEMA_FIELDS {
            return Err(exceeded("schema fields", self.max_schema_fields, DEFAULT_MAX_SCHEMA_FIELDS));
        }
        if self.max_key_bytes > DEFAULT_MAX_KEY_BYTES {
            return Err(exceeded("metadata key", self.max_key_bytes, DEFAULT_MAX_KEY_BYTES));
        }
        Ok(())
    }
}

impl Default for MetadataLimits {
    /// The default bounds.
    fn default() -> (r: Self)
        ensures
            r.spec_bounds() == (DEFAULT_MAX_METADATA_ENTRIES, DEFAULT_MAX_SCHEMA_FIELDS, DEFAULT_MAX_KEY_BYTES),
    {
        MetadataLimits {
            max_metadata_entries: DEFAULT_MAX_METADATA_ENTRIES,
            max_schema_fields: DEFAULT_MAX_SCHEMA_FIELDS,
            max_key_bytes: DEFAULT_MAX_KEY_BYTES,
        }
    }
}

/// Builder for [`MetadataLimits`].
#[derive(Debug, Clone, Copy, PartialEq, Eq, Structural)]
pub struct MetadataLimitsBuilder {
    max_metadata_entries: usize,
    max_schema_fields: usize,
    max_key_bytes: usize,
}

impl MetadataLimitsBuilder {
    /// The requested bounds as (metadata entries, schema fields, key bytes).
    pub closed spec fn spec_bounds(self) -> (usize, usize, usize) {
        (self.max_metadata_entries, self.max_schema_fields, self.max_key_bytes)
    }

    /// Creates a builder with the default bounds.
    pub(crate) fn new() -> (r: Self)
        ensures
            r.spec_bounds() == (DEFAULT_MAX_METADATA_ENTRIES, DEFAULT_MAX_SCHEMA_FIELDS, DEFAULT_MAX_KEY_BYTES),
    {
        MetadataLimitsBuilder {
            max_metadata_entries: DEFAULT_MAX_METADATA_ENTRIES,
            max_schema_fields: DEFAULT_MAX_SCHEMA_FIELDS,
            max_key_bytes: DEFAULT_MAX_KEY_BYTES,
        }
    }

    /// Sets the maximum number of metadata entries.
    pub fn max_metadata_entries(self, maximum: usize) -> (r: Self)
        ensures
            r.spec_bounds() == (maximum, self.spec_bounds().1, self.spec_bounds().2),
    {
        MetadataLimitsBuilder { max_metadata_entries: maximum, ..self }
    }

    /// Sets the maximum number of schema fields.
    pub fn max_schema_fields(self, maximum: usize) -> (r: Self)
        ensures
            r.spec_bounds() == (self.spec_bounds().0, maximum, self.spec_bounds().2),
    {
        MetadataLimitsBuilder { max_schema_fields: maximum, ..self }
    }

    /// Sets the maximum UTF-8 byte length of one key.
    pub fn max_key_bytes(self, maximum: usize) -> (r: Self)
        ensures
            r.spec_bounds() == (self.spec_bounds().0, self.spec_bounds().1, maximum),
    {
        MetadataLimitsBuilder { max_key_bytes: maximum, ..self }
    }

    /// Builds the limits after checking every bound against its hard
    /// maximum.
    pub fn build(self) -> (r: Result<MetadataLimits, serde_json::Error>)
        ensures
            ({
                let (m, f, k) = self.spec_bounds();
                match spec_validate_bounds(m, f, k) {
                    Ok(()) => r matches Ok(limits) && limits.spec_bounds() == self.spec_bounds(),
                    Err(e) => r matches Err(x) && x == e,
                }
            }),
    {
        let limits = MetadataLimits {
            max_metadata_entries: self.max_metadata_entries,
            max_schema_fields: self.max_schema_fields,
            max_key_bytes: self.max_key_bytes,
        };
        match limits.validate() {
            Ok(()) => Ok(limits),
            Err(e) => Err(e),
        }
    }
}

impl Default for MetadataLimitsBuilder {
    /// A builder with the default bounds.
    fn default() -> (r: Self)
        ensures
            r.spec_bounds() == (DEFAULT_MAX_METADATA_ENTRIES, DEFAULT_MAX_SCHEMA_FIELDS, DEFAULT_MAX_KEY_BYTES),
    {
        Self::new()
    }
}

} // verus!
