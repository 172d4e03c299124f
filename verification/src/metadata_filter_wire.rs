use vstd::prelude::*;
use vstd::string::StringExecFns;

use crate::filter_expression::{
    lemma_same_shape_behaves, lemma_validate_limits_exact, lemma_validate_monotone, lemma_wire_validate_matches, shape,
    spec_validate, FilterExpression,
};
use crate::decimal::{decimal, decimal_string};
use crate::filter_limits::FilterLimits;
use crate::filter_match_options::FilterMatchOptions;
use crate::filter_wire::{
    fault_error, lemma_read_conv, lemma_wire_validate_ok, wire_conv, wire_read, wire_validate, FilterExpressionWireV1,
};
use crate::metadata::Metadata;
use crate::metadata_error::MetadataError;
use crate::metadata_filter::MetadataFilter;

verus! {

/// The only version of the filter wire format.
pub const METADATA_FILTER_WIRE_VERSION_V1: u8 = 1;

/// The version 1 wire envelope of a filter.
#[derive(Debug, PartialEq)]
pub struct MetadataFilterWireV1 {
    /// The wire format version.
    pub version: u8,
    /// The filter expression.
    pub expression: FilterExpressionWireV1,
    /// The match options.
    pub options: FilterMatchOptions,
}

/// The message reported for an unsupported wire version.
pub open spec fn version_message(version: u8) -> Seq<char> {
    "unsupported MetadataFilter wire format version "@ + decimal(version as nat) + "; expected 1"@
}

/// `r` is what decoding the envelope `w` under `limits` gives: the version
/// is checked first, then the limits on the wire tree, then its conversion,
/// then the hard maximums on the converted expression.
pub open spec fn decodes_to(w: MetadataFilterWireV1, limits: FilterLimits, r: Result<MetadataFilter, MetadataError>) -> bool {
    if w.version != METADATA_FILTER_WIRE_VERSION_V1 {
        r matches Err(MetadataError::InvalidFilterExpression { message }) && message@ == version_message(w.version)
    } else if wire_validate(w.expression, limits) is Err {
        r == Err::<MetadataFilter, MetadataError>(wire_validate(w.expression, limits)->Err_0)
    } else {
        match wire_conv(w.expression) {
            Err(f) => r matches Err(e) && fault_error(f, e),
            Ok(s) => exists|e: FilterExpression|
                shape(e) == s && match spec_validate(e, FilterLimits::hard_max()) {
                    Ok(()) => r matches Ok(g) && shape(g.spec_expression()) == s && g.spec_options() == w.options
                        && g.spec_limits() == limits && g.wf(),
                    Err(err) => r == Err::<MetadataFilter, MetadataError>(err),
                },
        }
    }
}

/// `w` is the envelope written for `f`.
pub open spec fn encodes(w: MetadataFilterWireV1, f: MetadataFilter) -> bool {
    &&& w.version == METADATA_FILTER_WIRE_VERSION_V1
    &&& wire_read(w.expression) == Some(shape(f.spec_expression()))
    &&& w.options == f.spec_options()
}

impl MetadataFilterWireV1 {
    /// Decodes the envelope into a filter validated against
    /// `receiver_limits`.
    ///
    /// Fails on an unsupported version, on the first limit violation of the
    /// wire tree, on a tree that does not convert, and on a converted
    /// expression beyond the hard maximums.
    pub fn into_filter(&self, receiver_limits: FilterLimits) -> (r: Result<MetadataFilter, MetadataError>)
        ensures
            decodes_to(*self, receiver_limits, r),
    {
        if self.version != METADATA_FILTER_WIRE_VERSION_V1 {
            let message = "unsupported MetadataFilter wire format version ".to_owned().concat(
                decimal_string(self.version as usize).as_str(),
            ).concat("; expected 1");
            return Err(MetadataError::InvalidFilterExpression { message });
        }
        match self.expression.validate_limits(receiver_limits) {
            Ok(()) => {},
            Err(error) => {
                return Err(error);
            },
        }
        proof {
            use_type_invariant(&receiver_limits);
            lemma_wire_validate_ok(self.expression, receiver_limits, 1, 0);
        }
        let expression = self.expression.into_expression()?;
        proof {
            lemma_validate_limits_exact(expression, receiver_limits);
        }
        Ok(MetadataFilter::new(expression, self.options, receiver_limits))
    }

    /// Writes the envelope of a filter.
    pub fn from_filter(f: &MetadataFilter) -> (w: MetadataFilterWireV1)
        ensures
            encodes(w, *f),
    {
        MetadataFilterWireV1 {
            version: METADATA_FILTER_WIRE_VERSION_V1,
            expression: FilterExpressionWireV1::from_expression(f.expression()),
            options: f.options(),
        }
    }
}

/// Writing a filter and decoding the envelope under the filter's own limits
/// gives back a filter of the same shape, options and limits, which matches
/// exactly the same metadata.
pub proof fn lemma_filter_wire_round_trip(f: MetadataFilter, w: MetadataFilterWireV1, r: Result<MetadataFilter, MetadataError>)
    requires
        f.wf(),
        encodes(w, f),
        decodes_to(w, f.spec_limits(), r),
    ensures
        r matches Ok(g) && shape(g.spec_expression()) == shape(f.spec_expression()) && g.spec_options()
            == f.spec_options() && g.spec_limits() == f.spec_limits(),
        r matches Ok(g) ==> forall|m: Metadata| #[trigger] g.spec_matches(m) == f.spec_matches(m),
{
    let e = f.spec_expression();
    let limits = f.spec_limits();
    lemma_wire_validate_matches(w.expression, e, limits, 1, 0);
    lemma_read_conv(w.expression);
    FilterLimits::lemma_hard_max();
    lemma_validate_monotone(e, limits, FilterLimits::hard_max());
    let x = choose|x: FilterExpression|
        shape(x) == shape(e) && match spec_validate(x, FilterLimits::hard_max()) {
            Ok(()) => r matches Ok(g) && shape(g.spec_expression()) == shape(e) && g.spec_options() == w.options
                && g.spec_limits() == limits && g.wf(),
            Err(err) => r == Err::<MetadataFilter, MetadataError>(err),
        };
    lemma_same_shape_behaves(x, e);
    if r is Ok {
        let g = r->Ok_0;
        lemma_same_shape_behaves(g.spec_expression(), e);
    }
}

} // verus!
