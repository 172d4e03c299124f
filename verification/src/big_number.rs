use vstd::prelude::*;

use bigdecimal::num_bigint::{BigInt, Sign};
use bigdecimal::BigDecimal;

use crate::value::{decimal_order, digits_parts, BigDigits, ValueOrdering};

verus! {

/// Orders two decimals, each an integer given by its digits and a scale, by
/// `Ord::cmp` of `bigdecimal::BigDecimal` on `BigDecimal::new` of
/// `BigInt::from_bytes_le` of the digits and the scale. That ordering is the
/// one of the exact mathematical values, whatever the two scales.
#[verifier::external_body]
pub(crate) fn compare_decimals(a: &BigDigits, a_scale: i64, b: &BigDigits, b_scale: i64) -> (r: ValueOrdering)
    ensures
        r == decimal_order(digits_parts(*a, a_scale), digits_parts(*b, b_scale)),
{
    let x = BigDecimal::new(BigInt::from_bytes_le(if a.negative { Sign::Minus } else { Sign::Plus }, &a.magnitude), a_scale);
    let y = BigDecimal::new(BigInt::from_bytes_le(if b.negative { Sign::Minus } else { Sign::Plus }, &b.magnitude), b_scale);
    match x.cmp(&y) {
        std::cmp::Ordering::Less => ValueOrdering::Less,
        std::cmp::Ordering::Equal => ValueOrdering::Equal,
        std::cmp::Ordering::Greater => ValueOrdering::Greater,
    }
}

} // verus!
