//! The arbitrary-precision decimal that indicator inputs are made of.
//!
//! Decimal values are only carried, compared for presence and copied by this
//! crate; their arithmetic stays with the `bigdecimal` crate.
use vstd::prelude::*;

use bigdecimal::BigDecimal;

verus! {

/// `bigdecimal::BigDecimal`, an opaque value to the verifier.
#[verifier::external_type_specification]
#[verifier::external_body]
pub struct ExBigDecimal(bigdecimal::BigDecimal);

/// Copies a decimal with `<BigDecimal as Clone>::clone`.
///
/// The contract claims that the copy equals `d`. `BigDecimal`
/// derives `Clone`, so the copy holds a clone of each field (the digits and
/// the scale) and denotes the same value.
#[verifier::external_body]
pub(crate) fn copy_decimal(d: &BigDecimal) -> (r: BigDecimal)
    ensures
        r == *d,
{
    d.clone()
}

} // verus!
