//! Trusted boundary to the `integer-sqrt` crate.

use vstd::prelude::*;

verus! {

/// Relies on `integer_sqrt::IntegerSquareRoot::integer_sqrt`, which
/// returns the floor of the square root of an unsigned integer and
/// never panics for an unsigned argument.
#[verifier::external_body]
pub fn integer_sqrt_u128(x: u128) -> (r: u128)
    ensures
        r * r <= x < (r + 1) * (r + 1),
{
    integer_sqrt::IntegerSquareRoot::integer_sqrt(&x)
}

} // verus!
