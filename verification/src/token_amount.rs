//! Whole token quantities.
//!
//! A [`TokenAmount`] is a non-negative 64-bit count of tokens. It mixes
//! with [`Decimal`] only through explicit scaled conversions, never by
//! silent coercion; the scaled products and quotients run through
//! 256-bit intermediates.

use vstd::prelude::*;
use vstd::arithmetic::mul::*;

use crate::decimal::{Decimal, DENOMINATOR};
use crate::errors::ErrorCode;
use crate::wide;

verus! {

/// A non-negative whole number of tokens.
#[derive(Debug, Clone, Copy, PartialEq, Eq, Structural)]
pub struct TokenAmount {
    pub v: u64,
}

impl Default for TokenAmount {
    /// The zero amount.
    fn default() -> (r: Self)
        ensures
            r.v == 0,
    {
        TokenAmount { v: 0 }
    }
}

impl TokenAmount {
    /// Wraps a raw token count.
    pub fn new(amount: u64) -> (r: Self)
        ensures
            r.v == amount,
    {
        TokenAmount { v: amount }
    }

    /// Whether this is the zero amount.
    pub fn is_zero(&self) -> (r: bool)
        ensures
            r <==> self.v == 0,
    {
        self.v == 0
    }

    /// Exact sum; overflow is an error.
    pub fn add(self, other: TokenAmount) -> (r: Result<TokenAmount, ErrorCode>)
        ensures
            r is Ok <==> self.v + other.v <= u64::MAX,
            r matches Ok(c) ==> c.v == self.v + other.v,
            r matches Err(e) ==> e == ErrorCode::ArithmeticOverflow,
    {
        if self.v <= u64::MAX - other.v {
            Ok(TokenAmount::new(self.v + other.v))
        } else {
            Err(ErrorCode::ArithmeticOverflow)
        }
    }

    /// Exact difference; wraparound below zero is an error.
    pub fn sub(self, other: TokenAmount) -> (r: Result<TokenAmount, ErrorCode>)
        ensures
            r is Ok <==> self.v >= other.v,
            r matches Ok(c) ==> c.v == self.v - other.v,
            r matches Err(e) ==> e == ErrorCode::ArithmeticOverflow,
    {
        if self.v >= other.v {
            Ok(TokenAmount::new(self.v - other.v))
        } else {
            Err(ErrorCode::ArithmeticOverflow)
        }
    }

    /// Product with a scaled value, kept in scaled form. The amount's
    /// weight exactly absorbs the scale, so no rescaling division is
    /// needed and no precision is lost.
    pub fn big_mul(self, other: Decimal) -> (r: Result<Decimal, ErrorCode>)
        ensures
            r is Ok <==> self.v * other.v <= u128::MAX,
            r matches Ok(c) ==> c.v == self.v * other.v,
            r matches Err(e) ==> e == ErrorCode::ArithmeticOverflow,
    {
        match (self.v as u128).checked_mul(other.v) {
            Some(p) => Ok(Decimal::new(p)),
            None => Err(ErrorCode::ArithmeticOverflow),
        }
    }

    /// Quotient of a whole amount by a scaled value, in scaled form,
    /// rounded down; runs through a 256-bit intermediate.
    pub fn big_div(self, other: Decimal) -> (r: Result<Decimal, ErrorCode>)
        ensures
            other.v == 0 ==> r == Err::<Decimal, ErrorCode>(ErrorCode::DivisionByZero),
            other.v > 0 ==> ((r is Ok) <==> self.v * (DENOMINATOR * DENOMINATOR)
                / other.v as int <= u128::MAX),
            r matches Ok(c) ==> other.v > 0 && c.v == self.v * (DENOMINATOR * DENOMINATOR)
                / other.v as int,
            other.v > 0 && r is Err ==> r == Err::<Decimal, ErrorCode>(
                ErrorCode::ArithmeticOverflow,
            ),
    {
        match wide::mul_div_floor(self.v as u128, DENOMINATOR * DENOMINATOR, other.v) {
            Ok(q) => Ok(Decimal::new(q)),
            Err(e) => Err(e),
        }
    }

    /// Quotient of a whole amount by a scaled value, in scaled form,
    /// rounded up; runs through a 256-bit intermediate.
    pub fn big_div_up(self, other: Decimal) -> (r: Result<Decimal, ErrorCode>)
        ensures
            other.v == 0 ==> r == Err::<Decimal, ErrorCode>(ErrorCode::DivisionByZero),
            other.v > 0 ==> ((r is Ok) <==> (self.v * (DENOMINATOR * DENOMINATOR) + other.v - 1)
                / other.v as int <= u128::MAX),
            r matches Ok(c) ==> other.v > 0 && c.v == (self.v * (DENOMINATOR * DENOMINATOR)
                + other.v - 1) / other.v as int,
            other.v > 0 && r is Err ==> r == Err::<Decimal, ErrorCode>(
                ErrorCode::ArithmeticOverflow,
            ),
    {
        if other.v == 0 {
            return Err(ErrorCode::DivisionByZero);
        }
        match wide::mul_add_div_floor(self.v as u128, DENOMINATOR * DENOMINATOR, other.v - 1,
            other.v) {
            Ok(q) => Ok(Decimal::new(q)),
            Err(e) => Err(e),
        }
    }

    /// The fraction this amount makes of a total, as a scaled value
    /// rounded down; a zero total is an error.
    pub fn percent(&self, other: Self) -> (r: Result<Decimal, ErrorCode>)
        ensures
            r is Ok <==> other.v > 0,
            r matches Ok(c) ==> c.v == self.v * DENOMINATOR / other.v as int,
            r matches Err(e) ==> e == ErrorCode::DivisionByZero,
    {
        if other.v == 0 {
            Err(ErrorCode::DivisionByZero)
        } else {
            proof {
                lemma_mul_upper_bound(self.v as int, u64::MAX as int, DENOMINATOR as int,
                    DENOMINATOR as int);
            }
            Ok(Decimal::new((self.v as u128) * DENOMINATOR / (other.v as u128)))
        }
    }
}

} // verus!
