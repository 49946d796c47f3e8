//! Fixed-point scalar arithmetic with twelve implied decimal digits.
//!
//! A [`Decimal`] holds an unsigned scaled magnitude: the number it
//! stands for is `v / 10^12`. Operations are exact up to the stated
//! rounding (floor unless an `_up` variant is used, which rounds the
//! rescaling division upward) and report overflow or a zero divisor
//! instead of wrapping or aborting. Products of two full-width values
//! go through 256-bit intermediates (the `big_` variants).

use vstd::prelude::*;
use vstd::arithmetic::div_mod::*;
use vstd::arithmetic::mul::*;

use crate::errors::ErrorCode;
use crate::token_amount::TokenAmount;
use crate::wide;

verus! {

/// Number of implied decimal digits in a scaled value.
pub const SCALE: u8 = 12;

/// The scale factor: `10^SCALE`.
pub const DENOMINATOR: u128 = 1_000_000_000_000;

/// `10^e`, the factor between two scales `e` digits apart.
pub open spec fn ten_pow(e: nat) -> int
    decreases e,
{
    if e == 0 {
        1
    } else {
        10 * ten_pow((e - 1) as nat)
    }
}

proof fn lemma_ten_pow_increases(e1: nat, e2: nat)
    requires
        e1 <= e2,
    ensures
        1 <= ten_pow(e1) <= ten_pow(e2),
    decreases e2,
{
    if e2 > 0 {
        if e1 == e2 {
            lemma_ten_pow_increases(0, (e2 - 1) as nat);
        } else {
            lemma_ten_pow_increases(e1, (e2 - 1) as nat);
        }
    }
}

/// `10^k` for exponents small enough that the result fits 128 bits.
fn pow10(k: u8) -> (r: u128)
    requires
        k <= 38,
    ensures
        r == ten_pow(k as nat),
{
    proof {
        reveal_with_fuel(ten_pow, 40);
        assert(ten_pow(38) == 100_000_000_000_000_000_000_000_000_000_000_000_000int);
    }
    let mut p: u128 = 1;
    let mut j: u8 = 0;
    while j < k
        invariant
            j <= k <= 38,
            p == ten_pow(j as nat),
            ten_pow(38) == 100_000_000_000_000_000_000_000_000_000_000_000_000int,
        decreases k - j,
    {
        proof {
            lemma_ten_pow_increases((j + 1) as nat, 38);
        }
        p = p * 10;
        j = j + 1;
    }
    p
}

/// A non-negative fixed-point scalar, scaled by [`DENOMINATOR`].
#[derive(Debug, Clone, Copy, PartialEq, Eq, Structural)]
pub struct Decimal {
    pub v: u128,
}

impl Default for Decimal {
    /// The zero scalar.
    fn default() -> (r: Self)
        ensures
            r.v == 0,
    {
        Decimal { v: 0 }
    }
}

impl PartialOrd for Decimal {
    fn partial_cmp(&self, other: &Self) -> (r: Option<core::cmp::Ordering>) {
        if self.v < other.v {
            Some(core::cmp::Ordering::Less)
        } else if self.v == other.v {
            Some(core::cmp::Ordering::Equal)
        } else {
            Some(core::cmp::Ordering::Greater)
        }
    }
}

impl vstd::std_specs::cmp::PartialOrdSpecImpl for Decimal {
    open spec fn obeys_partial_cmp_spec() -> bool {
        true
    }

    open spec fn partial_cmp_spec(&self, other: &Self) -> Option<core::cmp::Ordering> {
        if self.v < other.v {
            Some(core::cmp::Ordering::Less)
        } else if self.v == other.v {
            Some(core::cmp::Ordering::Equal)
        } else {
            Some(core::cmp::Ordering::Greater)
        }
    }
}

impl Decimal {
    /// Wraps an already-scaled magnitude.
    pub fn new(value: u128) -> (r: Decimal)
        ensures
            r.v == value,
    {
        Decimal { v: value }
    }

    /// The scalar standing for a whole number of units.
    pub fn from_integer(integer: u128) -> (r: Decimal)
        requires
            integer * DENOMINATOR <= u128::MAX,
        ensures
            r.v == integer * DENOMINATOR,
    {
        Decimal::new(integer * DENOMINATOR)
    }

    /// The multiplicative identity.
    pub fn one() -> (r: Decimal)
        ensures
            r.v == DENOMINATOR,
    {
        Decimal::new(DENOMINATOR)
    }

    /// Rescales a value carrying `scale` implied decimal digits to this
    /// type's own scale, widening exactly or narrowing by a flooring
    /// division.
    pub fn from_decimal(val: u128, scale: u8) -> (r: Decimal)
        requires
            scale < SCALE ==> val * ten_pow((SCALE - scale) as nat) <= u128::MAX,
            scale > SCALE ==> scale - SCALE <= 38,
        ensures
            scale < SCALE ==> r.v == val * ten_pow((SCALE - scale) as nat),
            scale >= SCALE ==> r.v == val as int / ten_pow((scale - SCALE) as nat),
    {
        if SCALE > scale {
            let f = pow10(SCALE - scale);
            Decimal::new(val * f)
        } else {
            let f = pow10(scale - SCALE);
            proof {
                lemma_ten_pow_increases(0, (scale - SCALE) as nat);
            }
            Decimal::new(val / f)
        }
    }

    /// Whether this is the zero scalar.
    pub fn is_zero(self) -> (r: bool)
        ensures
            r <==> self.v == 0,
    {
        self.v == 0
    }

    /// The scalar standing for a whole token amount.
    pub fn from_token_amount(amount: TokenAmount) -> (r: Decimal)
        ensures
            r.v == amount.v * DENOMINATOR,
    {
        proof {
            lemma_mul_upper_bound(amount.v as int, u64::MAX as int, DENOMINATOR as int,
                DENOMINATOR as int);
        }
        Decimal::from_integer(amount.v as u128)
    }

    /// Exact sum; overflow is an error.
    pub fn add(self, other: Decimal) -> (r: Result<Decimal, ErrorCode>)
        ensures
            r is Ok <==> self.v + other.v <= u128::MAX,
            r matches Ok(c) ==> c.v == self.v + other.v,
            r matches Err(e) ==> e == ErrorCode::ArithmeticOverflow,
    {
        if self.v <= u128::MAX - other.v {
            Ok(Decimal::new(self.v + other.v))
        } else {
            Err(ErrorCode::ArithmeticOverflow)
        }
    }

    /// Exact difference; wraparound below zero is an error.
    pub fn sub(self, other: Decimal) -> (r: Result<Decimal, ErrorCode>)
        ensures
            r is Ok <==> self.v >= other.v,
            r matches Ok(c) ==> c.v == self.v - other.v,
            r matches Err(e) ==> e == ErrorCode::ArithmeticOverflow,
    {
        if self.v >= other.v {
            Ok(Decimal::new(self.v - other.v))
        } else {
            Err(ErrorCode::ArithmeticOverflow)
        }
    }

    /// Scaled product, rounded down; the raw 128-bit product must fit.
    pub fn mul(self, other: Decimal) -> (r: Result<Decimal, ErrorCode>)
        ensures
            r is Ok <==> self.v * other.v <= u128::MAX,
            r matches Ok(c) ==> c.v == self.v * other.v / DENOMINATOR as int,
            r matches Err(e) ==> e == ErrorCode::ArithmeticOverflow,
    {
        match self.v.checked_mul(other.v) {
            Some(p) => Ok(Decimal::new(p / DENOMINATOR)),
            None => Err(ErrorCode::ArithmeticOverflow),
        }
    }

    /// Scaled quotient, rounded down; the widened numerator must fit.
    pub fn div(self, other: Decimal) -> (r: Result<Decimal, ErrorCode>)
        ensures
            r is Ok <==> self.v * DENOMINATOR <= u128::MAX && other.v > 0,
            r matches Ok(c) ==> c.v == self.v * DENOMINATOR / other.v as int,
            self.v * DENOMINATOR > u128::MAX ==> r == Err::<Decimal, ErrorCode>(
                ErrorCode::ArithmeticOverflow,
            ),
            self.v * DENOMINATOR <= u128::MAX && other.v == 0 ==> r == Err::<Decimal, ErrorCode>(
                ErrorCode::DivisionByZero,
            ),
    {
        match self.v.checked_mul(DENOMINATOR) {
            Some(p) => {
                if other.v == 0 {
                    Err(ErrorCode::DivisionByZero)
                } else {
                    Ok(Decimal::new(p / other.v))
                }
            },
            None => Err(ErrorCode::ArithmeticOverflow),
        }
    }

    /// Scaled quotient, rounded up; the widened numerator plus the
    /// rounding term must fit.
    pub fn div_up(self, other: Decimal) -> (r: Result<Decimal, ErrorCode>)
        ensures
            r is Ok <==> self.v * DENOMINATOR + other.v - 1 <= u128::MAX && other.v > 0,
            r matches Ok(c) ==> c.v == (self.v * DENOMINATOR + other.v - 1) as int / other.v as int,
            self.v * DENOMINATOR > u128::MAX ==> r == Err::<Decimal, ErrorCode>(
                ErrorCode::ArithmeticOverflow,
            ),
            self.v * DENOMINATOR <= u128::MAX && other.v == 0 ==> r == Err::<Decimal, ErrorCode>(
                ErrorCode::DivisionByZero,
            ),
            self.v * DENOMINATOR <= u128::MAX && other.v > 0 && self.v * DENOMINATOR + other.v - 1
                > u128::MAX ==> r == Err::<Decimal, ErrorCode>(ErrorCode::ArithmeticOverflow),
    {
        match self.v.checked_mul(DENOMINATOR) {
            Some(p) => {
                if other.v == 0 {
                    Err(ErrorCode::DivisionByZero)
                } else if p <= u128::MAX - (other.v - 1) {
                    Ok(Decimal::new((p + (other.v - 1)) / other.v))
                } else {
                    Err(ErrorCode::ArithmeticOverflow)
                }
            },
            None => Err(ErrorCode::ArithmeticOverflow),
        }
    }

    /// Floor square root of the unscaled value, rescaled: the largest
    /// `r` with `r.v * r.v <= self.v * DENOMINATOR`.
    pub fn sqrt(self) -> (r: Result<Decimal, ErrorCode>)
        ensures
            r is Ok <==> self.v * DENOMINATOR <= u128::MAX,
            r matches Ok(c) ==> c.v * c.v <= self.v * DENOMINATOR < (c.v + 1) * (c.v + 1),
            r matches Err(e) ==> e == ErrorCode::ArithmeticOverflow,
    {
        match self.v.checked_mul(DENOMINATOR) {
            Some(p) => Ok(Decimal::new(crate::isqrt::integer_sqrt_u128(p))),
            None => Err(ErrorCode::ArithmeticOverflow),
        }
    }

    /// Truncates to a whole token amount, rounding down.
    pub fn to_token_floor(self) -> (r: Result<TokenAmount, ErrorCode>)
        ensures
            r is Ok <==> self.v / DENOMINATOR <= u64::MAX,
            r matches Ok(t) ==> t.v == self.v / DENOMINATOR,
            r matches Err(e) ==> e == ErrorCode::ArithmeticOverflow,
    {
        let q = self.v / DENOMINATOR;
        if q <= u64::MAX as u128 {
            Ok(TokenAmount::new(q as u64))
        } else {
            Err(ErrorCode::ArithmeticOverflow)
        }
    }

    /// Truncates to a whole token amount, rounding up.
    pub fn to_token_ceil(self) -> (r: Result<TokenAmount, ErrorCode>)
        ensures
            r is Ok <==> self.v + DENOMINATOR - 1 <= u128::MAX && (self.v + DENOMINATOR - 1)
                / DENOMINATOR as int <= u64::MAX,
            r matches Ok(t) ==> t.v == (self.v + DENOMINATOR - 1) / DENOMINATOR as int,
            r matches Err(e) ==> e == ErrorCode::ArithmeticOverflow,
    {
        if self.v <= u128::MAX - (DENOMINATOR - 1) {
            let q = (self.v + (DENOMINATOR - 1)) / DENOMINATOR;
            if q <= u64::MAX as u128 {
                Ok(TokenAmount::new(q as u64))
            } else {
                Err(ErrorCode::ArithmeticOverflow)
            }
        } else {
            Err(ErrorCode::ArithmeticOverflow)
        }
    }

    /// Scaled product through a 256-bit intermediate, rounded down;
    /// only the rescaled result must fit.
    pub fn big_mul(self, other: Decimal) -> (r: Result<Decimal, ErrorCode>)
        ensures
            r is Ok <==> self.v * other.v / DENOMINATOR as int <= u128::MAX,
            r matches Ok(c) ==> c.v == self.v * other.v / DENOMINATOR as int,
            r matches Err(e) ==> e == ErrorCode::ArithmeticOverflow,
    {
        match wide::mul_div_floor(self.v, other.v, DENOMINATOR) {
            Ok(q) => Ok(Decimal::new(q)),
            Err(e) => Err(e),
        }
    }

    /// Scaled product through a 256-bit intermediate, rounded up.
    pub fn big_mul_up(self, other: Decimal) -> (r: Result<Decimal, ErrorCode>)
        ensures
            r is Ok <==> (self.v * other.v + DENOMINATOR - 1) / DENOMINATOR as int <= u128::MAX,
            r matches Ok(c) ==> c.v == (self.v * other.v + DENOMINATOR - 1) / DENOMINATOR as int,
            r matches Err(e) ==> e == ErrorCode::ArithmeticOverflow,
    {
        match wide::mul_add_div_floor(self.v, other.v, DENOMINATOR - 1, DENOMINATOR) {
            Ok(q) => Ok(Decimal::new(q)),
            Err(e) => Err(e),
        }
    }

    /// Scaled quotient through a 256-bit intermediate, rounded down.
    pub fn big_div(self, other: Decimal) -> (r: Result<Decimal, ErrorCode>)
        ensures
            other.v == 0 ==> r == Err::<Decimal, ErrorCode>(ErrorCode::DivisionByZero),
            other.v > 0 ==> ((r is Ok) <==> self.v * DENOMINATOR / other.v as int <= u128::MAX),
            r matches Ok(c) ==> other.v > 0 && c.v == self.v * DENOMINATOR / other.v as int,
            other.v > 0 && r is Err ==> r == Err::<Decimal, ErrorCode>(
                ErrorCode::ArithmeticOverflow,
            ),
    {
        match wide::mul_div_floor(self.v, DENOMINATOR, other.v) {
            Ok(q) => Ok(Decimal::new(q)),
            Err(e) => Err(e),
        }
    }

    /// Scaled quotient through a 256-bit intermediate, rounded up.
    pub fn big_div_up(self, other: Decimal) -> (r: Result<Decimal, ErrorCode>)
        ensures
            other.v == 0 ==> r == Err::<Decimal, ErrorCode>(ErrorCode::DivisionByZero),
            other.v > 0 ==> ((r is Ok) <==> (self.v * DENOMINATOR + other.v - 1) / other.v as int
                <= u128::MAX),
            r matches Ok(c) ==> other.v > 0 && c.v == (self.v * DENOMINATOR + other.v - 1)
                / other.v as int,
            other.v > 0 && r is Err ==> r == Err::<Decimal, ErrorCode>(
                ErrorCode::ArithmeticOverflow,
            ),
    {
        if other.v == 0 {
            return Err(ErrorCode::DivisionByZero);
        }
        match wide::mul_add_div_floor(self.v, DENOMINATOR, other.v - 1, other.v) {
            Ok(q) => Ok(Decimal::new(q)),
            Err(e) => Err(e),
        }
    }
}

/// One step of exponentiation by squaring over scaled values: each
/// multiplication is a scaled floor product whose rescaled result must
/// fit 128 bits, exactly as `big_mul` computes it.
pub open spec fn pow_iter(result: int, base: int, e: nat) -> Option<int>
    decreases e,
{
    if e == 0 {
        Some(result)
    } else {
        let r2 = if e % 2 == 1 {
            result * base / DENOMINATOR as int
        } else {
            result
        };
        if r2 > u128::MAX {
            None
        } else if e / 2 == 0 {
            Some(r2)
        } else {
            let b2 = base * base / DENOMINATOR as int;
            if b2 > u128::MAX {
                None
            } else {
                pow_iter(r2, b2, e / 2)
            }
        }
    }
}

/// The exact outcome of raising a scaled value to an integer power by
/// repeated squaring: a zero exponent gives the identity whatever the
/// base, a negative exponent the reciprocal of the positive power.
pub open spec fn pow_spec(v: u128, exp: i128) -> Result<Decimal, ErrorCode> {
    if exp == 0 {
        Ok(Decimal { v: DENOMINATOR })
    } else {
        let mag = (if exp > 0 {
            exp as int
        } else {
            -(exp as int)
        }) as nat;
        match pow_iter(DENOMINATOR as int, v as int, mag) {
            Option::None => Err(ErrorCode::ArithmeticOverflow),
            Option::Some(p) => if exp > 0 {
                Ok(Decimal { v: p as u128 })
            } else if p == 0 {
                Err(ErrorCode::DivisionByZero)
            } else {
                Ok(Decimal { v: (DENOMINATOR * DENOMINATOR / p) as u128 })
            },
        }
    }
}

/// Integer exponentiation of a scaled value.
pub trait Pow<T>: Sized {
    /// The exact outcome of raising to the given power, errors included.
    spec fn pow_result(self, exp: T) -> Result<Decimal, ErrorCode>;

    /// Raises to the given power by repeated squaring; a negative
    /// exponent yields the reciprocal, a zero exponent the identity.
    fn pow(self, exp: T) -> (r: Result<Decimal, ErrorCode>)
        ensures
            r == self.pow_result(exp),
    ;
}

impl Pow<i128> for Decimal {
    open spec fn pow_result(self, exp: i128) -> Result<Decimal, ErrorCode> {
        pow_spec(self.v, exp)
    }

    fn pow(self, exp: i128) -> (r: Result<Decimal, ErrorCode>) {
        if exp == 0 {
            return Ok(Decimal::one());
        }
        let current: u128 = if exp > 0 {
            exp as u128
        } else {
            (-(exp + 1)) as u128 + 1
        };
        let ghost mag = current as nat;
        let mut current_exp: u128 = current;
        let mut base = self;
        let mut result = Decimal::one();
        while current_exp > 0
            invariant
                exp != 0,
                mag == (if exp > 0 {
                    exp as int
                } else {
                    -(exp as int)
                }),
                pow_iter(result.v as int, base.v as int, current_exp as nat) == pow_iter(
                    DENOMINATOR as int,
                    self.v as int,
                    mag,
                ),
            decreases current_exp,
        {
            let ghost r0 = result.v as int;
            let ghost b0 = base.v as int;
            let ghost e0 = current_exp as nat;
            if current_exp % 2 == 1 {
                result = match result.big_mul(base) {
                    Ok(x) => x,
                    Err(e) => {
                        proof {
                            assert(pow_iter(r0, b0, e0) is None);
                        }
                        return Err(e);
                    },
                };
            }
            current_exp = current_exp / 2;
            if current_exp > 0 {
                base = match base.big_mul(base) {
                    Ok(x) => x,
                    Err(e) => {
                        proof {
                            assert(pow_iter(r0, b0, e0) is None);
                        }
                        return Err(e);
                    },
                };
            }
            proof {
                assert(pow_iter(result.v as int, base.v as int, current_exp as nat) == pow_iter(
                    r0,
                    b0,
                    e0,
                ));
            }
        }
        if exp > 0 {
            Ok(result)
        } else if result.v == 0 {
            Err(ErrorCode::DivisionByZero)
        } else {
            Ok(Decimal::new(DENOMINATOR * DENOMINATOR / result.v))
        }
    }
}

/// Scaled multiplication that rounds the rescaling division upward.
pub trait MulUp<T>: Sized {
    /// Whether the upward-rounded scaled product fits its width.
    spec fn mul_up_fits(self, other: T) -> bool;

    /// The upward-rounded scaled product, meaningful when it fits.
    spec fn mul_up_value(self, other: T) -> T;

    /// The scaled product, rounded up; overflow is an error.
    fn mul_up(self, other: T) -> (r: Result<T, ErrorCode>)
        ensures
            r is Ok <==> self.mul_up_fits(other),
            r matches Ok(c) ==> c == self.mul_up_value(other),
            r matches Err(e) ==> e == ErrorCode::ArithmeticOverflow,
    ;
}

impl MulUp<Decimal> for Decimal {
    open spec fn mul_up_fits(self, other: Decimal) -> bool {
        self.v * other.v + DENOMINATOR - 1 <= u128::MAX
    }

    open spec fn mul_up_value(self, other: Decimal) -> Decimal {
        Decimal { v: ((self.v * other.v + DENOMINATOR - 1) / DENOMINATOR as int) as u128 }
    }

    fn mul_up(self, other: Decimal) -> (r: Result<Decimal, ErrorCode>) {
        match self.v.checked_mul(other.v) {
            Some(p) => {
                if p <= u128::MAX - (DENOMINATOR - 1) {
                    proof {
                        lemma_div_is_ordered(0, p + DENOMINATOR - 1, DENOMINATOR as int);
                        lemma_div_is_ordered(p + DENOMINATOR - 1, u128::MAX as int,
                            DENOMINATOR as int);
                    }
                    Ok(Decimal::new((p + (DENOMINATOR - 1)) / DENOMINATOR))
                } else {
                    Err(ErrorCode::ArithmeticOverflow)
                }
            },
            None => Err(ErrorCode::ArithmeticOverflow),
        }
    }
}

impl MulUp<TokenAmount> for Decimal {
    open spec fn mul_up_fits(self, other: TokenAmount) -> bool {
        self.v * other.v + DENOMINATOR - 1 <= u128::MAX && (self.v * other.v + DENOMINATOR - 1)
            / DENOMINATOR as int <= u64::MAX
    }

    open spec fn mul_up_value(self, other: TokenAmount) -> TokenAmount {
        TokenAmount { v: ((self.v * other.v + DENOMINATOR - 1) / DENOMINATOR as int) as u64 }
    }

    fn mul_up(self, other: TokenAmount) -> (r: Result<TokenAmount, ErrorCode>) {
        match self.v.checked_mul(other.v as u128) {
            Some(p) => {
                if p <= u128::MAX - (DENOMINATOR - 1) {
                    let q = (p + (DENOMINATOR - 1)) / DENOMINATOR;
                    if q <= u64::MAX as u128 {
                        Ok(TokenAmount::new(q as u64))
                    } else {
                        Err(ErrorCode::ArithmeticOverflow)
                    }
                } else {
                    Err(ErrorCode::ArithmeticOverflow)
                }
            },
            None => Err(ErrorCode::ArithmeticOverflow),
        }
    }
}

/// Dividing two values scaled by the same factor leaves their quotient
/// unchanged: `(a*D*D) / (b*D) == (a*D) / b`. This is how a quotient
/// of two whole numbers, each lifted through `from_integer` and put
/// through `div`, reduces to a single rescaled division.
pub proof fn lemma_rescaled_quotient(a: int, b: int)
    requires
        a >= 0,
        b > 0,
    ensures
        a * DENOMINATOR * DENOMINATOR / (b * DENOMINATOR) == a * DENOMINATOR / b,
{
    let d = DENOMINATOR as int;
    let x = a * d * d;
    lemma_mul_nonnegative(a, d);
    lemma_mul_nonnegative(a * d, d);
    assert(x / (b * d) == x / (d * b)) by {
        lemma_mul_is_commutative(b, d);
    };
    lemma_div_denominator(x, d, b);
    assert(x / d == a * d) by {
        lemma_div_by_multiple(a * d, d);
        lemma_mul_is_commutative(a * d, d);
        assert(x == d * (a * d)) by (nonlinear_arith)
            requires
                x == a * d * d,
        ;
    };
}

/// Adding a value and then subtracting it again restores the first
/// operand exactly, whenever the addition itself does not overflow:
/// given `sum` as `a.add(b)` returns it, `sum.sub(b)` succeeds and
/// returns `a`.
pub proof fn lemma_add_sub_round_trip(a: Decimal, b: Decimal, sum: Decimal)
    requires
        a.v + b.v <= u128::MAX,
        sum.v == a.v + b.v,
    ensures
        sum.v >= b.v,
        sum.v - b.v == a.v,
{
}

/// The floor and ceiling token conversions of one scalar differ by at
/// most one unit, and agree exactly when the scalar is scale-aligned:
/// over the quotients that `to_token_floor` and `to_token_ceil` return.
pub proof fn lemma_floor_ceil_adjacent(a: Decimal)
    ensures
        a.v as int / DENOMINATOR as int <= (a.v + DENOMINATOR - 1) / DENOMINATOR as int,
        (a.v + DENOMINATOR - 1) / DENOMINATOR as int <= a.v as int / DENOMINATOR as int + 1,
        (a.v as int / DENOMINATOR as int == (a.v + DENOMINATOR - 1) / DENOMINATOR as int) <==> a.v as int % DENOMINATOR as int == 0,
{
    let d = DENOMINATOR as int;
    let x = a.v as int;
    lemma_div_is_ordered(x, x + d - 1, d);
    lemma_fundamental_div_mod(x, d);
    lemma_mod_bound(x, d);
    let q = x / d;
    let rr = x % d;
    if rr == 0 {
        lemma_fundamental_div_mod_converse(x + d - 1, d, q, d - 1);
    } else {
        lemma_fundamental_div_mod_converse(x + d - 1, d, q + 1, rr - 1);
    }
}

} // verus!
