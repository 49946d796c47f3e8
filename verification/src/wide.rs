//! Double-width (256-bit) intermediate arithmetic on 128-bit words.
//!
//! The scaled multiply and divide operations of the engine form products
//! of two 128-bit values before rescaling. Such a product needs up to
//! 256 bits; it is held here as a high/low pair of `u128` words, and a
//! long division brings it back into range. All of this is verified:
//! `wide(hi, lo)` is the mathematical value a pair stands for, and every
//! function's contract is stated over it.

use vstd::prelude::*;
use vstd::arithmetic::div_mod::*;
use vstd::arithmetic::mul::*;
use vstd::arithmetic::power2::*;

use crate::errors::ErrorCode;

verus! {

/// 2^64, the base in which 128-bit words are split for multiplication.
const B64: u128 = 0x1_0000_0000_0000_0000;

/// 2^127, the weight of the top bit of a 128-bit word.
const TOP: u128 = 0x8000_0000_0000_0000_0000_0000_0000_0000;

/// 2^128 as a specification-level integer.
pub open spec fn b128() -> int {
    0x1_0000_0000_0000_0000_0000_0000_0000_0000int
}

/// The 256-bit value that a high/low pair of 128-bit words stands for.
pub open spec fn wide(hi: u128, lo: u128) -> int {
    hi * b128() + lo
}

/// Concrete values of the powers of two this module reasons with.
proof fn pow2_facts()
    ensures
        pow2(64) == B64,
        pow2(127) == TOP,
        pow2(128) == b128(),
{
    lemma2_to64();
    lemma2_to64_rest();
    lemma_pow2_adds(64, 63);
    lemma_pow2_adds(64, 64);
}

/// Full 256-bit product of two 128-bit words, by 64-bit limbs.
pub fn mul_wide(a: u128, b: u128) -> (r: (u128, u128))
    ensures
        a * b == wide(r.0, r.1),
{
    let a1: u128 = a / B64;
    let a0: u128 = a % B64;
    let b1: u128 = b / B64;
    let b0: u128 = b % B64;
    proof {
        lemma_fundamental_div_mod(a as int, B64 as int);
        lemma_fundamental_div_mod(b as int, B64 as int);
        lemma_mod_bound(a as int, B64 as int);
        lemma_mod_bound(b as int, B64 as int);
        lemma_multiply_divide_lt(a as int, B64 as int, B64 as int);
        lemma_multiply_divide_lt(b as int, B64 as int, B64 as int);
    }
    proof {
        lemma_mul_upper_bound(a0 as int, B64 - 1, b0 as int, B64 - 1);
        lemma_mul_upper_bound(a0 as int, B64 - 1, b1 as int, B64 - 1);
        lemma_mul_upper_bound(a1 as int, B64 - 1, b0 as int, B64 - 1);
        lemma_mul_upper_bound(a1 as int, B64 - 1, b1 as int, B64 - 1);
    }
    let p00: u128 = a0 * b0;
    let p01: u128 = a0 * b1;
    let p10: u128 = a1 * b0;
    let p11: u128 = a1 * b1;
    proof {
        // Each cross product divided by the base is at most B64 - 2.
        lemma_multiply_divide_lt(p00 as int, B64 as int, B64 - 1);
        lemma_multiply_divide_lt(p01 as int, B64 as int, B64 - 1);
        lemma_multiply_divide_lt(p10 as int, B64 as int, B64 - 1);
        lemma_mod_bound(p00 as int, B64 as int);
        lemma_mod_bound(p01 as int, B64 as int);
        lemma_mod_bound(p10 as int, B64 as int);
    }
    let t: u128 = p00 / B64 + p01 % B64 + p10 % B64;
    proof {
        lemma_multiply_divide_lt(t as int, B64 as int, 3);
        lemma_mod_bound(t as int, B64 as int);
        lemma_mul_upper_bound(t as int % B64 as int, B64 - 1, B64 as int, B64 as int);
    }
    let lo: u128 = p00 % B64 + (t % B64) * B64;
    let hi: u128 = p11 + p01 / B64 + p10 / B64 + t / B64;
    proof {
        lemma_fundamental_div_mod(p00 as int, B64 as int);
        lemma_fundamental_div_mod(p01 as int, B64 as int);
        lemma_fundamental_div_mod(p10 as int, B64 as int);
        lemma_fundamental_div_mod(t as int, B64 as int);
        assert(a * b == wide(hi, lo)) by (nonlinear_arith)
            requires
                a == a1 * B64 + a0,
                b == b1 * B64 + b0,
                p00 == a0 * b0,
                p01 == a0 * b1,
                p10 == a1 * b0,
                p11 == a1 * b1,
                p00 == (p00 as int / B64 as int) * B64 + p00 as int % B64 as int,
                p01 == (p01 as int / B64 as int) * B64 + p01 as int % B64 as int,
                p10 == (p10 as int / B64 as int) * B64 + p10 as int % B64 as int,
                t == p00 as int / B64 as int + p01 as int % B64 as int + p10 as int
                    % B64 as int,
                t == (t as int / B64 as int) * B64 + t as int % B64 as int,
                lo == p00 as int % B64 as int + (t as int % B64 as int) * B64,
                hi == p11 + p01 as int / B64 as int + p10 as int / B64 as int + t as int
                    / B64 as int,
                wide(hi, lo) == hi * b128() + lo,
                b128() == (B64 as int) * (B64 as int),
        ;
    }
    (hi, lo)
}

/// Divides a 256-bit value by a 128-bit divisor by binary long division,
/// returning quotient and remainder. The quotient fits in 128 bits
/// because the high word is below the divisor.
pub fn div_wide(hi: u128, lo: u128, d: u128) -> (r: (u128, u128))
    requires
        d > 0,
        hi < d,
    ensures
        wide(hi, lo) == r.0 * d + r.1,
        r.1 < d,
{
    let mut q: u128 = 0;
    let mut rem: u128 = hi;
    let mut cur: u128 = lo;
    let mut i: usize = 0;
    proof {
        pow2_facts();
        lemma_small_mod(lo as nat, pow2(128));
        lemma_basic_div(lo as int, pow2(128) as int);
        lemma2_to64();
    }
    while i < 128
        invariant
            i <= 128,
            0 < d,
            hi < d,
            rem < d,
            q < pow2(i as nat),
            cur == (lo as int % pow2((128 - i) as nat) as int) * pow2(i as nat) as int,
            q * d + rem == hi * pow2(i as nat) as int + lo as int / pow2((128 - i) as nat) as int,
        decreases 128 - i,
    {
        let ghost i0 = i as nat;
        let ghost pk = pow2((127 - i) as nat) as int;  // weight of the incoming bit
        let ghost pk1 = pow2((128 - i) as nat) as int;
        let ghost pi = pow2(i0) as int;
        let ghost x = lo as int % pk1;  // unconsumed part of lo
        proof {
            pow2_facts();
            lemma_pow2_pos((127 - i) as nat);
            lemma_pow2_pos((128 - i) as nat);
            lemma_pow2_pos(i0);
            lemma_pow2_adds((127 - i) as nat, 1);
            lemma_pow2_adds(i0, 1);
            lemma_pow2_adds((127 - i) as nat, i0);
            lemma2_to64();
            assert(pk1 == 2 * pk);
            assert(pk * pi == pow2(127));
            lemma_mod_bound(lo as int, pk1);
        }
        let b: u128 = if cur >= TOP { 1 } else { 0 };
        proof {
            // The top bit of cur is the bit of weight pk within x.
            if cur >= TOP {
                assert(x >= pk) by (nonlinear_arith)
                    requires
                        x * pi >= pk * pi,
                        pi > 0,
                ;
                // So the quotient and remainder of x by pk are 1 and x - pk.
                lemma_fundamental_div_mod_converse(x, pk, 1, x - pk);
            } else {
                assert(x < pk) by (nonlinear_arith)
                    requires
                        x * pi < pk * pi,
                        pi > 0,
                ;
                lemma_basic_div(x, pk);
                lemma_small_mod(x as nat, pk as nat);
            }
            assert(x / pk == b && x % pk == x - b * pk);
            // lo % pk == x % pk, as pk divides pk1
            lemma_mod_mod(lo as int, pk, 2);
            // b is also the low bit of lo / pk
            lemma_div_denominator(lo as int, pk, 2);
            lemma_fundamental_div_mod(lo as int / pk, 2);
            lemma_breakdown(lo as int, pk, 2);
            assert(pk * ((lo as int / pk) % 2) == pk * b ==> (lo as int / pk) % 2 == b)
                by (nonlinear_arith)
                requires
                    pk > 0,
            ;
            assert((lo as int / pk) % 2 == b);
            assert(lo as int / pk == 2 * (lo as int / pk1) + b);
        }
        let cur_low: u128 = if cur >= TOP { cur - TOP } else { cur };
        proof {
            assert(cur_low == (x - b * pk) * pi) by (nonlinear_arith)
                requires
                    cur == x * pi,
                    cur_low == cur - b * (pk * pi),
                    b * (pk * pi) == b * pk * pi,
            ;
            // Doubling the shifted unconsumed part stays below 2^128.
            assert((x - b * pk) * pi * 2 == (x % pk) * (2 * pi) && (x % pk) * (2 * pi) <= (pk - 1)
                * (2 * pi)) by (nonlinear_arith)
                requires
                    x % pk == x - b * pk,
                    x % pk < pk,
                    x % pk >= 0,
                    pi > 0,
                    pk > 0,
            ;
            assert((pk - 1) * (2 * pi) < b128()) by (nonlinear_arith)
                requires
                    pk * pi == pow2(127) as int,
                    2 * pow2(127) as int == b128(),
                    pi > 0,
                    pk > 0,
            ;
        }
        let new_cur: u128 = cur_low * 2;
        let ghost old_rem = rem as int;
        let ghost old_q = q as int;
        // True shifted remainder: rem2 = 2 * rem + b, possibly 129 bits wide.
        let ghost rem2 = 2 * (rem as int) + b;
        let s: u128;
        if rem >= TOP {
            // rem2 has bit 128 set, so it certainly exceeds d: subtract.
            let rem_low: u128 = (rem - TOP) * 2 + b;
            proof {
                assert(rem_low == rem2 - b128());
                assert(rem2 - d < d);
            }
            rem = rem_low + (u128::MAX - d) + 1;
            s = 1;
        } else {
            let rem2e: u128 = rem * 2 + b;
            if rem2e >= d {
                rem = rem2e - d;
                s = 1;
            } else {
                rem = rem2e;
                s = 0;
            }
        }
        proof {
            assert(rem == rem2 - s * d && rem < d);
        }
        proof {
            if i0 < 127 {
                lemma_pow2_strictly_increases(i0, 127);
            }
        }
        let new_q: u128 = q * 2 + s;
        proof {
            // Quotient and remainder still account for every consumed bit.
            assert(new_q * d + rem == hi * (2 * pi) + (2 * (lo as int / pk1) + b))
                by (nonlinear_arith)
                requires
                    new_q == 2 * old_q + s,
                    rem == 2 * old_rem + b - s * d,
                    old_q * d + old_rem == hi * pi + lo as int / pk1,
            ;
        }
        q = new_q;
        cur = new_cur;
        i = i + 1;
        proof {
            assert(pow2(i0 + 1) == 2 * pi);
            assert(pow2((128 - i) as nat) as int == pk);
            assert(cur == (lo as int % pk) * (2 * pi));
        }
    }
    proof {
        lemma2_to64();
        assert(lo as int / pow2(0) as int == lo) by {
            lemma_div_basics(lo as int);
        };
        pow2_facts();
    }
    (q, rem)
}

/// Floor of `a * b / d`, with the product widened to 256 bits first.
pub fn mul_div_floor(a: u128, b: u128, d: u128) -> (r: Result<u128, ErrorCode>)
    ensures
        d == 0 ==> r == Err::<u128, ErrorCode>(ErrorCode::DivisionByZero),
        d > 0 ==> ((r matches Ok(q)) <==> a * b / d as int <= u128::MAX),
        d > 0 && a * b / d as int > u128::MAX ==> r == Err::<u128, ErrorCode>(
            ErrorCode::ArithmeticOverflow,
        ),
        r matches Ok(q) ==> d > 0 && q == a * b / d as int,
{
    if d == 0 {
        return Err(ErrorCode::DivisionByZero);
    }
    let (hi, lo) = mul_wide(a, b);
    if hi >= d {
        proof {
            // a * b >= d * 2^128, so the quotient cannot fit in 128 bits.
            assert(wide(hi, lo) >= d * b128()) by (nonlinear_arith)
                requires
                    hi >= d,
                    lo >= 0,
                    wide(hi, lo) == hi * b128() + lo,
                    b128() > 0,
            ;
            lemma_div_is_ordered(d * b128(), a * b, d as int);
            lemma_div_by_multiple(b128(), d as int);
        }
        return Err(ErrorCode::ArithmeticOverflow);
    }
    let (q, rem) = div_wide(hi, lo, d);
    proof {
        lemma_fundamental_div_mod_converse(a * b, d as int, q as int, rem as int);
    }
    Ok(q)
}

/// Floor of `(a * b + c) / d` for a carry term `c < d`; with `c == d - 1`
/// this is the ceiling of `a * b / d`.
pub fn mul_add_div_floor(a: u128, b: u128, c: u128, d: u128) -> (r: Result<u128, ErrorCode>)
    requires
        c < d,
    ensures
        (r matches Ok(q)) <==> (a * b + c) / d as int <= u128::MAX,
        (a * b + c) / d as int > u128::MAX ==> r == Err::<u128, ErrorCode>(
            ErrorCode::ArithmeticOverflow,
        ),
        r matches Ok(q) ==> q == (a * b + c) / d as int,
{
    let (hi0, lo0) = mul_wide(a, b);
    proof {
        assert(hi0 < u128::MAX) by (nonlinear_arith)
            requires
                hi0 * b128() + lo0 == a * b,
                lo0 >= 0,
                a <= u128::MAX,
                b <= u128::MAX,
                b128() == u128::MAX + 1,
        ;
    }
    let hi: u128;
    let lo: u128;
    if lo0 <= u128::MAX - c {
        hi = hi0;
        lo = lo0 + c;
        proof {
            assert(wide(hi, lo) == wide(hi0, lo0) + c);
        }
    } else {
        hi = hi0 + 1;
        lo = lo0 - (u128::MAX - c) - 1;
        proof {
            assert(wide(hi, lo) == wide(hi0, lo0) + c) by (nonlinear_arith)
                requires
                    wide(hi, lo) == hi * b128() + lo,
                    wide(hi0, lo0) == hi0 * b128() + lo0,
                    hi == hi0 + 1,
                    lo == lo0 - (u128::MAX - c) - 1,
                    b128() == u128::MAX + 1,
            ;
        }
    }
    if hi >= d {
        proof {
            assert(wide(hi, lo) >= d * b128()) by (nonlinear_arith)
                requires
                    hi >= d,
                    lo >= 0,
                    wide(hi, lo) == hi * b128() + lo,
                    b128() > 0,
            ;
            lemma_div_is_ordered(d * b128(), a * b + c, d as int);
            lemma_div_by_multiple(b128(), d as int);
        }
        return Err(ErrorCode::ArithmeticOverflow);
    }
    let (q, rem) = div_wide(hi, lo, d);
    proof {
        lemma_fundamental_div_mod_converse(a * b + c, d as int, q as int, rem as int);
    }
    Ok(q)
}

} // verus!
