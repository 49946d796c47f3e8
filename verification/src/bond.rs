//! The position record: one purchased bond and its vesting window.

use vstd::prelude::*;
use vstd::arithmetic::div_mod::*;
use vstd::arithmetic::mul::*;

use crate::address::Address;
use crate::decimal::{Decimal, DENOMINATOR};
use crate::errors::ErrorCode;
use crate::token_amount::TokenAmount;

verus! {

/// One purchased position: its owner, the sale it came from, the
/// quantity bought, and the linear release window with the claim
/// cursor inside it.
#[derive(Debug, Clone, Copy)]
pub struct Bond {
    pub bond_sale: Address,
    pub owner: Address,
    pub bond_amount: TokenAmount,
    pub last_claim: u64,
    pub vesting_start: u64,
    pub vesting_end: u64,
}

impl Default for Bond {
    /// A cleared position: zero amount and an empty window at the
    /// clock's origin.
    fn default() -> (r: Self)
        ensures
            r.bond_sale.is_zero_spec(),
            r.owner.is_zero_spec(),
            r.bond_amount.v == 0,
            r.last_claim == 0,
            r.vesting_start == 0,
            r.vesting_end == 0,
    {
        Bond {
            bond_sale: Address::default(),
            owner: Address::default(),
            bond_amount: TokenAmount::new(0),
            last_claim: 0,
            vesting_start: 0,
            vesting_end: 0,
        }
    }
}

impl Bond {
    /// Structural soundness of a live position: the claim cursor sits
    /// inside the vesting window.
    pub open spec fn wf(self) -> bool {
        self.vesting_start <= self.last_claim <= self.vesting_end
    }

    /// The clock capped at the end of the vesting window.
    pub open spec fn effective_time(self, current_time: u64) -> int {
        if current_time < self.vesting_end {
            current_time as int
        } else {
            self.vesting_end as int
        }
    }

    /// The exact outcome of a claimable-amount query: the released
    /// fraction of the bond since the last claim, rounded down, or the
    /// error the query stops with.
    pub open spec fn claim_spec(self, current_time: u64) -> Result<TokenAmount, ErrorCode> {
        if self.last_claim >= self.vesting_end {
            Err(ErrorCode::VestingEnded)
        } else if current_time < self.vesting_end && current_time < self.last_claim {
            Err(ErrorCode::ArithmeticOverflow)
        } else if self.vesting_end < self.vesting_start {
            Err(ErrorCode::ArithmeticOverflow)
        } else {
            let delta = self.effective_time(current_time) - self.last_claim;
            let dur = self.vesting_end - self.vesting_start;
            if delta * DENOMINATOR * DENOMINATOR > u128::MAX {
                Err(ErrorCode::ArithmeticOverflow)
            } else if dur == 0 {
                Err(ErrorCode::DivisionByZero)
            } else {
                let fraction = delta * DENOMINATOR / dur;
                let raw = self.bond_amount.v * fraction;
                if raw > u128::MAX {
                    Err(ErrorCode::ArithmeticOverflow)
                } else if raw / DENOMINATOR as int > u64::MAX {
                    Err(ErrorCode::ArithmeticOverflow)
                } else {
                    Ok(TokenAmount { v: (raw / DENOMINATOR as int) as u64 })
                }
            }
        }
    }

    /// How much of the bond has vested and not yet been claimed: the
    /// elapsed share of the window since the last claim, scaled onto
    /// the bond amount and rounded down so cumulative claims never
    /// exceed what was granted. Fails with `VestingEnded` once the
    /// claim cursor has reached the end of the window.
    pub fn get_amount_to_claim(&self, current_time: u64) -> (r: Result<TokenAmount, ErrorCode>)
        ensures
            r == self.claim_spec(current_time),
    {
        if self.last_claim >= self.vesting_end {
            return Err(ErrorCode::VestingEnded);
        }
        let time_delta: u64 = if current_time < self.vesting_end {
            if current_time < self.last_claim {
                return Err(ErrorCode::ArithmeticOverflow);
            }
            current_time - self.last_claim
        } else {
            self.vesting_end - self.last_claim
        };
        if self.vesting_end < self.vesting_start {
            return Err(ErrorCode::ArithmeticOverflow);
        }
        let duration: u64 = self.vesting_end - self.vesting_start;
        proof {
            lemma_mul_upper_bound(time_delta as int, u64::MAX as int, DENOMINATOR as int,
                DENOMINATOR as int);
            lemma_mul_upper_bound(duration as int, u64::MAX as int, DENOMINATOR as int,
                DENOMINATOR as int);
        }
        let fraction = match Decimal::from_integer(time_delta as u128).div(
            Decimal::from_integer(duration as u128),
        ) {
            Ok(f) => f,
            Err(e) => {
                return Err(e);
            },
        };
        proof {
            crate::decimal::lemma_rescaled_quotient(time_delta as int, duration as int);
        }
        let amount = match self.bond_amount.big_mul(fraction) {
            Ok(a) => a,
            Err(e) => {
                return Err(e);
            },
        };
        amount.to_token_floor()
    }
}


/// A common factor in numerator and denominator cancels out of a
/// flooring division: `(a*c) / (b*c) == a / b`.
proof fn lemma_div_cancel_common(a: int, b: int, c: int)
    requires
        a >= 0,
        b > 0,
        c > 0,
    ensures
        a * c / (b * c) == a / b,
{
    lemma_mul_nonnegative(a, c);
    assert(a * c / (b * c) == a * c / (c * b)) by {
        lemma_mul_is_commutative(b, c);
    };
    lemma_div_denominator(a * c, c, b);
    assert(a * c / c == a) by {
        lemma_div_by_multiple(a, c);
    };
}

/// Flooring division is superadditive: `x/d + y/d <= (x+y)/d`.
proof fn lemma_div_add_le(x: int, y: int, d: int)
    requires
        x >= 0,
        y >= 0,
        d > 0,
    ensures
        x / d + y / d <= (x + y) / d,
{
    lemma_fundamental_div_mod(x, d);
    lemma_fundamental_div_mod(y, d);
    lemma_mod_bound(x, d);
    lemma_mod_bound(y, d);
    lemma_div_pos_is_pos(x, d);
    lemma_div_pos_is_pos(y, d);
    let q = x / d + y / d;
    assert(q * d <= x + y) by (nonlinear_arith)
        requires
            x == d * (x / d) + x % d,
            y == d * (y / d) + y % d,
            x % d >= 0,
            y % d >= 0,
            q == x / d + y / d,
    ;
    assert(q * d / d == q) by {
        lemma_div_by_multiple(q, d);
    };
    lemma_div_is_ordered(q * d, x + y, d);
}

/// Claims round down, so cumulative claims never exceed the granted
/// amount: whenever everything claimed so far fits within the vested
/// share of the window up to the claim cursor, one more successful
/// claim keeps the total within the vested share up to the new cursor
/// — and that share never exceeds the bond amount itself.
pub proof fn lemma_cumulative_claims_bounded(bond: Bond, t: u64, claimed: int)
    requires
        bond.wf(),
        bond.vesting_start < bond.vesting_end,
        0 <= claimed,
        claimed <= bond.bond_amount.v * (bond.last_claim - bond.vesting_start) / (
        bond.vesting_end - bond.vesting_start),
        bond.claim_spec(t) is Ok,
    ensures
        claimed + bond.claim_spec(t)->Ok_0.v <= bond.bond_amount.v * (bond.effective_time(t)
            - bond.vesting_start) / (bond.vesting_end - bond.vesting_start),
        claimed + bond.claim_spec(t)->Ok_0.v <= bond.bond_amount.v,
{
    let d = DENOMINATOR as int;
    let amt = bond.bond_amount.v as int;
    let dur = bond.vesting_end - bond.vesting_start;
    let eff = bond.effective_time(t);
    let delta = eff - bond.last_claim;
    let f = delta * d / dur;
    let claim = amt * f / d;
    assert(bond.claim_spec(t)->Ok_0.v == claim);
    // The claim is at most the vested share of the elapsed span.
    lemma_fundamental_div_mod(delta * d, dur);
    lemma_mod_bound(delta * d, dur);
    lemma_mul_nonnegative(delta, d);
    lemma_div_pos_is_pos(delta * d, dur);
    assert(amt * f * dur <= amt * delta * d) by (nonlinear_arith)
        requires
            f * dur <= delta * d,
            amt >= 0,
            dur > 0,
    ;
    lemma_mul_nonnegative(amt, f);
    lemma_mul_nonnegative(amt * f, dur);
    lemma_mul_strictly_positive(dur, d);
    lemma_div_is_ordered(amt * f * dur, amt * delta * d, dur * d);
    assert(amt * f * dur / (d * dur) == amt * f / d) by {
        lemma_div_cancel_common(amt * f, d, dur);
    };
    assert(amt * delta * d / (dur * d) == amt * delta / dur) by {
        lemma_mul_nonnegative(amt, delta);
        lemma_div_cancel_common(amt * delta, dur, d);
    };
    assert(d * dur == dur * d) by {
        lemma_mul_is_commutative(d, dur);
    };
    assert(claim <= amt * delta / dur);
    // Vested shares of adjacent spans add up to the share of the union.
    let c0 = bond.last_claim - bond.vesting_start;
    lemma_mul_nonnegative(amt, c0);
    lemma_div_add_le(amt * c0, amt * delta, dur);
    assert(amt * c0 + amt * delta == amt * (eff - bond.vesting_start)) by (nonlinear_arith)
        requires
            c0 + delta == eff - bond.vesting_start,
    ;
    // The whole window's share is exactly the bond amount.
    assert(eff - bond.vesting_start <= dur);
    assert(amt * (eff - bond.vesting_start) <= amt * dur) by {
        lemma_mul_nonnegative(amt, eff - bond.vesting_start);
        lemma_mul_left_inequality_helper(amt, eff - bond.vesting_start, dur);
    };
    lemma_div_is_ordered(amt * (eff - bond.vesting_start), amt * dur, dur);
    assert(amt * dur / dur == amt) by {
        lemma_div_by_multiple(amt, dur);
    };
}

/// Multiplication by a non-negative factor keeps an ordering.
proof fn lemma_mul_left_inequality_helper(x: int, y: int, z: int) by (nonlinear_arith)
    requires
        x >= 0,
        y <= z,
    ensures
        x * y <= x * z,
{
}

/// For a fixed position the claimable amount never decreases as the
/// clock advances: whenever both queries succeed and `t1 <= t2`, the
/// amount claimable at `t1` is at most the amount claimable at `t2`.
/// Once the claim cursor has reached the end of the window, nothing
/// further is claimable: the query fails with `VestingEnded`, which
/// `claim_spec` states directly.
pub proof fn lemma_claimable_monotone(bond: Bond, t1: u64, t2: u64)
    requires
        t1 <= t2,
        bond.claim_spec(t1) is Ok,
        bond.claim_spec(t2) is Ok,
    ensures
        bond.claim_spec(t1)->Ok_0.v <= bond.claim_spec(t2)->Ok_0.v,
{
    let d = DENOMINATOR as int;
    let delta1 = bond.effective_time(t1) - bond.last_claim;
    let delta2 = bond.effective_time(t2) - bond.last_claim;
    let dur = bond.vesting_end - bond.vesting_start;
    assert(delta1 <= delta2);
    lemma_mul_inequality(delta1, delta2, d);
    lemma_div_is_ordered(delta1 * d, delta2 * d, dur);
    let f1 = delta1 * d / dur;
    let f2 = delta2 * d / dur;
    lemma_mul_nonnegative(delta1, d);
    lemma_div_pos_is_pos(delta1 * d, dur);
    assert(f1 <= f2);
    let amt = bond.bond_amount.v as int;
    assert(amt * f1 <= amt * f2) by (nonlinear_arith)
        requires
            f1 <= f2,
            amt >= 0,
    ;
    lemma_mul_nonnegative(amt, f1);
    lemma_div_is_ordered(amt * f1, amt * f2, d);
}

} // verus!
