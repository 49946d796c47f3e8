//! The bonding-curve price update.
//!
//! On every purchase the curve first decays the anchor price toward the
//! floor in proportion to the time elapsed since the last trade, then
//! jumps it upward in proportion to the share of the supply being
//! bought. The buyer pays the midpoint of the jump; the full post-jump
//! price is recorded as the anchor for the next trade.

use vstd::prelude::*;
use vstd::arithmetic::div_mod::*;
use vstd::arithmetic::mul::*;

use crate::bond_sale::BondSale;
use crate::decimal::{Decimal, DENOMINATOR};
use crate::errors::ErrorCode;
use crate::token_amount::TokenAmount;

verus! {

/// What a successful price update yields: the price the buyer pays and
/// the anchor recorded for the next trade.
#[derive(Debug, Clone, Copy)]
pub struct PriceUpdate {
    pub execution_price: Decimal,
    pub next_anchor: Decimal,
}

/// The exact outcome of a price update, step for step: each scaled
/// multiplication floors its rescaling division, and the first value
/// that fails to fit — or a zero sale duration or supply — aborts the
/// update with the matching error.
pub open spec fn new_price_spec(s: BondSale, t: u64, buy: TokenAmount) -> Result<
    PriceUpdate,
    ErrorCode,
> {
    let d = DENOMINATOR as int;
    if t < s.last_trade {
        Err(ErrorCode::ArithmeticOverflow)
    } else if s.end_time < s.start_time {
        Err(ErrorCode::ArithmeticOverflow)
    } else {
        let dt = t - s.last_trade;
        let st = s.end_time - s.start_time;
        if dt * d * d > u128::MAX {
            Err(ErrorCode::ArithmeticOverflow)
        } else if st == 0 {
            Err(ErrorCode::DivisionByZero)
        } else {
            let time_ratio = dt * d / st;
            if s.velocity.v * s.up_bound.v > u128::MAX {
                Err(ErrorCode::ArithmeticOverflow)
            } else {
                let m1 = s.velocity.v * s.up_bound.v / d;
                if m1 * s.floor_price.v > u128::MAX {
                    Err(ErrorCode::ArithmeticOverflow)
                } else {
                    let m2 = m1 * s.floor_price.v / d;
                    if m2 * time_ratio > u128::MAX {
                        Err(ErrorCode::ArithmeticOverflow)
                    } else {
                        let decay = m2 * time_ratio / d;
                        if s.supply.v == 0 {
                            Err(ErrorCode::DivisionByZero)
                        } else {
                            let supply_ratio = buy.v * d / s.supply.v as int;
                            if s.floor_price.v + decay > u128::MAX {
                                Err(ErrorCode::ArithmeticOverflow)
                            } else {
                                let base = if s.previous_price.v < s.floor_price.v + decay {
                                    s.floor_price.v as int
                                } else {
                                    s.previous_price.v - decay
                                };
                                if supply_ratio * s.up_bound.v > u128::MAX {
                                    Err(ErrorCode::ArithmeticOverflow)
                                } else {
                                    let j1 = supply_ratio * s.up_bound.v / d;
                                    if j1 * s.floor_price.v > u128::MAX {
                                        Err(ErrorCode::ArithmeticOverflow)
                                    } else {
                                        let jump = j1 * s.floor_price.v / d;
                                        if base + jump > u128::MAX {
                                            Err(ErrorCode::ArithmeticOverflow)
                                        } else if buy.v > s.remaining_amount.v {
                                            Err(ErrorCode::ArithmeticOverflow)
                                        } else if 500_000_000_000 * jump > u128::MAX {
                                            Err(ErrorCode::ArithmeticOverflow)
                                        } else {
                                            let half_jump = 500_000_000_000 * jump / d;
                                            if half_jump + base > u128::MAX {
                                                Err(ErrorCode::ArithmeticOverflow)
                                            } else {
                                                Ok(
                                                    PriceUpdate {
                                                        execution_price: Decimal {
                                                            v: (half_jump + base) as u128,
                                                        },
                                                        next_anchor: Decimal {
                                                            v: (base + jump) as u128,
                                                        },
                                                    },
                                                )
                                            }
                                        }
                                    }
                                }
                            }
                        }
                    }
                }
            }
        }
    }
}

/// Applies one purchase to the curve: decays the anchor toward the
/// floor by elapsed time, jumps it by the bought share of supply,
/// debits the remaining amount and stamps the trade time. Returns the
/// execution price — the midpoint of the jump. On any error the sale
/// record is left untouched.
///
/// The price never falls below the floor: neither the returned
/// execution price nor the recorded anchor, whatever the inputs.
pub fn calculate_new_price(bond_sale: &mut BondSale, current_time: u64, buy_amount: TokenAmount)
    -> (r: Result<Decimal, ErrorCode>)
    ensures
        new_price_spec(*old(bond_sale), current_time, buy_amount) matches Ok(u) ==> r == Ok::<
            Decimal,
            ErrorCode,
        >(u.execution_price) && *final(bond_sale) == (BondSale {
            previous_price: u.next_anchor,
            remaining_amount: (TokenAmount {
                v: (old(bond_sale).remaining_amount.v - buy_amount.v) as u64,
            }),
            last_trade: current_time,
            ..*old(bond_sale)
        }),
        new_price_spec(*old(bond_sale), current_time, buy_amount) matches Err(e) ==> r == Err::<
            Decimal,
            ErrorCode,
        >(e) && *final(bond_sale) == *old(bond_sale),
        r matches Ok(p) ==> p.v >= old(bond_sale).floor_price.v,
        r is Ok ==> final(bond_sale).previous_price.v >= final(bond_sale).floor_price.v,
        r is Ok ==> final(bond_sale).remaining_amount.v == old(bond_sale).remaining_amount.v
            - buy_amount.v,
        r is Ok ==> final(bond_sale).remaining_amount.v <= old(bond_sale).remaining_amount.v,
        r is Ok && buy_amount.v == old(bond_sale).remaining_amount.v ==> final(bond_sale).remaining_amount.v == 0,
        r is Ok && old(bond_sale).wf() ==> final(bond_sale).wf(),
{
    if current_time < bond_sale.last_trade {
        return Err(ErrorCode::ArithmeticOverflow);
    }
    let delta_time: u64 = current_time - bond_sale.last_trade;
    if bond_sale.end_time < bond_sale.start_time {
        return Err(ErrorCode::ArithmeticOverflow);
    }
    let sale_time: u64 = bond_sale.end_time - bond_sale.start_time;
    proof {
        lemma_mul_upper_bound(delta_time as int, u64::MAX as int, DENOMINATOR as int,
            DENOMINATOR as int);
        lemma_mul_upper_bound(sale_time as int, u64::MAX as int, DENOMINATOR as int,
            DENOMINATOR as int);
    }
    let time_ratio = match Decimal::from_integer(delta_time as u128).div(
        Decimal::from_integer(sale_time as u128),
    ) {
        Ok(f) => f,
        Err(e) => {
            return Err(e);
        },
    };
    proof {
        crate::decimal::lemma_rescaled_quotient(delta_time as int, sale_time as int);
    }
    let m1 = match bond_sale.velocity.mul(bond_sale.up_bound) {
        Ok(x) => x,
        Err(e) => {
            return Err(e);
        },
    };
    let m2 = match m1.mul(bond_sale.floor_price) {
        Ok(x) => x,
        Err(e) => {
            return Err(e);
        },
    };
    let delta_price = match m2.mul(time_ratio) {
        Ok(x) => x,
        Err(e) => {
            return Err(e);
        },
    };
    let supply_ratio = match buy_amount.percent(bond_sale.supply) {
        Ok(x) => x,
        Err(e) => {
            return Err(e);
        },
    };
    let floor_plus_decay = match bond_sale.floor_price.add(delta_price) {
        Ok(x) => x,
        Err(e) => {
            return Err(e);
        },
    };
    let base_price = if bond_sale.previous_price.v < floor_plus_decay.v {
        bond_sale.floor_price
    } else {
        match bond_sale.previous_price.sub(delta_price) {
            Ok(x) => x,
            Err(e) => {
                return Err(e);
            },
        }
    };
    let j1 = match supply_ratio.mul(bond_sale.up_bound) {
        Ok(x) => x,
        Err(e) => {
            return Err(e);
        },
    };
    let jump = match j1.mul(bond_sale.floor_price) {
        Ok(x) => x,
        Err(e) => {
            return Err(e);
        },
    };
    let next_anchor = match base_price.add(jump) {
        Ok(x) => x,
        Err(e) => {
            return Err(e);
        },
    };
    let new_remaining = match bond_sale.remaining_amount.sub(buy_amount) {
        Ok(x) => x,
        Err(e) => {
            return Err(e);
        },
    };
    proof {
        reveal_with_fuel(crate::decimal::ten_pow, 12);
        assert(crate::decimal::ten_pow(10) == 10_000_000_000);
    }
    let half = Decimal::from_decimal(50, 2);
    let half_jump = match half.mul(jump) {
        Ok(x) => x,
        Err(e) => {
            return Err(e);
        },
    };
    let execution_price = match half_jump.add(base_price) {
        Ok(x) => x,
        Err(e) => {
            return Err(e);
        },
    };
    bond_sale.previous_price = next_anchor;
    bond_sale.remaining_amount = new_remaining;
    bond_sale.last_trade = current_time;
    Ok(execution_price)
}


} // verus!
