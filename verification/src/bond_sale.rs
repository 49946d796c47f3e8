//! The sale record: one bonding-curve offering.

use vstd::prelude::*;

use crate::address::Address;
use crate::decimal::{Decimal, DENOMINATOR};
use crate::errors::ErrorCode;
use crate::token_amount::TokenAmount;

verus! {

/// One bonding-curve offering of a fixed bond-token supply against a
/// quote token.
#[derive(Debug, Clone, Copy)]
pub struct BondSale {
    pub token_bond: Address,
    pub token_quote: Address,
    pub token_bond_account: Address,
    pub token_quote_account: Address,
    pub payer: Address,
    pub fee: Decimal,
    pub fee_amount: TokenAmount,
    pub floor_price: Decimal,
    pub previous_price: Decimal,
    pub up_bound: Decimal,
    pub velocity: Decimal,
    pub supply: TokenAmount,
    pub remaining_amount: TokenAmount,
    pub quote_amount: TokenAmount,
    pub end_time: u64,
    pub start_time: u64,
    pub last_trade: u64,
    pub vesting_time: u64,
}

impl BondSale {
    /// Structural soundness of a live sale record: the unsold part
    /// never exceeds the supply, the anchor never sits below the floor,
    /// and the trading window is ordered.
    pub open spec fn wf(self) -> bool {
        &&& self.remaining_amount.v <= self.supply.v
        &&& self.previous_price.v >= self.floor_price.v
        &&& self.start_time <= self.end_time
    }

    /// The structural price ceiling: the floor scaled by one plus the
    /// up-bound, which a purchase of the whole supply would reach from
    /// a fully decayed curve.
    pub fn calculate_ceil_price(&self) -> (r: Result<Decimal, ErrorCode>)
        ensures
            r is Ok <==> DENOMINATOR + self.up_bound.v <= u128::MAX && (DENOMINATOR
                + self.up_bound.v) * self.floor_price.v <= u128::MAX,
            r matches Ok(c) ==> c.v == (DENOMINATOR + self.up_bound.v) * self.floor_price.v
                / DENOMINATOR as int,
            r matches Err(e) ==> e == ErrorCode::ArithmeticOverflow,
    {
        let s = Decimal::one().add(self.up_bound)?;
        s.mul(self.floor_price)
    }
}

impl Default for BondSale {
    /// A cleared record: every counter, price and identity zeroed.
    fn default() -> (r: Self)
        ensures
            r.token_bond.is_zero_spec(),
            r.token_quote.is_zero_spec(),
            r.token_bond_account.is_zero_spec(),
            r.token_quote_account.is_zero_spec(),
            r.payer.is_zero_spec(),
            r.fee.v == 0,
            r.fee_amount.v == 0,
            r.floor_price.v == 0,
            r.previous_price.v == 0,
            r.up_bound.v == 0,
            r.velocity.v == 0,
            r.supply.v == 0,
            r.remaining_amount.v == 0,
            r.quote_amount.v == 0,
            r.end_time == 0,
            r.start_time == 0,
            r.last_trade == 0,
            r.vesting_time == 0,
    {
        BondSale {
            token_bond: Address::default(),
            token_quote: Address::default(),
            token_bond_account: Address::default(),
            token_quote_account: Address::default(),
            payer: Address::default(),
            fee: Decimal::new(0),
            fee_amount: TokenAmount::new(0),
            floor_price: Decimal::new(0),
            previous_price: Decimal::new(0),
            up_bound: Decimal::new(0),
            velocity: Decimal::new(0),
            supply: TokenAmount::new(0),
            remaining_amount: TokenAmount::new(0),
            quote_amount: TokenAmount::new(0),
            end_time: 0,
            start_time: 0,
            last_trade: 0,
            vesting_time: 0,
        }
    }
}

} // verus!
