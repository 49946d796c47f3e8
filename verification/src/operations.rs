//! Instruction-level transitions.
//!
//! Each public operation is the pure core of one user instruction: it
//! takes the records it touches, the caller-supplied arguments and the
//! clock reading, and either fully applies its effect or fails with an
//! error and leaves every record untouched. Moving tokens, checking
//! signatures and reading the clock are the ledger collaborator's work
//! and stay outside; the amounts to transfer are returned to it.

use vstd::prelude::*;

use crate::address::Address;
use crate::bond::Bond;
use crate::bond_sale::BondSale;
use crate::decimal::{Decimal, ten_pow, DENOMINATOR};
use crate::errors::ErrorCode;
use crate::math::{calculate_new_price, new_price_spec};
use crate::state::State;
use crate::token_amount::TokenAmount;

verus! {

/// A fresh program state record with the sale counter at zero.
pub fn create_state(admin: Address, authority: Address, nonce: u8, bump: u8) -> (r: State)
    ensures
        r.admin == admin,
        r.authority == authority,
        r.next_bond_sale == 0,
        r.nonce == nonce,
        r.bump == bump,
{
    State::new(admin, authority, nonce, bump)
}

/// Opens a sale: the full supply is offered, the anchor starts at the
/// floor price, the protocol fee starts at ten percent, and the
/// trading window runs from now for the given duration. Fails only
/// when the window's end does not fit the clock's width.
pub fn init_bond_sale(
    token_bond: Address,
    token_quote: Address,
    token_bond_account: Address,
    token_quote_account: Address,
    payer: Address,
    floor_price: u128,
    up_bound: u128,
    velocity: u128,
    supply: u64,
    duration: u64,
    vesting_time: u64,
    current_time: u64,
) -> (r: Result<BondSale, ErrorCode>)
    ensures
        r is Ok <==> current_time + duration <= u64::MAX,
        r matches Err(e) ==> e == ErrorCode::ArithmeticOverflow,
        r matches Ok(s) ==> s == (BondSale {
            token_bond,
            token_quote,
            token_bond_account,
            token_quote_account,
            payer,
            fee: (Decimal { v: 100_000_000_000 }),
            fee_amount: (TokenAmount { v: 0 }),
            floor_price: (Decimal { v: floor_price }),
            previous_price: (Decimal { v: floor_price }),
            up_bound: (Decimal { v: up_bound }),
            velocity: (Decimal { v: velocity }),
            supply: (TokenAmount { v: supply }),
            remaining_amount: (TokenAmount { v: supply }),
            quote_amount: (TokenAmount { v: 0 }),
            end_time: (current_time + duration) as u64,
            start_time: current_time,
            last_trade: current_time,
            vesting_time,
        }),
        r matches Ok(s) ==> s.wf(),
{
    if current_time > u64::MAX - duration {
        return Err(ErrorCode::ArithmeticOverflow);
    }
    proof {
        reveal_with_fuel(ten_pow, 13);
        assert(ten_pow(11) == 100_000_000_000);
    }
    Ok(
        BondSale {
            token_bond,
            token_quote,
            token_bond_account,
            token_quote_account,
            payer,
            fee: Decimal::from_decimal(1, 1),
            fee_amount: TokenAmount::new(0),
            floor_price: Decimal::new(floor_price),
            previous_price: Decimal::new(floor_price),
            up_bound: Decimal::new(up_bound),
            velocity: Decimal::new(velocity),
            supply: TokenAmount::new(supply),
            remaining_amount: TokenAmount::new(supply),
            quote_amount: TokenAmount::new(0),
            end_time: current_time + duration,
            start_time: current_time,
            last_trade: current_time,
            vesting_time,
        },
    )
}

/// What a successful purchase yields: the updated sale record and the
/// amounts the accounting derived from the execution price.
pub struct PurchaseOutcome {
    pub sale: BondSale,
    pub quote_cost: u64,
    pub fee: u64,
    pub net_proceeds: u64,
    pub execution_price: Decimal,
    pub vesting_end: u64,
}

/// The exact outcome of a purchase: the supply check, the price
/// update, the buyer's limit, and the quote-cost and fee accounting,
/// in the order the operation performs them. The buyer pays the
/// ceiling of the scaled cost, and the fee is the ceiling of the fee
/// share of that cost, so precision loss never short-pays the sale.
pub open spec fn create_bond_spec(s: BondSale, amount: u64, price_limit: u128, now: u64) -> Result<
    PurchaseOutcome,
    ErrorCode,
> {
    let d = DENOMINATOR as int;
    if amount > s.remaining_amount.v {
        Err(ErrorCode::InsufficientSupply)
    } else {
        match new_price_spec(s, now, TokenAmount { v: amount }) {
            Result::Err(e) => Err(e),
            Result::Ok(u) => {
                if u.execution_price.v > price_limit {
                    Err(ErrorCode::PriceLimitExceeded)
                } else {
                    let gross_raw = amount * u.execution_price.v;
                    if gross_raw > u128::MAX {
                        Err(ErrorCode::ArithmeticOverflow)
                    } else if gross_raw + d - 1 > u128::MAX || (gross_raw + d - 1) / d
                        > u64::MAX {
                        Err(ErrorCode::ArithmeticOverflow)
                    } else {
                        let gross = (gross_raw + d - 1) / d;
                        let fee_raw = gross * s.fee.v;
                        if fee_raw > u128::MAX {
                            Err(ErrorCode::ArithmeticOverflow)
                        } else if fee_raw + d - 1 > u128::MAX || (fee_raw + d - 1) / d
                            > u64::MAX {
                            Err(ErrorCode::ArithmeticOverflow)
                        } else {
                            let fee = (fee_raw + d - 1) / d;
                            if fee > gross {
                                Err(ErrorCode::ArithmeticOverflow)
                            } else if now + s.vesting_time > u64::MAX {
                                Err(ErrorCode::ArithmeticOverflow)
                            } else {
                                let net = gross - fee;
                                if s.quote_amount.v + net > u64::MAX {
                                    Err(ErrorCode::ArithmeticOverflow)
                                } else if s.fee_amount.v + fee > u64::MAX {
                                    Err(ErrorCode::ArithmeticOverflow)
                                } else {
                                    Ok(
                                        PurchaseOutcome {
                                            sale: BondSale {
                                                previous_price: u.next_anchor,
                                                remaining_amount: TokenAmount {
                                                    v: (s.remaining_amount.v - amount) as u64,
                                                },
                                                last_trade: now,
                                                quote_amount: TokenAmount {
                                                    v: (s.quote_amount.v + net) as u64,
                                                },
                                                fee_amount: TokenAmount {
                                                    v: (s.fee_amount.v + fee) as u64,
                                                },
                                                ..s
                                            },
                                            quote_cost: gross as u64,
                                            fee: fee as u64,
                                            net_proceeds: net as u64,
                                            execution_price: u.execution_price,
                                            vesting_end: (now + s.vesting_time) as u64,
                                        },
                                    )
                                }
                            }
                        }
                    }
                }
            },
        }
    }
}

/// Executes a purchase: updates the curve, charges the buyer the
/// ceiling of the scaled cost, accrues the fee and the net proceeds on
/// the sale, and opens a vesting position for the bought amount.
/// Returns the new position and the gross quote cost the buyer must
/// transfer. Fails with `InsufficientSupply` when more than the
/// remaining amount is asked for, with `PriceLimitExceeded` when the
/// execution price passes the buyer's limit, and with an arithmetic
/// error when a value does not fit; on any error the sale record is
/// left untouched.
pub fn create_bond(
    bond_sale: &mut BondSale,
    sale_address: Address,
    owner: Address,
    amount: u64,
    price_limit: u128,
    current_time: u64,
) -> (r: Result<(Bond, TokenAmount), ErrorCode>)
    ensures
        create_bond_spec(*old(bond_sale), amount, price_limit, current_time) matches Ok(o) ==> ({
            &&& *final(bond_sale) == o.sale
            &&& r matches Ok(p) && p.0 == (Bond {
                bond_sale: sale_address,
                owner,
                bond_amount: (TokenAmount { v: amount }),
                last_claim: current_time,
                vesting_start: current_time,
                vesting_end: o.vesting_end,
            }) && p.1.v == o.quote_cost
        }),
        create_bond_spec(*old(bond_sale), amount, price_limit, current_time) matches Err(e) ==> r
            == Err::<(Bond, TokenAmount), ErrorCode>(e) && *final(bond_sale) == *old(bond_sale),
        r is Ok ==> final(bond_sale).remaining_amount.v == old(bond_sale).remaining_amount.v
            - amount,
        r is Ok ==> final(bond_sale).quote_amount.v >= old(bond_sale).quote_amount.v,
        r is Ok ==> final(bond_sale).fee_amount.v >= old(bond_sale).fee_amount.v,
        r is Ok && old(bond_sale).wf() ==> final(bond_sale).wf(),
        r matches Ok(p) ==> p.0.wf(),
{
    if amount > bond_sale.remaining_amount.v {
        return Err(ErrorCode::InsufficientSupply);
    }
    let mut updated: BondSale = *bond_sale;
    let sell_price = match calculate_new_price(&mut updated, current_time, TokenAmount::new(
        amount,
    )) {
        Ok(p) => p,
        Err(e) => {
            return Err(e);
        },
    };
    if sell_price.v > price_limit {
        return Err(ErrorCode::PriceLimitExceeded);
    }
    let gross_dec = match TokenAmount::new(amount).big_mul(sell_price) {
        Ok(x) => x,
        Err(e) => {
            return Err(e);
        },
    };
    let quote_amount = match gross_dec.to_token_ceil() {
        Ok(x) => x,
        Err(e) => {
            return Err(e);
        },
    };
    let fee_dec = match quote_amount.big_mul(bond_sale.fee) {
        Ok(x) => x,
        Err(e) => {
            return Err(e);
        },
    };
    let fee = match fee_dec.to_token_ceil() {
        Ok(x) => x,
        Err(e) => {
            return Err(e);
        },
    };
    let quote_after_fee = match quote_amount.sub(fee) {
        Ok(x) => x,
        Err(e) => {
            return Err(e);
        },
    };
    if current_time > u64::MAX - bond_sale.vesting_time {
        return Err(ErrorCode::ArithmeticOverflow);
    }
    let vesting_end: u64 = current_time + bond_sale.vesting_time;
    let new_quote_total = match updated.quote_amount.add(quote_after_fee) {
        Ok(x) => x,
        Err(e) => {
            return Err(e);
        },
    };
    let new_fee_total = match updated.fee_amount.add(fee) {
        Ok(x) => x,
        Err(e) => {
            return Err(e);
        },
    };
    updated.quote_amount = new_quote_total;
    updated.fee_amount = new_fee_total;
    let bond = Bond {
        bond_sale: sale_address,
        owner,
        bond_amount: TokenAmount::new(amount),
        last_claim: current_time,
        vesting_start: current_time,
        vesting_end,
    };
    *bond_sale = updated;
    Ok((bond, quote_amount))
}

/// Releases the vested share to the position's owner: computes the
/// claimable amount, advances the claim cursor to the capped clock
/// reading, and returns the amount to transfer. On any error the
/// position is left untouched.
pub fn claim_bond(bond: &mut Bond, current_time: u64) -> (r: Result<TokenAmount, ErrorCode>)
    ensures
        r == old(bond).claim_spec(current_time),
        r is Ok ==> *final(bond) == (Bond {
            last_claim: (if current_time < old(bond).vesting_end {
                current_time
            } else {
                old(bond).vesting_end
            }),
            ..*old(bond)
        }),
        r is Err ==> *final(bond) == *old(bond),
        r is Ok ==> old(bond).last_claim <= final(bond).last_claim <= final(bond).vesting_end,
        r is Ok && old(bond).wf() ==> final(bond).wf(),
{
    let amount = match bond.get_amount_to_claim(current_time) {
        Ok(a) => a,
        Err(e) => {
            return Err(e);
        },
    };
    bond.last_claim = if current_time < bond.vesting_end {
        current_time
    } else {
        bond.vesting_end
    };
    Ok(amount)
}

/// Sweeps the accrued net proceeds to the sale's payer: returns the
/// amount to transfer and resets the counter to zero atomically with
/// it.
pub fn claim_quote(bond_sale: &mut BondSale) -> (r: TokenAmount)
    ensures
        r == old(bond_sale).quote_amount,
        *final(bond_sale) == (BondSale { quote_amount: (TokenAmount { v: 0 }), ..*old(bond_sale) }),
{
    let amount = bond_sale.quote_amount;
    bond_sale.quote_amount = TokenAmount::new(0);
    amount
}

/// Sweeps the accrued protocol fees to the administrator: returns the
/// amount to transfer and resets the counter to zero atomically with
/// it.
pub fn withdraw_fee(bond_sale: &mut BondSale) -> (r: TokenAmount)
    ensures
        r == old(bond_sale).fee_amount,
        *final(bond_sale) == (BondSale { fee_amount: (TokenAmount { v: 0 }), ..*old(bond_sale) }),
{
    let amount = bond_sale.fee_amount;
    bond_sale.fee_amount = TokenAmount::new(0);
    amount
}

/// Overwrites the decay rate.
pub fn change_velocity(bond_sale: &mut BondSale, velocity: u128)
    ensures
        *final(bond_sale) == (BondSale { velocity: (Decimal { v: velocity }), ..*old(bond_sale) }),
{
    bond_sale.velocity = Decimal::new(velocity);
}

/// Overwrites the fractional price ceiling above the floor.
pub fn change_up_bound(bond_sale: &mut BondSale, up_bound: u128)
    ensures
        *final(bond_sale) == (BondSale { up_bound: (Decimal { v: up_bound }), ..*old(bond_sale) }),
{
    bond_sale.up_bound = Decimal::new(up_bound);
}

/// Overwrites the protocol fee fraction.
pub fn change_fee(bond_sale: &mut BondSale, new_fee: u128)
    ensures
        *final(bond_sale) == (BondSale { fee: (Decimal { v: new_fee }), ..*old(bond_sale) }),
{
    bond_sale.fee = Decimal::new(new_fee);
}

/// Ends the sale: returns the accrued proceeds, the unsold bond
/// remainder and the accrued fees, in that order, for the collaborator
/// to sweep, and clears the record for reclamation.
pub fn end_bond_sale(bond_sale: &mut BondSale) -> (r: (TokenAmount, TokenAmount, TokenAmount))
    ensures
        r.0 == old(bond_sale).quote_amount,
        r.1 == old(bond_sale).remaining_amount,
        r.2 == old(bond_sale).fee_amount,
        final(bond_sale).token_bond.is_zero_spec(),
        final(bond_sale).token_quote.is_zero_spec(),
        final(bond_sale).token_bond_account.is_zero_spec(),
        final(bond_sale).token_quote_account.is_zero_spec(),
        final(bond_sale).payer.is_zero_spec(),
        final(bond_sale).fee.v == 0,
        final(bond_sale).fee_amount.v == 0,
        final(bond_sale).floor_price.v == 0,
        final(bond_sale).previous_price.v == 0,
        final(bond_sale).up_bound.v == 0,
        final(bond_sale).velocity.v == 0,
        final(bond_sale).supply.v == 0,
        final(bond_sale).remaining_amount.v == 0,
        final(bond_sale).quote_amount.v == 0,
        final(bond_sale).end_time == 0,
        final(bond_sale).start_time == 0,
        final(bond_sale).last_trade == 0,
        final(bond_sale).vesting_time == 0,
{
    let quote = bond_sale.quote_amount;
    let remaining = bond_sale.remaining_amount;
    let fee = bond_sale.fee_amount;
    *bond_sale = BondSale::default();
    (quote, remaining, fee)
}

} // verus!
