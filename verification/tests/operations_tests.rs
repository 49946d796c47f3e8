use bonds::address::Address;
use bonds::bond_sale::BondSale;
use bonds::decimal::Decimal;
use bonds::errors::ErrorCode;
use bonds::operations::{
    change_fee, change_up_bound, change_velocity, claim_bond, claim_quote, create_bond,
    create_state, end_bond_sale, init_bond_sale, withdraw_fee,
};
use bonds::token_amount::TokenAmount;

fn addr(tag: u8) -> Address {
    Address::new([tag; 32])
}

fn open_sale() -> BondSale {
    // ten percent fee, flat price of 2.5 (zero up-bound, so no jump)
    BondSale {
        fee: Decimal::from_decimal(1, 1),
        floor_price: Decimal::from_decimal(25, 1),
        previous_price: Decimal::from_decimal(25, 1),
        up_bound: Decimal::new(0),
        velocity: Decimal::one(),
        supply: TokenAmount::new(100),
        remaining_amount: TokenAmount::new(100),
        end_time: 604800,
        ..Default::default()
    }
}

#[test]
fn purchase_fee_rounds_against_the_buyer() {
    // quote_cost = ceil(10 * 2.5) = 25, fee = ceil(2.5) = 3, net = 22
    let mut sale = open_sale();
    let (bond, quote_cost) =
        create_bond(&mut sale, addr(1), addr(2), 10, u128::MAX, 0).unwrap();
    assert_eq!(quote_cost, TokenAmount::new(25));
    assert_eq!(sale.fee_amount, TokenAmount::new(3));
    assert_eq!(sale.quote_amount, TokenAmount::new(22));
    assert_eq!(sale.remaining_amount, TokenAmount::new(90));
    assert_eq!(bond.bond_amount, TokenAmount::new(10));
    assert_eq!(bond.last_claim, 0);
    assert_eq!(bond.vesting_start, 0);
}

#[test]
fn purchase_rejects_oversized_amount() {
    let mut sale = open_sale();
    assert!(matches!(
        create_bond(&mut sale, addr(1), addr(2), 101, u128::MAX, 0),
        Err(ErrorCode::InsufficientSupply)
    ));
    assert_eq!(sale.remaining_amount, TokenAmount::new(100));
}

#[test]
fn purchase_rejects_price_above_limit() {
    let mut sale = open_sale();
    // execution price is 2.5, limit of 2.4 is exceeded
    assert!(matches!(
        create_bond(&mut sale, addr(1), addr(2), 10, 2_400_000_000_000, 0),
        Err(ErrorCode::PriceLimitExceeded)
    ));
    assert_eq!(sale.remaining_amount, TokenAmount::new(100));
    assert_eq!(sale.quote_amount, TokenAmount::new(0));
}

#[test]
fn init_bond_sale_opens_at_the_floor() {
    let sale = init_bond_sale(
        addr(1),
        addr(2),
        addr(3),
        addr(4),
        addr(5),
        2_000_000_000_000,
        3_000_000_000_000,
        1_000_000_000_000,
        1_000_000,
        604800,
        86400,
        1000,
    )
    .unwrap();
    assert_eq!(sale.floor_price, Decimal::from_integer(2));
    assert_eq!(sale.previous_price, Decimal::from_integer(2));
    assert_eq!(sale.supply, TokenAmount::new(1_000_000));
    assert_eq!(sale.remaining_amount, TokenAmount::new(1_000_000));
    assert_eq!(sale.fee, Decimal::from_decimal(1, 1));
    assert_eq!(sale.fee_amount, TokenAmount::new(0));
    assert_eq!(sale.quote_amount, TokenAmount::new(0));
    assert_eq!(sale.start_time, 1000);
    assert_eq!(sale.last_trade, 1000);
    assert_eq!(sale.end_time, 1000 + 604800);
    assert_eq!(sale.vesting_time, 86400);
}

#[test]
fn init_bond_sale_rejects_window_past_the_clock() {
    assert!(matches!(
        init_bond_sale(
            addr(1),
            addr(2),
            addr(3),
            addr(4),
            addr(5),
            0,
            0,
            0,
            0,
            u64::MAX,
            0,
            1,
        ),
        Err(ErrorCode::ArithmeticOverflow)
    ));
}

#[test]
fn claim_advances_the_cursor_and_pays_out_once() {
    let mut sale = open_sale();
    let (mut bond, _) = create_bond(&mut sale, addr(1), addr(2), 100, u128::MAX, 0).unwrap();
    // vesting_time is zero here, so set up a window by hand instead
    bond.vesting_end = 10;
    assert_eq!(claim_bond(&mut bond, 5).unwrap(), TokenAmount::new(50));
    assert_eq!(bond.last_claim, 5);
    // nothing more has vested at the same instant
    assert_eq!(claim_bond(&mut bond, 5).unwrap(), TokenAmount::new(0));
    // the rest vests by the end of the window, even read much later
    assert_eq!(claim_bond(&mut bond, 100).unwrap(), TokenAmount::new(50));
    assert_eq!(bond.last_claim, 10);
    // the window is exhausted: the cursor has reached its end
    assert!(matches!(
        claim_bond(&mut bond, 100),
        Err(ErrorCode::VestingEnded)
    ));
}

#[test]
fn sweeps_reset_their_counters() {
    let mut sale = open_sale();
    create_bond(&mut sale, addr(1), addr(2), 10, u128::MAX, 0).unwrap();
    assert_eq!(claim_quote(&mut sale), TokenAmount::new(22));
    assert_eq!(sale.quote_amount, TokenAmount::new(0));
    assert_eq!(withdraw_fee(&mut sale), TokenAmount::new(3));
    assert_eq!(sale.fee_amount, TokenAmount::new(0));
}

#[test]
fn parameter_changes_overwrite_their_fields() {
    let mut sale = open_sale();
    change_velocity(&mut sale, 7);
    change_up_bound(&mut sale, 8);
    change_fee(&mut sale, 9);
    assert_eq!(sale.velocity, Decimal::new(7));
    assert_eq!(sale.up_bound, Decimal::new(8));
    assert_eq!(sale.fee, Decimal::new(9));
    // nothing else moved
    assert_eq!(sale.floor_price, Decimal::from_decimal(25, 1));
    assert_eq!(sale.supply, TokenAmount::new(100));
}

#[test]
fn end_bond_sale_returns_balances_and_clears_the_record() {
    let mut sale = open_sale();
    create_bond(&mut sale, addr(1), addr(2), 10, u128::MAX, 0).unwrap();
    let (quote, remaining, fee) = end_bond_sale(&mut sale);
    assert_eq!(quote, TokenAmount::new(22));
    assert_eq!(remaining, TokenAmount::new(90));
    assert_eq!(fee, TokenAmount::new(3));
    assert_eq!(sale.supply, TokenAmount::new(0));
    assert_eq!(sale.remaining_amount, TokenAmount::new(0));
    assert_eq!(sale.quote_amount, TokenAmount::new(0));
    assert_eq!(sale.fee_amount, TokenAmount::new(0));
    assert_eq!(sale.end_time, 0);
}

#[test]
fn create_state_starts_counting_at_zero() {
    let state = create_state(addr(1), addr(2), 3, 4);
    assert_eq!(state.next_bond_sale, 0);
    assert_eq!(state.nonce, 3);
    assert_eq!(state.bump, 4);
}

#[test]
fn decimal_errors_name_their_cause() {
    assert!(matches!(
        Decimal::new(u128::MAX).add(Decimal::new(1)),
        Err(ErrorCode::ArithmeticOverflow)
    ));
    assert!(matches!(
        Decimal::new(0).sub(Decimal::new(1)),
        Err(ErrorCode::ArithmeticOverflow)
    ));
    assert!(matches!(
        Decimal::one().div(Decimal::new(0)),
        Err(ErrorCode::DivisionByZero)
    ));
    assert!(matches!(
        Decimal::new(u128::MAX).mul(Decimal::new(2)),
        Err(ErrorCode::ArithmeticOverflow)
    ));
    assert!(matches!(
        TokenAmount::new(1).percent(TokenAmount::new(0)),
        Err(ErrorCode::DivisionByZero)
    ));
    assert!(matches!(
        Decimal::new(u128::MAX).sqrt(),
        Err(ErrorCode::ArithmeticOverflow)
    ));
}

#[test]
fn sqrt_is_exact_on_perfect_squares() {
    assert_eq!(
        Decimal::from_integer(4).sqrt().unwrap(),
        Decimal::from_integer(2)
    );
    assert_eq!(
        Decimal::from_integer(9).sqrt().unwrap(),
        Decimal::from_integer(3)
    );
    // 2.25 has the exact root 1.5
    assert_eq!(
        Decimal::from_decimal(225, 2).sqrt().unwrap(),
        Decimal::from_decimal(15, 1)
    );
}

#[test]
fn floor_and_ceil_stay_within_one_unit() {
    for v in [0u128, 1, 999_999_999_999, 1_000_000_000_000, 1_000_000_000_001, 2_500_000_000_000] {
        let d = Decimal::new(v);
        let floor = d.to_token_floor().unwrap();
        let ceil = d.to_token_ceil().unwrap();
        assert!(floor.v <= ceil.v);
        assert!(ceil.v - floor.v <= 1);
        assert_eq!(floor.v == ceil.v, v % 1_000_000_000_000 == 0);
    }
}

#[test]
fn cumulative_claims_never_exceed_the_bond() {
    // Claims early in the window round down; the dust stays unclaimed
    // unless the final claim lands at or past the window's end.
    let mut bond = bonds::bond::Bond::default();
    bond.bond_amount = TokenAmount::new(100);
    bond.vesting_start = 0;
    bond.vesting_end = 3;
    let mut total: u64 = 0;
    for t in [1u64, 2, 3] {
        total += claim_bond(&mut bond, t).unwrap().v;
    }
    assert_eq!(total, 99);
    assert!(total <= bond.bond_amount.v);
}

#[test]
fn claimable_grows_with_the_clock() {
    let mut bond = bonds::bond::Bond::default();
    bond.bond_amount = TokenAmount::new(100);
    bond.vesting_start = 0;
    bond.vesting_end = 10;
    let mut previous: u64 = 0;
    for t in [0u64, 3, 5, 9, 10, 50] {
        let now = bond.get_amount_to_claim(t).unwrap().v;
        assert!(now >= previous);
        previous = now;
    }
    assert_eq!(previous, 100);
}

#[test]
fn adding_then_subtracting_restores_the_value() {
    let a = Decimal::new(87932487422289);
    let b = Decimal::new(982383286787);
    let sum = a.add(b).unwrap();
    assert_eq!(sum.sub(b).unwrap(), a);
}
