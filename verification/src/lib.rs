//! A bonding-curve token sale engine: overflow-checked fixed-point
//! arithmetic, a time-decaying purchase-size-reactive price-update
//! algorithm, linear vesting accounting, and aggregate sale bookkeeping.
//!
//! The engine is pure: every operation takes the records it touches
//! and plain values, and either fully applies its effect or fails with
//! an [`errors::ErrorCode`] leaving the records untouched. Moving
//! tokens, checking ownership and reading the clock belong to the
//! surrounding ledger, which calls [`operations`] and performs the
//! transfers those functions return.

pub mod address;
pub mod bond;
pub mod bond_sale;
pub mod codec;
pub mod decimal;
pub mod errors;
mod isqrt;
pub mod math;
pub mod operations;
pub mod state;
pub mod token_amount;
mod wide;
