//! Error kinds surfaced by the engine's fallible operations.

use vstd::prelude::*;

verus! {

/// The reason an operation was aborted. Every operation either fully
/// succeeds or fails with one of these kinds and leaves its inputs
/// unchanged.
#[derive(Debug, Clone, Copy, PartialEq, Eq, Structural)]
pub enum ErrorCode {
    /// The bond and quote token identities do not form a valid pair.
    InvalidTokenPair,
    /// A purchase asked for more than the sale's remaining amount.
    InsufficientSupply,
    /// A claim was attempted after the vesting window was exhausted.
    VestingEnded,
    /// The computed execution price exceeds the buyer's price limit.
    PriceLimitExceeded,
    /// An intermediate or final value does not fit its integer width.
    ArithmeticOverflow,
    /// A divisor (supply, sale duration, vesting duration, ...) was zero.
    DivisionByZero,
}

} // verus!
