//! Error kinds returned by the market operations.

use vstd::prelude::*;

verus! {

/// Why an operation was rejected. Every rejection is final for the call and
/// leaves the market record as it was.
#[derive(Clone, Copy, Debug, PartialEq, Eq, Structural)]
pub enum PredictionMarketError {
    /// The settlement deadline given at creation is not in the future.
    InvalidSettlementDeadline,
    /// The market has a declared winner; it accepts no split, merge or settlement.
    MarketAlreadySettled,
    /// The settlement deadline has been reached.
    MarketExpired,
    /// The amount to split or merge is zero.
    InvalidAmount,
    /// The locked-collateral counter would leave the range of `u64`.
    MathOverflow,
    /// The declared winner is neither of the two outcomes.
    InvalidWinningOutcome,
    /// Rewards were claimed before a winner was declared.
    MarketNotSettled,
    /// The record is marked settled but holds no winner.
    WinningOutcomeNotSet,
}

} // verus!
