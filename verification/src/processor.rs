//! The operations of the market state machine.
//!
//! An operation checks its preconditions against the record, updates the
//! record and returns the ledger calls that belong to the update. The caller
//! carries the calls out in order; the update of the record and the calls
//! commit together or not at all. A rejected operation returns no call and
//! leaves the record as it was.

use anchor_lang::prelude::Pubkey;
use vstd::prelude::*;
use crate::error::PredictionMarketError;
use crate::ledger::{Authority, LedgerCall, UserAccounts};
use crate::state::{Market, WinningOutcome};

verus! {

/// The record of a market as it is created: nothing locked, not settled.
pub open spec fn new_market(
    authority: Pubkey,
    market_id: u32,
    settlement_deadline: i64,
    outcome_a_mint: Pubkey,
    outcome_b_mint: Pubkey,
    collateral_mint: Pubkey,
    collateral_vault: Pubkey,
    bump: u8,
) -> Market {
    Market {
        authority,
        market_id,
        settlement_deadline,
        outcome_a_mint,
        outcome_b_mint,
        collateral_mint,
        collateral_vault,
        is_settled: false,
        winning_outcome: None,
        total_collateral_locked: 0,
        bump,
    }
}

/// Creates the record of a market whose deadline lies after `now`. The four
/// resources are recorded, not created; the ledger is not called.
pub fn initialize_market(
    authority: Pubkey,
    market_id: u32,
    settlement_deadline: i64,
    outcome_a_mint: Pubkey,
    outcome_b_mint: Pubkey,
    collateral_mint: Pubkey,
    collateral_vault: Pubkey,
    bump: u8,
    now: i64,
) -> (res: Result<Market, PredictionMarketError>)
    ensures
        settlement_deadline <= now ==> res == Err::<Market, _>(
            PredictionMarketError::InvalidSettlementDeadline,
        ),
        settlement_deadline > now ==> res == Ok::<_, PredictionMarketError>(
            new_market(
                authority,
                market_id,
                settlement_deadline,
                outcome_a_mint,
                outcome_b_mint,
                collateral_mint,
                collateral_vault,
                bump,
            ),
        ),
{
    if settlement_deadline <= now {
        return Err(PredictionMarketError::InvalidSettlementDeadline);
    }
    Ok(
        Market {
            authority,
            market_id,
            settlement_deadline,
            outcome_a_mint,
            outcome_b_mint,
            collateral_mint,
            collateral_vault,
            is_settled: false,
            winning_outcome: None,
            total_collateral_locked: 0,
            bump,
        },
    )
}

/// Why a split of `amount` is rejected, if it is: the market is settled; else
/// its deadline has been reached; else the amount is zero; else the collateral
/// counter cannot take the amount.
pub open spec fn split_refusal(market: Market, now: i64, amount: u64) -> Option<
    PredictionMarketError,
> {
    if market.closed_reason(now) is Some {
        market.closed_reason(now)
    } else if amount == 0 {
        Some(PredictionMarketError::InvalidAmount)
    } else if market.total_collateral_locked + amount > u64::MAX {
        Some(PredictionMarketError::MathOverflow)
    } else {
        None
    }
}

/// The record after a split of `amount` was asked for: with `amount` more
/// locked where the split is accepted, unchanged where it is rejected.
pub open spec fn after_split(market: Market, now: i64, amount: u64) -> Market {
    if split_refusal(market, now, amount) is None {
        market.with_locked((market.total_collateral_locked + amount) as u64)
    } else {
        market
    }
}

/// The ledger calls of a split of `amount`: take the collateral into the
/// vault, then issue the same amount of each outcome claim to the caller.
pub open spec fn split_calls(market: Market, user: UserAccounts, amount: u64) -> Seq<LedgerCall> {
    seq![
        LedgerCall::Transfer {
            resource: market.collateral_mint,
            from: user.collateral,
            to: market.collateral_vault,
            amount,
            authority: Authority::Wallet(user.user),
        },
        LedgerCall::MintTo {
            resource: market.outcome_a_mint,
            to: user.outcome_a,
            amount,
            authority: Authority::Market(market.signer_spec()),
        },
        LedgerCall::MintTo {
            resource: market.outcome_b_mint,
            to: user.outcome_b,
            amount,
            authority: Authority::Market(market.signer_spec()),
        },
    ]
}

/// Locks `amount` of the caller's collateral and issues them `amount` of each
/// outcome claim.
pub fn split_tokens(market: &mut Market, user: &UserAccounts, now: i64, amount: u64) -> (res:
    Result<Vec<LedgerCall>, PredictionMarketError>)
    ensures
        res is Ok <==> split_refusal(*old(market), now, amount) is None,
        res matches Err(e) ==> split_refusal(*old(market), now, amount) == Some(e),
        res matches Ok(calls) ==> calls@ == split_calls(*old(market), *user, amount),
        *final(market) == after_split(*old(market), now, amount),
{
    match market.require_open(now) {
        Err(e) => {
            return Err(e);
        },
        Ok(()) => {},
    }
    if amount == 0 {
        return Err(PredictionMarketError::InvalidAmount);
    }
    let signer = market.signer();
    let calls: Vec<LedgerCall> = vec![
        LedgerCall::Transfer {
            resource: market.collateral_mint,
            from: user.collateral,
            to: market.collateral_vault,
            amount,
            authority: Authority::Wallet(user.user),
        },
        LedgerCall::MintTo {
            resource: market.outcome_a_mint,
            to: user.outcome_a,
            amount,
            authority: Authority::Market(signer),
        },
        LedgerCall::MintTo {
            resource: market.outcome_b_mint,
            to: user.outcome_b,
            amount,
            authority: Authority::Market(signer),
        },
    ];
    assert(calls@ =~= split_calls(*old(market), *user, amount));
    match market.lock_collateral(amount) {
        Err(e) => Err(e),
        Ok(()) => Ok(calls),
    }
}

/// The number of matched pairs in a holding of `balance_a` claims on outcome
/// A and `balance_b` claims on outcome B: the smaller of the two.
pub open spec fn matched_pairs(balance_a: u64, balance_b: u64) -> u64 {
    if balance_a <= balance_b {
        balance_a
    } else {
        balance_b
    }
}

/// Why a merge is rejected, if it is: the market is settled; else its
/// deadline has been reached; else the caller holds no matched pair; else the
/// record has less collateral locked than the pairs stand for.
pub open spec fn merge_refusal(market: Market, now: i64, balance_a: u64, balance_b: u64) -> Option<
    PredictionMarketError,
> {
    if market.closed_reason(now) is Some {
        market.closed_reason(now)
    } else if matched_pairs(balance_a, balance_b) == 0 {
        Some(PredictionMarketError::InvalidAmount)
    } else if matched_pairs(balance_a, balance_b) > market.total_collateral_locked {
        Some(PredictionMarketError::MathOverflow)
    } else {
        None
    }
}

/// The record after a merge was asked for: with the collateral of the
/// caller's matched pairs released where the merge is accepted, unchanged
/// where it is rejected.
pub open spec fn after_merge(market: Market, now: i64, balance_a: u64, balance_b: u64) -> Market {
    if merge_refusal(market, now, balance_a, balance_b) is None {
        market.with_locked(
            (market.total_collateral_locked - matched_pairs(balance_a, balance_b)) as u64,
        )
    } else {
        market
    }
}

/// The ledger calls of a merge of `amount` matched pairs: burn the claims on
/// A, burn the claims on B, pay the collateral out of the vault.
pub open spec fn merge_calls(market: Market, user: UserAccounts, amount: u64) -> Seq<LedgerCall> {
    seq![
        LedgerCall::Burn {
            resource: market.outcome_a_mint,
            from: user.outcome_a,
            amount,
            authority: Authority::Wallet(user.user),
        },
        LedgerCall::Burn {
            resource: market.outcome_b_mint,
            from: user.outcome_b,
            amount,
            authority: Authority::Wallet(user.user),
        },
        LedgerCall::Transfer {
            resource: market.collateral_mint,
            from: market.collateral_vault,
            to: user.collateral,
            amount,
            authority: Authority::Market(market.signer_spec()),
        },
    ]
}

/// Redeems every matched pair of outcome claims that the caller holds for
/// collateral. `balance_a` and `balance_b` are the caller's holdings of the
/// two claims as the ledger shows them at the time of the call.
pub fn merge_tokens(
    market: &mut Market,
    user: &UserAccounts,
    now: i64,
    balance_a: u64,
    balance_b: u64,
) -> (res: Result<Vec<LedgerCall>, PredictionMarketError>)
    ensures
        res is Ok <==> merge_refusal(*old(market), now, balance_a, balance_b) is None,
        res matches Err(e) ==> merge_refusal(*old(market), now, balance_a, balance_b) == Some(e),
        res matches Ok(calls) ==> calls@ == merge_calls(
            *old(market),
            *user,
            matched_pairs(balance_a, balance_b),
        ),
        *final(market) == after_merge(*old(market), now, balance_a, balance_b),
{
    match market.require_open(now) {
        Err(e) => {
            return Err(e);
        },
        Ok(()) => {},
    }
    let amount: u64 = if balance_a <= balance_b {
        balance_a
    } else {
        balance_b
    };
    if amount == 0 {
        return Err(PredictionMarketError::InvalidAmount);
    }
    let signer = market.signer();
    let calls: Vec<LedgerCall> = vec![
        LedgerCall::Burn {
            resource: market.outcome_a_mint,
            from: user.outcome_a,
            amount,
            authority: Authority::Wallet(user.user),
        },
        LedgerCall::Burn {
            resource: market.outcome_b_mint,
            from: user.outcome_b,
            amount,
            authority: Authority::Wallet(user.user),
        },
        LedgerCall::Transfer {
            resource: market.collateral_mint,
            from: market.collateral_vault,
            to: user.collateral,
            amount,
            authority: Authority::Market(signer),
        },
    ];
    assert(calls@ =~= merge_calls(*old(market), *user, amount));
    match market.release_collateral(amount) {
        Err(e) => Err(e),
        Ok(()) => Ok(calls),
    }
}

/// The record after a settlement on `winner` was asked for: settled on
/// `winner` where the settlement is accepted, unchanged where it is rejected.
pub open spec fn after_settle(market: Market, now: i64, winner: WinningOutcome) -> Market {
    if market.closed_reason(now) is None {
        market.settled_on(winner)
    } else {
        market
    }
}

/// The ledger calls of a settlement: the market gives up, for good, its right
/// to issue either outcome claim.
pub open spec fn settle_calls(market: Market) -> Seq<LedgerCall> {
    seq![
        LedgerCall::SetAuthority {
            resource: market.outcome_a_mint,
            current: Authority::Market(market.signer_spec()),
            new_authority: None,
        },
        LedgerCall::SetAuthority {
            resource: market.outcome_b_mint,
            current: Authority::Market(market.signer_spec()),
            new_authority: None,
        },
    ]
}

/// Declares `winner` and closes the market for good. It is rejected where
/// the market is settled already and, else, where its deadline has been
/// reached; no winner is rejected as invalid, since the type admits the two
/// outcomes only.
pub fn set_winning_side(market: &mut Market, now: i64, winner: WinningOutcome) -> (res: Result<
    Vec<LedgerCall>,
    PredictionMarketError,
>)
    ensures
        res is Ok <==> old(market).closed_reason(now) is None,
        res matches Err(e) ==> old(market).closed_reason(now) == Some(e),
        res matches Ok(calls) ==> calls@ == settle_calls(*old(market)),
        *final(market) == after_settle(*old(market), now, winner),
{
    match market.require_open(now) {
        Err(e) => {
            return Err(e);
        },
        Ok(()) => {},
    }
    market.is_settled = true;
    market.winning_outcome = Some(winner);
    let signer = market.signer();
    let calls: Vec<LedgerCall> = vec![
        LedgerCall::SetAuthority {
            resource: market.outcome_a_mint,
            current: Authority::Market(signer),
            new_authority: None,
        },
        LedgerCall::SetAuthority {
            resource: market.outcome_b_mint,
            current: Authority::Market(signer),
            new_authority: None,
        },
    ];
    assert(calls@ =~= settle_calls(*old(market)));
    Ok(calls)
}

/// The resource of the claim on `outcome`.
pub open spec fn outcome_mint(market: Market, outcome: WinningOutcome) -> Pubkey {
    match outcome {
        WinningOutcome::OutcomeA => market.outcome_a_mint,
        WinningOutcome::OutcomeB => market.outcome_b_mint,
    }
}

/// The caller's account for the claim on `outcome`.
pub open spec fn outcome_account(user: UserAccounts, outcome: WinningOutcome) -> Pubkey {
    match outcome {
        WinningOutcome::OutcomeA => user.outcome_a,
        WinningOutcome::OutcomeB => user.outcome_b,
    }
}

/// What a holder of `balance_a` claims on A and `balance_b` claims on B can
/// redeem once `winner` has been declared: all of the winning claim.
pub open spec fn claim_amount(winner: WinningOutcome, balance_a: u64, balance_b: u64) -> u64 {
    match winner {
        WinningOutcome::OutcomeA => balance_a,
        WinningOutcome::OutcomeB => balance_b,
    }
}

/// Why a claim is rejected, if it is: the market is not settled; else the
/// record names no winner; else the record has less collateral locked than
/// the caller's winning claims stand for.
pub open spec fn claim_refusal(market: Market, balance_a: u64, balance_b: u64) -> Option<
    PredictionMarketError,
> {
    if !market.is_settled {
        Some(PredictionMarketError::MarketNotSettled)
    } else {
        match market.winning_outcome {
            None => Some(PredictionMarketError::WinningOutcomeNotSet),
            Some(winner) => if claim_amount(winner, balance_a, balance_b)
                > market.total_collateral_locked {
                Some(PredictionMarketError::MathOverflow)
            } else {
                None
            },
        }
    }
}

/// The record after a claim was asked for: with the collateral of the
/// caller's winning claims released where the claim is accepted, unchanged
/// where it is rejected.
pub open spec fn after_claim(market: Market, balance_a: u64, balance_b: u64) -> Market {
    if claim_refusal(market, balance_a, balance_b) is None {
        market.with_locked(
            (market.total_collateral_locked - claim_amount(
                market.winning_outcome.unwrap(),
                balance_a,
                balance_b,
            )) as u64,
        )
    } else {
        market
    }
}

/// The ledger calls of a claim of `amount` on `winner`: burn the caller's
/// winning claims, then pay the same amount of collateral out of the vault.
/// The losing claims are not touched.
pub open spec fn claim_calls(
    market: Market,
    user: UserAccounts,
    winner: WinningOutcome,
    amount: u64,
) -> Seq<LedgerCall> {
    seq![
        LedgerCall::Burn {
            resource: outcome_mint(market, winner),
            from: outcome_account(user, winner),
            amount,
            authority: Authority::Wallet(user.user),
        },
        LedgerCall::Transfer {
            resource: market.collateral_mint,
            from: market.collateral_vault,
            to: user.collateral,
            amount,
            authority: Authority::Market(market.signer_spec()),
        },
    ]
}

/// Redeems all of the caller's claims on the declared winner for collateral.
/// `balance_a` and `balance_b` are the caller's holdings of the two claims as
/// the ledger shows them at the time of the call. A caller who holds none of
/// the winning claim is not rejected: the calls then move nothing.
pub fn claim_rewards(market: &mut Market, user: &UserAccounts, balance_a: u64, balance_b: u64) -> (res:
    Result<Vec<LedgerCall>, PredictionMarketError>)
    ensures
        res is Ok <==> claim_refusal(*old(market), balance_a, balance_b) is None,
        res matches Err(e) ==> claim_refusal(*old(market), balance_a, balance_b) == Some(e),
        res matches Ok(calls) ==> old(market).winning_outcome matches Some(winner) && calls@
            == claim_calls(*old(market), *user, winner, claim_amount(winner, balance_a, balance_b)),
        *final(market) == after_claim(*old(market), balance_a, balance_b),
{
    if !market.is_settled {
        return Err(PredictionMarketError::MarketNotSettled);
    }
    let winner = match market.winning_outcome {
        Some(winner) => winner,
        None => {
            return Err(PredictionMarketError::WinningOutcomeNotSet);
        },
    };
    let (resource, from, amount) = match winner {
        WinningOutcome::OutcomeA => (market.outcome_a_mint, user.outcome_a, balance_a),
        WinningOutcome::OutcomeB => (market.outcome_b_mint, user.outcome_b, balance_b),
    };
    let signer = market.signer();
    let calls: Vec<LedgerCall> = vec![
        LedgerCall::Burn { resource, from, amount, authority: Authority::Wallet(user.user) },
        LedgerCall::Transfer {
            resource: market.collateral_mint,
            from: market.collateral_vault,
            to: user.collateral,
            amount,
            authority: Authority::Market(signer),
        },
    ];
    assert(calls@ =~= claim_calls(*old(market), *user, winner, amount));
    match market.release_collateral(amount) {
        Err(e) => Err(e),
        Ok(()) => Ok(calls),
    }
}

} // verus!
