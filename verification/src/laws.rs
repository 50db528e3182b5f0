//! What holds of the operations together with the ledger.
//!
//! The laws on single operations take a record, the inputs of an operation
//! and a state of the ledger, and say what is true once the ledger has
//! carried out the calls that the operation returned. The laws on runs take
//! a sequence of requests and say what is true of the record, or of the
//! record and the ledger together, after all of them.

use anchor_lang::prelude::Pubkey;
use vstd::prelude::*;
use crate::error::PredictionMarketError;
use crate::ledger::{Authority, Ledger, LedgerCall, UserAccounts};
use crate::processor::{
    after_claim, after_merge, after_settle, after_split, claim_amount, claim_calls, claim_refusal,
    matched_pairs, merge_calls, merge_refusal, outcome_account, outcome_mint, settle_calls,
    split_calls, split_refusal,
};
use crate::state::{le_bytes, Market, MarketSigner, WinningOutcome};

verus! {

/// Signers with the same seeds are the same signer: no market's seeds sign
/// for another market.
pub proof fn law_seeds_identify_signer(first: MarketSigner, second: MarketSigner)
    requires
        le_bytes(first.market_id) == le_bytes(second.market_id),
        first.bump == second.bump,
    ensures
        first == second,
{
    let x = first.market_id;
    let y = second.market_id;
    assert(le_bytes(x)[0] == le_bytes(y)[0]);
    assert(le_bytes(x)[1] == le_bytes(y)[1]);
    assert(le_bytes(x)[2] == le_bytes(y)[2]);
    assert(le_bytes(x)[3] == le_bytes(y)[3]);
}

/// Calls change only what they name. Where the ledger carries out `calls`,
/// an account that none of them moves anything into or out of holds what it
/// held, and a resource that none of them concerns has as much outstanding
/// as before and the same issuer.
pub proof fn law_calls_leave_the_rest_alone(ledger: Ledger, calls: Seq<LedgerCall>, key: Pubkey)
    requires
        ledger.apply_all(calls) is Some,
    ensures
        (forall|i: int| 0 <= i < calls.len() ==> !(#[trigger] calls[i]).moves(key))
            ==> ledger.apply_all(calls).unwrap().balance_of(key) == ledger.balance_of(key),
        (forall|i: int| 0 <= i < calls.len() ==> !(#[trigger] calls[i]).concerns(key)) ==> {
            &&& ledger.apply_all(calls).unwrap().supply_of(key) == ledger.supply_of(key)
            &&& ledger.apply_all(calls).unwrap().issuer_of(key) == ledger.issuer_of(key)
        },
    decreases calls.len(),
{
    if calls.len() > 0 {
        let next = ledger.apply(calls[0]).unwrap();
        let rest = calls.subrange(1, calls.len() as int);
        law_calls_leave_the_rest_alone(next, rest, key);
        assert forall|i: int| 0 <= i < rest.len() implies rest[i] == calls[i + 1] by {}
        if forall|i: int| 0 <= i < calls.len() ==> !(#[trigger] calls[i]).moves(key) {
            assert(!calls[0].moves(key));
            assert forall|i: int| 0 <= i < rest.len() implies !(#[trigger] rest[i]).moves(key) by {
                assert(rest[i] == calls[i + 1]);
            }
        }
        if forall|i: int| 0 <= i < calls.len() ==> !(#[trigger] calls[i]).concerns(key) {
            assert(!calls[0].concerns(key));
            assert forall|i: int| 0 <= i < rest.len() implies !(#[trigger] rest[i]).concerns(
                key,
            ) by {
                assert(rest[i] == calls[i + 1]);
            }
        }
    }
}

/// The accounts of one operation do not coincide: the two outcome claims are
/// different resources, and the vault and the caller's three accounts are four
/// different accounts.
pub open spec fn accounts_apart(market: Market, user: UserAccounts) -> bool {
    &&& market.outcome_a_mint != market.outcome_b_mint
    &&& user.collateral != market.collateral_vault
    &&& user.outcome_a != market.collateral_vault
    &&& user.outcome_b != market.collateral_vault
    &&& user.outcome_a != user.collateral
    &&& user.outcome_b != user.collateral
    &&& user.outcome_a != user.outcome_b
}

/// Two calls take effect one after the other.
proof fn lemma_apply_two(ledger: Ledger, first: LedgerCall, second: LedgerCall)
    ensures
        ledger.apply_all(seq![first, second]) == match ledger.apply(first) {
            Some(next) => next.apply(second),
            None => None,
        },
{
    let calls = seq![first, second];
    reveal_with_fuel(Ledger::apply_all, 3);
    assert(calls.subrange(1, 2) =~= seq![second]);
    assert(seq![second].subrange(1, 1) =~= Seq::<LedgerCall>::empty());
    assert(calls[0] == first);
    assert(seq![second][0] == second);
}

/// Three calls take effect one after the other.
proof fn lemma_apply_three(ledger: Ledger, first: LedgerCall, second: LedgerCall, third: LedgerCall)
    ensures
        ledger.apply_all(seq![first, second, third]) == match ledger.apply(first) {
            Some(next) => next.apply_all(seq![second, third]),
            None => None,
        },
{
    let calls = seq![first, second, third];
    assert(calls.subrange(1, 3) =~= seq![second, third]);
    assert(calls[0] == first);
}

/// An accepted split whose calls the ledger carries out takes `amount` of
/// collateral from the caller into the vault, gives the caller `amount` more
/// of each outcome claim, puts `amount` more of each claim in circulation,
/// and raises the collateral counter by `amount`.
pub proof fn law_split_moves_balances(
    market: Market,
    user: UserAccounts,
    now: i64,
    amount: u64,
    before: Ledger,
)
    requires
        accounts_apart(market, user),
        split_refusal(market, now, amount) is None,
        before.apply_all(split_calls(market, user, amount)) is Some,
    ensures
        ({
            let after = before.apply_all(split_calls(market, user, amount)).unwrap();
            &&& after.balance_of(user.collateral) == before.balance_of(user.collateral) - amount
            &&& after.balance_of(user.outcome_a) == before.balance_of(user.outcome_a) + amount
            &&& after.balance_of(user.outcome_b) == before.balance_of(user.outcome_b) + amount
            &&& after.balance_of(market.collateral_vault) == before.balance_of(
                market.collateral_vault,
            ) + amount
            &&& after.supply_of(market.outcome_a_mint) == before.supply_of(market.outcome_a_mint)
                + amount
            &&& after.supply_of(market.outcome_b_mint) == before.supply_of(market.outcome_b_mint)
                + amount
            &&& after_split(market, now, amount).total_collateral_locked
                == market.total_collateral_locked + amount
        }),
{
    let calls = split_calls(market, user, amount);
    lemma_apply_three(before, calls[0], calls[1], calls[2]);
    assert(calls =~= seq![calls[0], calls[1], calls[2]]);
    let first = before.apply(calls[0]).unwrap();
    lemma_apply_two(first, calls[1], calls[2]);
}

/// An accepted merge whose calls the ledger carries out redeems the matched
/// pairs that the caller held before the call: it takes that many claims of
/// each outcome from the caller and out of circulation, pays the caller that
/// much collateral out of the vault, and lowers the collateral counter by as
/// much.
pub proof fn law_merge_moves_balances(
    market: Market,
    user: UserAccounts,
    now: i64,
    balance_a: u64,
    balance_b: u64,
    before: Ledger,
)
    requires
        accounts_apart(market, user),
        balance_a == before.balance_of(user.outcome_a),
        balance_b == before.balance_of(user.outcome_b),
        merge_refusal(market, now, balance_a, balance_b) is None,
        before.apply_all(merge_calls(market, user, matched_pairs(balance_a, balance_b))) is Some,
    ensures
        ({
            let amount = matched_pairs(balance_a, balance_b);
            let after = before.apply_all(merge_calls(market, user, amount)).unwrap();
            &&& amount > 0
            &&& amount <= balance_a
            &&& amount <= balance_b
            &&& amount == balance_a || amount == balance_b
            &&& after.balance_of(user.outcome_a) == before.balance_of(user.outcome_a) - amount
            &&& after.balance_of(user.outcome_b) == before.balance_of(user.outcome_b) - amount
            &&& after.balance_of(user.collateral) == before.balance_of(user.collateral) + amount
            &&& after.balance_of(market.collateral_vault) == before.balance_of(
                market.collateral_vault,
            ) - amount
            &&& after.supply_of(market.outcome_a_mint) == before.supply_of(market.outcome_a_mint)
                - amount
            &&& after.supply_of(market.outcome_b_mint) == before.supply_of(market.outcome_b_mint)
                - amount
            &&& after_merge(market, now, balance_a, balance_b).total_collateral_locked
                == market.total_collateral_locked - amount
        }),
{
    let calls = merge_calls(market, user, matched_pairs(balance_a, balance_b));
    lemma_apply_three(before, calls[0], calls[1], calls[2]);
    assert(calls =~= seq![calls[0], calls[1], calls[2]]);
    let first = before.apply(calls[0]).unwrap();
    lemma_apply_two(first, calls[1], calls[2]);
}

/// On a market that is open, a caller who holds none of one outcome claim has
/// no matched pair, and their merge is rejected with `InvalidAmount`.
pub proof fn law_merge_needs_a_pair(market: Market, now: i64, balance_a: u64, balance_b: u64)
    requires
        market.closed_reason(now) is None,
        balance_a == 0 || balance_b == 0,
    ensures
        merge_refusal(market, now, balance_a, balance_b) == Some(
            PredictionMarketError::InvalidAmount,
        ),
        after_merge(market, now, balance_a, balance_b) == market,
{
}

/// A split followed by a merge undoes itself. Let a caller who holds none of
/// at least one outcome claim split `amount`, and let the ledger carry the
/// split out. Then a merge before the deadline is accepted, it redeems exactly
/// `amount` pairs, the ledger carries it out, and afterwards the caller's
/// three balances, the vault, the claims in circulation and the whole record
/// are as they were before the split. A caller who held no claims holds none
/// again.
pub proof fn law_split_then_merge_restores(
    market: Market,
    user: UserAccounts,
    now: i64,
    later: i64,
    amount: u64,
    balance_a: u64,
    balance_b: u64,
    start: Ledger,
)
    requires
        accounts_apart(market, user),
        start.balance_of(user.outcome_a) == 0 || start.balance_of(user.outcome_b) == 0,
        split_refusal(market, now, amount) is None,
        later < market.settlement_deadline,
        start.apply_all(split_calls(market, user, amount)) matches Some(mid) && balance_a
            == mid.balance_of(user.outcome_a) && balance_b == mid.balance_of(user.outcome_b),
    ensures
        ({
            let mid = start.apply_all(split_calls(market, user, amount)).unwrap();
            let locked = after_split(market, now, amount);
            &&& merge_refusal(locked, later, balance_a, balance_b) is None
            &&& matched_pairs(balance_a, balance_b) == amount
            &&& after_merge(locked, later, balance_a, balance_b) == market
            &&& mid.apply_all(merge_calls(locked, user, amount)) matches Some(end)
                && end.balance_of(user.collateral) == start.balance_of(user.collateral)
                && end.balance_of(user.outcome_a) == start.balance_of(user.outcome_a)
                && end.balance_of(user.outcome_b) == start.balance_of(user.outcome_b)
                && end.balance_of(market.collateral_vault) == start.balance_of(
                market.collateral_vault,
            ) && end.supply_of(market.outcome_a_mint) == start.supply_of(market.outcome_a_mint)
                && end.supply_of(market.outcome_b_mint) == start.supply_of(market.outcome_b_mint)
        }),
{
    law_split_moves_balances(market, user, now, amount, start);
    let mid = start.apply_all(split_calls(market, user, amount)).unwrap();
    let locked = after_split(market, now, amount);
    let calls = merge_calls(locked, user, amount);
    lemma_apply_three(mid, calls[0], calls[1], calls[2]);
    assert(calls =~= seq![calls[0], calls[1], calls[2]]);
    let first = mid.apply(calls[0]).unwrap();
    lemma_apply_two(first, calls[1], calls[2]);
    law_merge_moves_balances(locked, user, later, balance_a, balance_b, mid);
}

/// Settlement happens once. After an accepted settlement on `winner`, a
/// second settlement, on whatever outcome and at whatever time, is rejected
/// with `MarketAlreadySettled`, and the record still names `winner`.
pub proof fn law_settle_only_once(
    market: Market,
    now: i64,
    winner: WinningOutcome,
    later: i64,
    other: WinningOutcome,
)
    requires
        market.closed_reason(now) is None,
    ensures
        ({
            let settled = after_settle(market, now, winner);
            &&& settled.is_settled
            &&& settled.winning_outcome == Some(winner)
            &&& settled.closed_reason(later) == Some(PredictionMarketError::MarketAlreadySettled)
            &&& after_settle(settled, later, other) == settled
        }),
{
}

/// After an accepted settlement every split and every merge is rejected with
/// `MarketAlreadySettled`, whatever the time, the amount and the balances.
pub proof fn law_settled_market_is_closed(
    market: Market,
    now: i64,
    winner: WinningOutcome,
    later: i64,
    amount: u64,
    balance_a: u64,
    balance_b: u64,
)
    requires
        market.closed_reason(now) is None,
    ensures
        ({
            let settled = after_settle(market, now, winner);
            &&& split_refusal(settled, later, amount) == Some(
                PredictionMarketError::MarketAlreadySettled,
            )
            &&& merge_refusal(settled, later, balance_a, balance_b) == Some(
                PredictionMarketError::MarketAlreadySettled,
            )
            &&& after_split(settled, later, amount) == settled
            &&& after_merge(settled, later, balance_a, balance_b) == settled
        }),
{
}

/// The caller's account for the claim on the outcome that is not `winner`.
pub open spec fn losing_account(user: UserAccounts, winner: WinningOutcome) -> Pubkey {
    match winner {
        WinningOutcome::OutcomeA => user.outcome_b,
        WinningOutcome::OutcomeB => user.outcome_a,
    }
}

/// An accepted claim whose calls the ledger carries out pays the caller one
/// unit of collateral for each winning claim they held: their winning claims
/// drop to zero and leave circulation, their collateral grows by as much as
/// they held of the winning claim, the vault and the collateral counter
/// shrink by as much, and their losing claims stay as they were.
pub proof fn law_claim_pays_winner(
    market: Market,
    user: UserAccounts,
    winner: WinningOutcome,
    balance_a: u64,
    balance_b: u64,
    before: Ledger,
)
    requires
        accounts_apart(market, user),
        market.winning_outcome == Some(winner),
        balance_a == before.balance_of(user.outcome_a),
        balance_b == before.balance_of(user.outcome_b),
        claim_refusal(market, balance_a, balance_b) is None,
        before.apply_all(
            claim_calls(market, user, winner, claim_amount(winner, balance_a, balance_b)),
        ) is Some,
    ensures
        ({
            let amount = claim_amount(winner, balance_a, balance_b);
            let after = before.apply_all(claim_calls(market, user, winner, amount)).unwrap();
            &&& amount == before.balance_of(outcome_account(user, winner))
            &&& after.balance_of(outcome_account(user, winner)) == 0
            &&& after.balance_of(losing_account(user, winner)) == before.balance_of(
                losing_account(user, winner),
            )
            &&& after.balance_of(user.collateral) == before.balance_of(user.collateral) + amount
            &&& after.balance_of(market.collateral_vault) == before.balance_of(
                market.collateral_vault,
            ) - amount
            &&& after.supply_of(outcome_mint(market, winner)) == before.supply_of(
                outcome_mint(market, winner),
            ) - amount
            &&& after_claim(market, balance_a, balance_b).total_collateral_locked
                == market.total_collateral_locked - amount
        }),
{
    let calls = claim_calls(market, user, winner, claim_amount(winner, balance_a, balance_b));
    lemma_apply_two(before, calls[0], calls[1]);
    assert(calls =~= seq![calls[0], calls[1]]);
}

/// Claims on the losing outcome redeem nothing. On a settled market, what a
/// claim is answered with depends on the caller's holding of the winning
/// claim alone: two callers with the same accounts and the same holding of
/// the winning claim get the same answer, the same calls and the same record,
/// however many losing claims either holds.
pub proof fn law_losing_claims_redeem_nothing(
    market: Market,
    user: UserAccounts,
    winner: WinningOutcome,
    balance_a: u64,
    balance_b: u64,
    other_a: u64,
    other_b: u64,
)
    requires
        market.is_settled,
        market.winning_outcome == Some(winner),
        claim_amount(winner, balance_a, balance_b) == claim_amount(winner, other_a, other_b),
    ensures
        claim_refusal(market, balance_a, balance_b) == claim_refusal(market, other_a, other_b),
        after_claim(market, balance_a, balance_b) == after_claim(market, other_a, other_b),
        claim_calls(market, user, winner, claim_amount(winner, balance_a, balance_b))
            == claim_calls(market, user, winner, claim_amount(winner, other_a, other_b)),
{
}

/// A well-formed record that is settled names its winner: a claim on it is
/// never rejected with `WinningOutcomeNotSet`.
pub proof fn law_settled_record_names_winner(market: Market, balance_a: u64, balance_b: u64)
    requires
        market.wf(),
    ensures
        claim_refusal(market, balance_a, balance_b) != Some(
            PredictionMarketError::WinningOutcomeNotSet,
        ),
{
}

/// The ledger backs the market: the record is well formed; the vault holds
/// exactly the collateral that the record counts as locked; while the market
/// is open, as much of each outcome claim is in circulation as collateral is
/// locked, and the market alone may issue the claims; once it is settled, as
/// much of the winning claim is in circulation as collateral is locked, and
/// nobody may issue either claim.
pub open spec fn backed(market: Market, ledger: Ledger) -> bool {
    &&& market.wf()
    &&& ledger.balance_of(market.collateral_vault) == market.total_collateral_locked
    &&& match market.winning_outcome {
        None => {
            &&& ledger.supply_of(market.outcome_a_mint) == market.total_collateral_locked
            &&& ledger.supply_of(market.outcome_b_mint) == market.total_collateral_locked
            &&& ledger.issuer_of(market.outcome_a_mint) == Some(
                Authority::Market(market.signer_spec()),
            )
            &&& ledger.issuer_of(market.outcome_b_mint) == Some(
                Authority::Market(market.signer_spec()),
            )
        },
        Some(winner) => {
            &&& ledger.supply_of(outcome_mint(market, winner)) == market.total_collateral_locked
            &&& ledger.issuer_of(market.outcome_a_mint) is None
            &&& ledger.issuer_of(market.outcome_b_mint) is None
        },
    }
}

/// A market as it is created is backed by a ledger on which its vault is
/// empty, none of its claims is in circulation, and it is the issuer of both.
pub proof fn law_new_market_is_backed(market: Market, ledger: Ledger)
    requires
        !market.is_settled,
        market.winning_outcome is None,
        market.total_collateral_locked == 0,
        ledger.balance_of(market.collateral_vault) == 0,
        ledger.supply_of(market.outcome_a_mint) == 0,
        ledger.supply_of(market.outcome_b_mint) == 0,
        ledger.issuer_of(market.outcome_a_mint) == Some(Authority::Market(market.signer_spec())),
        ledger.issuer_of(market.outcome_b_mint) == Some(Authority::Market(market.signer_spec())),
    ensures
        backed(market, ledger),
{
}

/// An accepted split whose calls the ledger carries out leaves the market
/// backed.
pub proof fn law_split_keeps_backing(
    market: Market,
    user: UserAccounts,
    now: i64,
    amount: u64,
    before: Ledger,
)
    requires
        accounts_apart(market, user),
        backed(market, before),
        split_refusal(market, now, amount) is None,
        before.apply_all(split_calls(market, user, amount)) is Some,
    ensures
        backed(
            after_split(market, now, amount),
            before.apply_all(split_calls(market, user, amount)).unwrap(),
        ),
{
    let calls = split_calls(market, user, amount);
    lemma_apply_three(before, calls[0], calls[1], calls[2]);
    assert(calls =~= seq![calls[0], calls[1], calls[2]]);
    let first = before.apply(calls[0]).unwrap();
    lemma_apply_two(first, calls[1], calls[2]);
}

/// An accepted merge whose calls the ledger carries out leaves the market
/// backed.
pub proof fn law_merge_keeps_backing(
    market: Market,
    user: UserAccounts,
    now: i64,
    balance_a: u64,
    balance_b: u64,
    before: Ledger,
)
    requires
        accounts_apart(market, user),
        backed(market, before),
        merge_refusal(market, now, balance_a, balance_b) is None,
        before.apply_all(merge_calls(market, user, matched_pairs(balance_a, balance_b))) is Some,
    ensures
        backed(
            after_merge(market, now, balance_a, balance_b),
            before.apply_all(
                merge_calls(market, user, matched_pairs(balance_a, balance_b)),
            ).unwrap(),
        ),
{
    let calls = merge_calls(market, user, matched_pairs(balance_a, balance_b));
    lemma_apply_three(before, calls[0], calls[1], calls[2]);
    assert(calls =~= seq![calls[0], calls[1], calls[2]]);
    let first = before.apply(calls[0]).unwrap();
    lemma_apply_two(first, calls[1], calls[2]);
}

/// An accepted settlement whose calls the ledger carries out leaves the
/// market backed: from then on nobody may issue either outcome claim.
pub proof fn law_settle_keeps_backing(
    market: Market,
    now: i64,
    winner: WinningOutcome,
    before: Ledger,
)
    requires
        market.outcome_a_mint != market.outcome_b_mint,
        backed(market, before),
        market.closed_reason(now) is None,
        before.apply_all(settle_calls(market)) is Some,
    ensures
        backed(after_settle(market, now, winner), before.apply_all(settle_calls(market)).unwrap()),
{
    let calls = settle_calls(market);
    lemma_apply_two(before, calls[0], calls[1]);
    assert(calls =~= seq![calls[0], calls[1]]);
}

/// An accepted claim whose calls the ledger carries out leaves the market
/// backed.
pub proof fn law_claim_keeps_backing(
    market: Market,
    user: UserAccounts,
    winner: WinningOutcome,
    balance_a: u64,
    balance_b: u64,
    before: Ledger,
)
    requires
        accounts_apart(market, user),
        backed(market, before),
        market.winning_outcome == Some(winner),
        claim_refusal(market, balance_a, balance_b) is None,
        before.apply_all(
            claim_calls(market, user, winner, claim_amount(winner, balance_a, balance_b)),
        ) is Some,
    ensures
        backed(
            after_claim(market, balance_a, balance_b),
            before.apply_all(
                claim_calls(market, user, winner, claim_amount(winner, balance_a, balance_b)),
            ).unwrap(),
        ),
{
    let calls = claim_calls(market, user, winner, claim_amount(winner, balance_a, balance_b));
    lemma_apply_two(before, calls[0], calls[1]);
    assert(calls =~= seq![calls[0], calls[1]]);
}

/// On a backed market the collateral counter never runs short before the
/// ledger does: where the ledger can carry out the calls of a merge of the
/// caller's matched pairs, or of a claim of their winning claims, the
/// operation is not rejected with `MathOverflow`.
pub proof fn law_backed_market_covers_redemption(
    market: Market,
    user: UserAccounts,
    now: i64,
    balance_a: u64,
    balance_b: u64,
    ledger: Ledger,
)
    requires
        backed(market, ledger),
    ensures
        ledger.apply_all(merge_calls(market, user, matched_pairs(balance_a, balance_b))) is Some
            ==> merge_refusal(market, now, balance_a, balance_b) != Some(
            PredictionMarketError::MathOverflow,
        ),
        market.winning_outcome matches Some(winner) && ledger.apply_all(
            claim_calls(market, user, winner, claim_amount(winner, balance_a, balance_b)),
        ) is Some ==> claim_refusal(market, balance_a, balance_b) is None,
{
    let pairs = merge_calls(market, user, matched_pairs(balance_a, balance_b));
    lemma_apply_three(ledger, pairs[0], pairs[1], pairs[2]);
    assert(pairs =~= seq![pairs[0], pairs[1], pairs[2]]);
    if let Some(winner) = market.winning_outcome {
        let calls = claim_calls(market, user, winner, claim_amount(winner, balance_a, balance_b));
        lemma_apply_two(ledger, calls[0], calls[1]);
        assert(calls =~= seq![calls[0], calls[1]]);
    }
}

/// Once a backed market is settled, the ledger refuses every issue of either
/// outcome claim, whoever asks.
pub proof fn law_no_issue_after_settlement(
    market: Market,
    ledger: Ledger,
    to: Pubkey,
    amount: u64,
    authority: Authority,
)
    requires
        backed(market, ledger),
        market.is_settled,
    ensures
        ledger.apply(
            LedgerCall::MintTo { resource: market.outcome_a_mint, to, amount, authority },
        ) is None,
        ledger.apply(
            LedgerCall::MintTo { resource: market.outcome_b_mint, to, amount, authority },
        ) is None,
{
}

/// One request made of a market, with the inputs that the operation takes.
pub ghost enum Request {
    Split { user: UserAccounts, now: i64, amount: u64 },
    Merge { user: UserAccounts, now: i64, balance_a: u64, balance_b: u64 },
    Settle { now: i64, winner: WinningOutcome },
    Claim { user: UserAccounts, balance_a: u64, balance_b: u64 },
}

/// Why `request` is rejected, if it is.
pub open spec fn refusal_of(market: Market, request: Request) -> Option<PredictionMarketError> {
    match request {
        Request::Split { user, now, amount } => split_refusal(market, now, amount),
        Request::Merge { user, now, balance_a, balance_b } => merge_refusal(
            market,
            now,
            balance_a,
            balance_b,
        ),
        Request::Settle { now, winner } => market.closed_reason(now),
        Request::Claim { user, balance_a, balance_b } => claim_refusal(market, balance_a, balance_b),
    }
}

/// The ledger calls that go with `request` where it is accepted.
pub open spec fn calls_of(market: Market, request: Request) -> Seq<LedgerCall> {
    match request {
        Request::Split { user, now, amount } => split_calls(market, user, amount),
        Request::Merge { user, now, balance_a, balance_b } => merge_calls(
            market,
            user,
            matched_pairs(balance_a, balance_b),
        ),
        Request::Settle { now, winner } => settle_calls(market),
        Request::Claim { user, balance_a, balance_b } => match market.winning_outcome {
            Some(winner) => claim_calls(
                market,
                user,
                winner,
                claim_amount(winner, balance_a, balance_b),
            ),
            None => Seq::empty(),
        },
    }
}

/// The record after `request`, whether it was accepted or rejected.
pub open spec fn after_request(market: Market, request: Request) -> Market {
    match request {
        Request::Split { user, now, amount } => after_split(market, now, amount),
        Request::Merge { user, now, balance_a, balance_b } => after_merge(
            market,
            now,
            balance_a,
            balance_b,
        ),
        Request::Settle { now, winner } => after_settle(market, now, winner),
        Request::Claim { user, balance_a, balance_b } => after_claim(market, balance_a, balance_b),
    }
}

/// The record after each of `requests` in turn.
pub open spec fn after_requests(market: Market, requests: Seq<Request>) -> Market
    decreases requests.len(),
{
    if requests.len() == 0 {
        market
    } else {
        after_request(after_requests(market, requests.drop_last()), requests.last())
    }
}

/// `later` has the terms that `market` was created with.
pub open spec fn same_terms(market: Market, later: Market) -> bool {
    &&& later.authority == market.authority
    &&& later.market_id == market.market_id
    &&& later.bump == market.bump
    &&& later.settlement_deadline == market.settlement_deadline
    &&& later.outcome_a_mint == market.outcome_a_mint
    &&& later.outcome_b_mint == market.outcome_b_mint
    &&& later.collateral_mint == market.collateral_mint
    &&& later.collateral_vault == market.collateral_vault
}

/// Whatever is asked of a market, the terms it was created with stay as they
/// are, a well-formed record stays well formed, and a settled market stays
/// settled on the same winner.
pub proof fn law_settlement_is_final(market: Market, requests: Seq<Request>)
    ensures
        same_terms(market, after_requests(market, requests)),
        market.wf() ==> after_requests(market, requests).wf(),
        market.is_settled ==> after_requests(market, requests).is_settled && after_requests(
            market,
            requests,
        ).winning_outcome == market.winning_outcome,
    decreases requests.len(),
{
    if requests.len() > 0 {
        law_settlement_is_final(market, requests.drop_last());
    }
}

/// `request` is made at or after the deadline of `market`. A claim does not
/// look at the time.
pub open spec fn made_after_deadline(market: Market, request: Request) -> bool {
    match request {
        Request::Split { user, now, amount } => now >= market.settlement_deadline,
        Request::Merge { user, now, balance_a, balance_b } => now >= market.settlement_deadline,
        Request::Settle { now, winner } => now >= market.settlement_deadline,
        Request::Claim { user, balance_a, balance_b } => true,
    }
}

/// A market that nobody settled before its deadline stays as it is for good:
/// from the deadline on every split, merge and settlement is rejected as
/// expired and every claim as not settled, so nothing locked in it can be
/// redeemed.
pub proof fn law_unsettled_market_freezes_at_deadline(market: Market, requests: Seq<Request>)
    requires
        !market.is_settled,
        forall|i: int|
            0 <= i < requests.len() ==> made_after_deadline(market, #[trigger] requests[i]),
    ensures
        after_requests(market, requests) == market,
        forall|i: int|
            0 <= i < requests.len() ==> #[trigger] refusal_of(market, requests[i]) == Some(
                if requests[i] is Claim {
                    PredictionMarketError::MarketNotSettled
                } else {
                    PredictionMarketError::MarketExpired
                },
            ),
    decreases requests.len(),
{
    if requests.len() > 0 {
        let earlier = requests.drop_last();
        assert forall|i: int| 0 <= i < earlier.len() implies made_after_deadline(
            market,
            #[trigger] earlier[i],
        ) by {
            assert(earlier[i] == requests[i]);
        }
        law_unsettled_market_freezes_at_deadline(market, earlier);
        assert(made_after_deadline(market, requests[requests.len() - 1]));
        assert forall|i: int| 0 <= i < requests.len() implies #[trigger] refusal_of(
            market,
            requests[i],
        ) == Some(
            if requests[i] is Claim {
                PredictionMarketError::MarketNotSettled
            } else {
                PredictionMarketError::MarketExpired
            },
        ) by {
            assert(made_after_deadline(market, requests[i]));
        }
    }
}

/// The sum of the amounts that the splits among `requests` ask for.
pub open spec fn collateral_asked(requests: Seq<Request>) -> nat
    decreases requests.len(),
{
    if requests.len() == 0 {
        0
    } else {
        collateral_asked(requests.drop_last()) + match requests.last() {
            Request::Split { user, now, amount } => amount as nat,
            _ => 0,
        }
    }
}

/// Each of `requests` is a split of more than nothing, made before the
/// deadline of `market`.
pub open spec fn splits_in_time(market: Market, requests: Seq<Request>) -> bool {
    forall|i: int|
        0 <= i < requests.len() ==> (#[trigger] requests[i] matches Request::Split {
            user,
            now,
            amount,
        } && now < market.settlement_deadline && amount > 0)
}

/// On an open market, splits whose amounts fit the collateral counter
/// together are all accepted, and the counter grows by their sum.
pub proof fn law_splits_add_up(market: Market, requests: Seq<Request>)
    requires
        !market.is_settled,
        splits_in_time(market, requests),
        market.total_collateral_locked + collateral_asked(requests) <= u64::MAX,
    ensures
        after_requests(market, requests) == market.with_locked(
            (market.total_collateral_locked + collateral_asked(requests)) as u64,
        ),
        forall|i: int|
            0 <= i < requests.len() ==> #[trigger] refusal_of(
                after_requests(market, requests.take(i)),
                requests[i],
            ) is None,
    decreases requests.len(),
{
    if requests.len() > 0 {
        let earlier = requests.drop_last();
        assert forall|i: int| 0 <= i < earlier.len() implies (#[trigger] earlier[i]
            matches Request::Split { user, now, amount } && now < market.settlement_deadline
            && amount > 0) by {
            assert(earlier[i] == requests[i]);
        }
        law_splits_add_up(market, earlier);
        let last = requests.len() - 1;
        assert(requests[last] is Split);
        assert forall|i: int| 0 <= i < requests.len() implies #[trigger] refusal_of(
            after_requests(market, requests.take(i)),
            requests[i],
        ) is None by {
            assert(requests[i] is Split);
            if i < last {
                assert(earlier[i] == requests[i]);
                assert(requests.take(i) =~= earlier.take(i));
                assert(refusal_of(after_requests(market, earlier.take(i)), earlier[i]) is None);
            } else {
                assert(requests.take(i) =~= earlier);
            }
        }
    } else {
        assert(market.with_locked(market.total_collateral_locked) == market);
    }
}

/// Splits stop at the limit of the collateral counter. After splits that were
/// all accepted, a further split whose amount would take the sum past the
/// largest value of the counter is rejected with `MathOverflow`, and the
/// record stays as the accepted splits left it.
pub proof fn law_splits_stop_at_overflow(
    market: Market,
    requests: Seq<Request>,
    user: UserAccounts,
    now: i64,
    amount: u64,
)
    requires
        !market.is_settled,
        splits_in_time(market, requests),
        now < market.settlement_deadline,
        amount > 0,
        market.total_collateral_locked + collateral_asked(requests) <= u64::MAX,
        market.total_collateral_locked + collateral_asked(requests) + amount > u64::MAX,
    ensures
        ({
            let reached = after_requests(market, requests);
            &&& reached.total_collateral_locked == market.total_collateral_locked
                + collateral_asked(requests)
            &&& split_refusal(reached, now, amount) == Some(PredictionMarketError::MathOverflow)
            &&& after_split(reached, now, amount) == reached
            &&& after_requests(market, requests.push(Request::Split { user, now, amount }))
                == reached
        }),
{
    law_splits_add_up(market, requests);
    let longer = requests.push(Request::Split { user, now, amount });
    assert(longer.drop_last() =~= requests);
    assert(longer.last() == Request::Split { user, now, amount });
}

/// A market together with the ledger that holds its resources.
pub ghost struct World {
    pub market: Market,
    pub ledger: Ledger,
}

/// The world after `request`. An accepted request whose calls the ledger
/// carries out changes the record and the ledger together; a request that
/// the market rejects, or whose calls the ledger refuses, changes nothing.
pub open spec fn world_after(world: World, request: Request) -> World {
    if refusal_of(world.market, request) is None {
        match world.ledger.apply_all(calls_of(world.market, request)) {
            Some(ledger) => World { market: after_request(world.market, request), ledger },
            None => world,
        }
    } else {
        world
    }
}

/// The world after each of `requests` in turn.
pub open spec fn world_after_all(world: World, requests: Seq<Request>) -> World
    decreases requests.len(),
{
    if requests.len() == 0 {
        world
    } else {
        world_after(world_after_all(world, requests.drop_last()), requests.last())
    }
}

/// The accounts that `request` names do not coincide.
pub open spec fn request_apart(market: Market, request: Request) -> bool {
    match request {
        Request::Split { user, now, amount } => accounts_apart(market, user),
        Request::Merge { user, now, balance_a, balance_b } => accounts_apart(market, user),
        Request::Settle { now, winner } => market.outcome_a_mint != market.outcome_b_mint,
        Request::Claim { user, balance_a, balance_b } => accounts_apart(market, user),
    }
}

/// One request leaves a backed world backed, and the terms of its market as
/// they are.
proof fn lemma_request_keeps_backing(world: World, request: Request)
    requires
        backed(world.market, world.ledger),
        request_apart(world.market, request),
    ensures
        backed(world_after(world, request).market, world_after(world, request).ledger),
        same_terms(world.market, world_after(world, request).market),
{
    let market = world.market;
    let ledger = world.ledger;
    if refusal_of(market, request) is None && ledger.apply_all(calls_of(market, request)) is Some {
        match request {
            Request::Split { user, now, amount } => {
                law_split_keeps_backing(market, user, now, amount, ledger);
            },
            Request::Merge { user, now, balance_a, balance_b } => {
                law_merge_keeps_backing(market, user, now, balance_a, balance_b, ledger);
            },
            Request::Settle { now, winner } => {
                law_settle_keeps_backing(market, now, winner, ledger);
            },
            Request::Claim { user, balance_a, balance_b } => {
                law_claim_keeps_backing(
                    market,
                    user,
                    market.winning_outcome.unwrap(),
                    balance_a,
                    balance_b,
                    ledger,
                );
            },
        }
    }
}

/// Backing is an invariant of the market. From a world in which the ledger
/// backs the market, and in which the ledger changes through the market's
/// operations alone, the ledger backs the market after any requests, in
/// whatever order, by whomever, with whatever balances they state, as long as
/// the accounts named in each request do not coincide.
pub proof fn law_backing_is_invariant(world: World, requests: Seq<Request>)
    requires
        backed(world.market, world.ledger),
        forall|i: int| 0 <= i < requests.len() ==> request_apart(world.market, #[trigger] requests[i]),
    ensures
        backed(world_after_all(world, requests).market, world_after_all(world, requests).ledger),
        same_terms(world.market, world_after_all(world, requests).market),
    decreases requests.len(),
{
    if requests.len() > 0 {
        let earlier = requests.drop_last();
        assert forall|i: int| 0 <= i < earlier.len() implies request_apart(
            world.market,
            #[trigger] earlier[i],
        ) by {
            assert(earlier[i] == requests[i]);
        }
        law_backing_is_invariant(world, earlier);
        let reached = world_after_all(world, earlier);
        assert(request_apart(world.market, requests[requests.len() - 1]));
        assert(request_apart(reached.market, requests.last()));
        lemma_request_keeps_backing(reached, requests.last());
    }
}

/// `other` shares nothing with what `request` touches on `market`: not its
/// vault with the vault of `market` or an account of the caller, and neither
/// of its outcome claims with an outcome claim of `market`.
pub open spec fn unrelated(other: Market, market: Market, request: Request) -> bool {
    &&& other.outcome_a_mint != market.outcome_a_mint
    &&& other.outcome_a_mint != market.outcome_b_mint
    &&& other.outcome_b_mint != market.outcome_a_mint
    &&& other.outcome_b_mint != market.outcome_b_mint
    &&& other.collateral_vault != market.collateral_vault
    &&& match request {
        Request::Split { user, now, amount } => users_apart(other, user),
        Request::Merge { user, now, balance_a, balance_b } => users_apart(other, user),
        Request::Settle { now, winner } => true,
        Request::Claim { user, balance_a, balance_b } => users_apart(other, user),
    }
}

/// The vault of `other` is none of the accounts of `user`.
pub open spec fn users_apart(other: Market, user: UserAccounts) -> bool {
    &&& other.collateral_vault != user.collateral
    &&& other.collateral_vault != user.outcome_a
    &&& other.collateral_vault != user.outcome_b
}

/// Markets are independent. What is asked of one market, accepted or not,
/// leaves every market that shares nothing with it backed as it was.
pub proof fn law_markets_are_independent(other: Market, world: World, request: Request)
    requires
        backed(other, world.ledger),
        unrelated(other, world.market, request),
    ensures
        backed(other, world_after(world, request).ledger),
{
    let market = world.market;
    let calls = calls_of(market, request);
    if refusal_of(market, request) is None && world.ledger.apply_all(calls) is Some {
        assert forall|i: int| 0 <= i < calls.len() implies !(#[trigger] calls[i]).moves(
            other.collateral_vault,
        ) && !calls[i].concerns(other.outcome_a_mint) && !calls[i].concerns(
            other.outcome_b_mint,
        ) by {}
        law_calls_leave_the_rest_alone(world.ledger, calls, other.collateral_vault);
        law_calls_leave_the_rest_alone(world.ledger, calls, other.outcome_a_mint);
        law_calls_leave_the_rest_alone(world.ledger, calls, other.outcome_b_mint);
    }
}

} // verus!
