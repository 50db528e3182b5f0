use anchor_lang::prelude::Pubkey;
use prediction_market::error::PredictionMarketError;
use prediction_market::ledger::{Authority, LedgerCall, UserAccounts};
use prediction_market::processor::{
    claim_rewards, initialize_market, merge_tokens, set_winning_side, split_tokens,
};
use prediction_market::state::{Market, MarketSigner, WinningOutcome};

fn key(tag: u8) -> Pubkey {
    Pubkey::new_from_array([tag; 32])
}

fn user() -> UserAccounts {
    UserAccounts { user: key(10), collateral: key(11), outcome_a: key(12), outcome_b: key(13) }
}

fn open_market() -> Market {
    initialize_market(key(1), 7, 1_000, key(2), key(3), key(4), key(5), 254, 100).unwrap()
}

fn market_signer() -> Authority {
    Authority::Market(MarketSigner { market_id: 7, bump: 254 })
}

#[test]
fn initialize_records_terms_with_nothing_locked() {
    let market: Market = open_market();
    assert_eq!(
        market,
        Market {
            authority: key(1),
            market_id: 7,
            settlement_deadline: 1_000,
            outcome_a_mint: key(2),
            outcome_b_mint: key(3),
            collateral_mint: key(4),
            collateral_vault: key(5),
            is_settled: false,
            winning_outcome: None,
            total_collateral_locked: 0,
            bump: 254,
        }
    );
}

#[test]
fn initialize_rejects_deadline_at_current_time() {
    let res = initialize_market(key(1), 7, 100, key(2), key(3), key(4), key(5), 254, 100);
    assert_eq!(res, Err(PredictionMarketError::InvalidSettlementDeadline));
}

#[test]
fn initialize_rejects_deadline_in_the_past() {
    let res = initialize_market(key(1), 7, 99, key(2), key(3), key(4), key(5), 254, 100);
    assert_eq!(res, Err(PredictionMarketError::InvalidSettlementDeadline));
    let res = initialize_market(key(1), 7, i64::MIN, key(2), key(3), key(4), key(5), 0, i64::MAX);
    assert_eq!(res, Err(PredictionMarketError::InvalidSettlementDeadline));
}

#[test]
fn initialize_accepts_deadline_one_tick_ahead() {
    let res = initialize_market(key(1), 0, 101, key(2), key(3), key(4), key(5), 0, 100);
    let market: Market = res.unwrap();
    assert_eq!(market.total_collateral_locked, 0);
    assert!(!market.is_settled);
    assert_eq!(market.winning_outcome, None);
}

#[test]
fn split_returns_deposit_and_two_issues() {
    let mut market: Market = open_market();
    let calls = split_tokens(&mut market, &user(), 500, 40).unwrap();
    assert_eq!(
        calls,
        vec![
            LedgerCall::Transfer {
                resource: key(4),
                from: key(11),
                to: key(5),
                amount: 40,
                authority: Authority::Wallet(key(10)),
            },
            LedgerCall::MintTo {
                resource: key(2),
                to: key(12),
                amount: 40,
                authority: market_signer(),
            },
            LedgerCall::MintTo {
                resource: key(3),
                to: key(13),
                amount: 40,
                authority: market_signer(),
            },
        ]
    );
    assert_eq!(market.total_collateral_locked, 40);
    assert_eq!(market, Market { total_collateral_locked: 40, ..open_market() });
}

#[test]
fn split_adds_to_what_is_locked() {
    let mut market: Market = open_market();
    split_tokens(&mut market, &user(), 500, 40).unwrap();
    split_tokens(&mut market, &user(), 501, 2).unwrap();
    assert_eq!(market.total_collateral_locked, 42);
}

#[test]
fn split_rejects_zero_amount() {
    let mut market: Market = open_market();
    let res = split_tokens(&mut market, &user(), 500, 0);
    assert_eq!(res, Err(PredictionMarketError::InvalidAmount));
    assert_eq!(market, open_market());
}

#[test]
fn split_rejects_at_and_after_deadline() {
    let mut market: Market = open_market();
    assert_eq!(split_tokens(&mut market, &user(), 1_000, 5), Err(PredictionMarketError::MarketExpired));
    assert_eq!(split_tokens(&mut market, &user(), 1_001, 5), Err(PredictionMarketError::MarketExpired));
    assert_eq!(split_tokens(&mut market, &user(), 1_000, 0), Err(PredictionMarketError::MarketExpired));
    assert_eq!(market, open_market());
    assert!(split_tokens(&mut market, &user(), 999, 5).is_ok());
}

#[test]
fn split_overflow_leaves_record_unchanged() {
    let half: u64 = 1u64 << 63;
    let mut market: Market = open_market();
    split_tokens(&mut market, &user(), 500, half).unwrap();
    split_tokens(&mut market, &user(), 500, half - 1).unwrap();
    assert_eq!(market.total_collateral_locked, u64::MAX);
    let reached: Market = market;
    assert_eq!(split_tokens(&mut market, &user(), 500, 1), Err(PredictionMarketError::MathOverflow));
    assert_eq!(market, reached);
}

#[test]
fn split_overflow_on_the_call_that_would_pass_the_limit() {
    let half: u64 = 1u64 << 63;
    let mut market: Market = open_market();
    assert!(split_tokens(&mut market, &user(), 500, half).is_ok());
    assert_eq!(split_tokens(&mut market, &user(), 500, half), Err(PredictionMarketError::MathOverflow));
    assert_eq!(market.total_collateral_locked, half);
    assert!(split_tokens(&mut market, &user(), 500, half - 1).is_ok());
    assert_eq!(market.total_collateral_locked, u64::MAX);
}

#[test]
fn merge_redeems_the_smaller_balance() {
    let mut market: Market = Market { total_collateral_locked: 100, ..open_market() };
    let calls = merge_tokens(&mut market, &user(), 500, 30, 70).unwrap();
    assert_eq!(
        calls,
        vec![
            LedgerCall::Burn {
                resource: key(2),
                from: key(12),
                amount: 30,
                authority: Authority::Wallet(key(10)),
            },
            LedgerCall::Burn {
                resource: key(3),
                from: key(13),
                amount: 30,
                authority: Authority::Wallet(key(10)),
            },
            LedgerCall::Transfer {
                resource: key(4),
                from: key(5),
                to: key(11),
                amount: 30,
                authority: market_signer(),
            },
        ]
    );
    assert_eq!(market.total_collateral_locked, 70);
}

#[test]
fn merge_takes_the_second_balance_when_it_is_smaller() {
    let mut market: Market = Market { total_collateral_locked: 100, ..open_market() };
    merge_tokens(&mut market, &user(), 500, 70, 30).unwrap();
    assert_eq!(market.total_collateral_locked, 70);
    merge_tokens(&mut market, &user(), 500, 70, 70).unwrap();
    assert_eq!(market.total_collateral_locked, 0);
}

#[test]
fn merge_rejects_when_one_side_is_empty() {
    let start: Market = Market { total_collateral_locked: 100, ..open_market() };
    let mut market: Market = start;
    assert_eq!(merge_tokens(&mut market, &user(), 500, 0, 70), Err(PredictionMarketError::InvalidAmount));
    assert_eq!(merge_tokens(&mut market, &user(), 500, 70, 0), Err(PredictionMarketError::InvalidAmount));
    assert_eq!(merge_tokens(&mut market, &user(), 500, 0, 0), Err(PredictionMarketError::InvalidAmount));
    assert_eq!(market, start);
}

#[test]
fn merge_rejects_at_deadline() {
    let start: Market = Market { total_collateral_locked: 100, ..open_market() };
    let mut market: Market = start;
    assert_eq!(merge_tokens(&mut market, &user(), 1_000, 5, 5), Err(PredictionMarketError::MarketExpired));
    assert_eq!(merge_tokens(&mut market, &user(), 1_000, 0, 5), Err(PredictionMarketError::MarketExpired));
    assert_eq!(market, start);
}

#[test]
fn merge_rejects_more_pairs_than_collateral_locked() {
    let start: Market = Market { total_collateral_locked: 4, ..open_market() };
    let mut market: Market = start;
    assert_eq!(merge_tokens(&mut market, &user(), 500, 5, 9), Err(PredictionMarketError::MathOverflow));
    assert_eq!(market, start);
    assert!(merge_tokens(&mut market, &user(), 500, 4, 9).is_ok());
    assert_eq!(market.total_collateral_locked, 0);
}

#[test]
fn settle_records_winner_and_revokes_issuance() {
    let mut market: Market = Market { total_collateral_locked: 9, ..open_market() };
    let calls = set_winning_side(&mut market, 999, WinningOutcome::OutcomeB).unwrap();
    assert_eq!(
        calls,
        vec![
            LedgerCall::SetAuthority {
                resource: key(2),
                current: market_signer(),
                new_authority: None,
            },
            LedgerCall::SetAuthority {
                resource: key(3),
                current: market_signer(),
                new_authority: None,
            },
        ]
    );
    assert_eq!(
        market,
        Market {
            is_settled: true,
            winning_outcome: Some(WinningOutcome::OutcomeB),
            total_collateral_locked: 9,
            ..open_market()
        }
    );
}

#[test]
fn settle_twice_fails_and_keeps_the_winner() {
    let mut market: Market = open_market();
    set_winning_side(&mut market, 500, WinningOutcome::OutcomeA).unwrap();
    let settled: Market = market;
    let again = set_winning_side(&mut market, 501, WinningOutcome::OutcomeB);
    assert_eq!(again, Err(PredictionMarketError::MarketAlreadySettled));
    assert_eq!(market.winning_outcome, Some(WinningOutcome::OutcomeA));
    assert_eq!(market, settled);
    let late = set_winning_side(&mut market, 5_000, WinningOutcome::OutcomeA);
    assert_eq!(late, Err(PredictionMarketError::MarketAlreadySettled));
}

#[test]
fn settle_rejects_at_and_after_deadline() {
    let mut market: Market = open_market();
    assert_eq!(
        set_winning_side(&mut market, 1_000, WinningOutcome::OutcomeA),
        Err(PredictionMarketError::MarketExpired)
    );
    assert_eq!(
        set_winning_side(&mut market, i64::MAX, WinningOutcome::OutcomeB),
        Err(PredictionMarketError::MarketExpired)
    );
    assert_eq!(market, open_market());
}

#[test]
fn settled_market_rejects_split_and_merge() {
    let mut market: Market = Market { total_collateral_locked: 50, ..open_market() };
    set_winning_side(&mut market, 500, WinningOutcome::OutcomeA).unwrap();
    let settled: Market = market;
    assert_eq!(split_tokens(&mut market, &user(), 600, 5), Err(PredictionMarketError::MarketAlreadySettled));
    assert_eq!(split_tokens(&mut market, &user(), 600, 0), Err(PredictionMarketError::MarketAlreadySettled));
    assert_eq!(split_tokens(&mut market, &user(), 2_000, 5), Err(PredictionMarketError::MarketAlreadySettled));
    assert_eq!(merge_tokens(&mut market, &user(), 600, 5, 5), Err(PredictionMarketError::MarketAlreadySettled));
    assert_eq!(merge_tokens(&mut market, &user(), 600, 0, 5), Err(PredictionMarketError::MarketAlreadySettled));
    assert_eq!(merge_tokens(&mut market, &user(), 2_000, 5, 5), Err(PredictionMarketError::MarketAlreadySettled));
    assert_eq!(market, settled);
}

#[test]
fn claim_before_settlement_fails() {
    let start: Market = Market { total_collateral_locked: 50, ..open_market() };
    let mut market: Market = start;
    assert_eq!(claim_rewards(&mut market, &user(), 5, 5), Err(PredictionMarketError::MarketNotSettled));
    assert_eq!(market, start);
}

#[test]
fn claim_on_settled_record_without_winner_fails() {
    let start: Market = Market { is_settled: true, total_collateral_locked: 50, ..open_market() };
    let mut market: Market = start;
    assert_eq!(claim_rewards(&mut market, &user(), 5, 5), Err(PredictionMarketError::WinningOutcomeNotSet));
    assert_eq!(market, start);
}

#[test]
fn claim_unsettled_record_with_winner_is_not_settled() {
    let start: Market =
        Market { winning_outcome: Some(WinningOutcome::OutcomeA), ..open_market() };
    let mut market: Market = start;
    assert_eq!(claim_rewards(&mut market, &user(), 0, 0), Err(PredictionMarketError::MarketNotSettled));
}

#[test]
fn claim_redeems_all_of_winner_a() {
    let mut market: Market = Market { total_collateral_locked: 50, ..open_market() };
    set_winning_side(&mut market, 500, WinningOutcome::OutcomeA).unwrap();
    let calls = claim_rewards(&mut market, &user(), 20, 33).unwrap();
    assert_eq!(
        calls,
        vec![
            LedgerCall::Burn {
                resource: key(2),
                from: key(12),
                amount: 20,
                authority: Authority::Wallet(key(10)),
            },
            LedgerCall::Transfer {
                resource: key(4),
                from: key(5),
                to: key(11),
                amount: 20,
                authority: market_signer(),
            },
        ]
    );
    assert_eq!(market.total_collateral_locked, 30);
    assert!(market.is_settled);
    assert_eq!(market.winning_outcome, Some(WinningOutcome::OutcomeA));
}

#[test]
fn claim_redeems_all_of_winner_b() {
    let mut market: Market = Market { total_collateral_locked: 50, ..open_market() };
    set_winning_side(&mut market, 500, WinningOutcome::OutcomeB).unwrap();
    let calls = claim_rewards(&mut market, &user(), 20, 33).unwrap();
    assert_eq!(
        calls,
        vec![
            LedgerCall::Burn {
                resource: key(3),
                from: key(13),
                amount: 33,
                authority: Authority::Wallet(key(10)),
            },
            LedgerCall::Transfer {
                resource: key(4),
                from: key(5),
                to: key(11),
                amount: 33,
                authority: market_signer(),
            },
        ]
    );
    assert_eq!(market.total_collateral_locked, 17);
}

#[test]
fn claim_works_after_the_deadline() {
    let mut market: Market = Market { total_collateral_locked: 50, ..open_market() };
    set_winning_side(&mut market, 999, WinningOutcome::OutcomeA).unwrap();
    assert!(claim_rewards(&mut market, &user(), 50, 0).is_ok());
    assert_eq!(market.total_collateral_locked, 0);
}

#[test]
fn claim_with_no_winning_balance_moves_nothing() {
    let mut market: Market = Market { total_collateral_locked: 50, ..open_market() };
    set_winning_side(&mut market, 500, WinningOutcome::OutcomeA).unwrap();
    let calls = claim_rewards(&mut market, &user(), 0, 33).unwrap();
    assert_eq!(calls.len(), 2);
    assert!(matches!(calls[0], LedgerCall::Burn { amount: 0, .. }));
    assert!(matches!(calls[1], LedgerCall::Transfer { amount: 0, .. }));
    assert_eq!(market.total_collateral_locked, 50);
}

#[test]
fn claim_rejects_more_than_collateral_locked() {
    let mut market: Market = Market { total_collateral_locked: 10, ..open_market() };
    set_winning_side(&mut market, 500, WinningOutcome::OutcomeA).unwrap();
    let settled: Market = market;
    assert_eq!(claim_rewards(&mut market, &user(), 11, 0), Err(PredictionMarketError::MathOverflow));
    assert_eq!(market, settled);
    assert!(claim_rewards(&mut market, &user(), 10, 0).is_ok());
}

#[test]
fn require_open_names_the_first_reason() {
    let market: Market = open_market();
    assert_eq!(market.require_open(999), Ok(()));
    assert_eq!(market.require_open(i64::MIN), Ok(()));
    assert_eq!(market.require_open(1_000), Err(PredictionMarketError::MarketExpired));
    let settled: Market =
        Market { is_settled: true, winning_outcome: Some(WinningOutcome::OutcomeA), ..market };
    assert_eq!(settled.require_open(999), Err(PredictionMarketError::MarketAlreadySettled));
    assert_eq!(settled.require_open(1_000), Err(PredictionMarketError::MarketAlreadySettled));
}

#[test]
fn lock_and_release_are_checked() {
    let mut market: Market = open_market();
    assert_eq!(market.lock_collateral(u64::MAX - 1), Ok(()));
    assert_eq!(market.lock_collateral(2), Err(PredictionMarketError::MathOverflow));
    assert_eq!(market.total_collateral_locked, u64::MAX - 1);
    assert_eq!(market.lock_collateral(1), Ok(()));
    assert_eq!(market.total_collateral_locked, u64::MAX);
    assert_eq!(market.release_collateral(u64::MAX), Ok(()));
    assert_eq!(market.total_collateral_locked, 0);
    assert_eq!(market.release_collateral(1), Err(PredictionMarketError::MathOverflow));
    assert_eq!(market.total_collateral_locked, 0);
    assert_eq!(market.release_collateral(0), Ok(()));
}

#[test]
fn signer_is_fixed_by_identifier_and_nonce() {
    let market: Market = open_market();
    assert_eq!(market.signer(), MarketSigner { market_id: 7, bump: 254 });
}

#[test]
fn seeds_are_tag_identifier_and_nonce() {
    let signer: MarketSigner = MarketSigner { market_id: 0x0102_0304, bump: 9 };
    assert_eq!(
        signer.seeds(),
        vec![b"market".to_vec(), vec![0x04u8, 0x03u8, 0x02u8, 0x01u8], vec![9u8]]
    );
}

#[test]
fn seeds_follow_little_endian_bytes() {
    let ids: [u32; 7] = [0, 1, 255, 256, 65_535, 16_777_216, u32::MAX];
    for id in ids {
        let signer: MarketSigner = MarketSigner { market_id: id, bump: 255 };
        let seeds: Vec<Vec<u8>> = signer.seeds();
        assert_eq!(seeds.len(), 3);
        assert_eq!(seeds[0], b"market".to_vec());
        assert_eq!(seeds[1], id.to_le_bytes().to_vec());
        assert_eq!(seeds[2], vec![255u8]);
    }
}

#[test]
fn unsettled_market_is_frozen_from_its_deadline() {
    let start: Market = Market { total_collateral_locked: 50, ..open_market() };
    let mut market: Market = start;
    let times: [i64; 3] = [1_000, 1_001, i64::MAX];
    for now in times {
        assert_eq!(split_tokens(&mut market, &user(), now, 5), Err(PredictionMarketError::MarketExpired));
        assert_eq!(merge_tokens(&mut market, &user(), now, 5, 5), Err(PredictionMarketError::MarketExpired));
        assert_eq!(
            set_winning_side(&mut market, now, WinningOutcome::OutcomeA),
            Err(PredictionMarketError::MarketExpired)
        );
        assert_eq!(claim_rewards(&mut market, &user(), 5, 5), Err(PredictionMarketError::MarketNotSettled));
        assert_eq!(market, start);
    }
}

#[test]
fn claim_does_not_depend_on_the_losing_balance() {
    let mut settled: Market = Market { total_collateral_locked: 50, ..open_market() };
    set_winning_side(&mut settled, 500, WinningOutcome::OutcomeA).unwrap();
    let mut first: Market = settled;
    let mut second: Market = settled;
    let with_none = claim_rewards(&mut first, &user(), 20, 0).unwrap();
    let with_many = claim_rewards(&mut second, &user(), 20, u64::MAX).unwrap();
    assert_eq!(with_none, with_many);
    assert_eq!(first, second);
    assert_eq!(first.total_collateral_locked, 30);
}

#[test]
fn terms_stay_fixed_through_every_operation() {
    let mut market: Market = open_market();
    split_tokens(&mut market, &user(), 500, 40).unwrap();
    merge_tokens(&mut market, &user(), 600, 10, 10).unwrap();
    set_winning_side(&mut market, 700, WinningOutcome::OutcomeB).unwrap();
    claim_rewards(&mut market, &user(), 0, 30).unwrap();
    assert_eq!(
        market,
        Market {
            is_settled: true,
            winning_outcome: Some(WinningOutcome::OutcomeB),
            total_collateral_locked: 0,
            ..open_market()
        }
    );
}

#[test]
fn rejections_come_in_a_fixed_order() {
    // Settled comes before expired, expired before a bad amount, a bad
    // amount before the counter.
    let mut settled: Market = Market {
        is_settled: true,
        winning_outcome: Some(WinningOutcome::OutcomeA),
        total_collateral_locked: u64::MAX,
        ..open_market()
    };
    assert_eq!(split_tokens(&mut settled, &user(), 2_000, 0), Err(PredictionMarketError::MarketAlreadySettled));
    let mut full: Market = Market { total_collateral_locked: u64::MAX, ..open_market() };
    assert_eq!(split_tokens(&mut full, &user(), 2_000, 0), Err(PredictionMarketError::MarketExpired));
    assert_eq!(split_tokens(&mut full, &user(), 500, 0), Err(PredictionMarketError::InvalidAmount));
    assert_eq!(split_tokens(&mut full, &user(), 500, 1), Err(PredictionMarketError::MathOverflow));
    let mut empty: Market = open_market();
    assert_eq!(merge_tokens(&mut empty, &user(), 2_000, 0, 0), Err(PredictionMarketError::MarketExpired));
    assert_eq!(merge_tokens(&mut empty, &user(), 500, 0, 0), Err(PredictionMarketError::InvalidAmount));
    assert_eq!(merge_tokens(&mut empty, &user(), 500, 1, 1), Err(PredictionMarketError::MathOverflow));
}

#[test]
fn different_markets_sign_with_different_seeds() {
    let ids: [u32; 6] = [0, 1, 256, 65_536, 16_777_216, u32::MAX];
    for first in ids {
        for second in ids {
            let a: Vec<Vec<u8>> = MarketSigner { market_id: first, bump: 7 }.seeds();
            let b: Vec<Vec<u8>> = MarketSigner { market_id: second, bump: 7 }.seeds();
            assert_eq!(a == b, first == second);
        }
    }
    assert_ne!(
        MarketSigner { market_id: 1, bump: 7 }.seeds(),
        MarketSigner { market_id: 1, bump: 8 }.seeds()
    );
}
