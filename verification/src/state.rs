//! The market record and the helpers every operation goes through.

use anchor_lang::prelude::Pubkey;
use vstd::prelude::*;
use crate::error::PredictionMarketError;

verus! {

/// `solana_program::pubkey::Pubkey`, as re-exported by `anchor_lang`: the name
/// of an account, a mint or a wallet on the token ledger. The library stores
/// and hands on such names and never looks inside one.
#[verifier::external_type_specification]
#[verifier::external_body]
pub struct ExPubkey(Pubkey);

/// One of the two outcomes a market can settle on.
#[derive(Clone, Copy, Debug, PartialEq, Eq, Structural)]
pub enum WinningOutcome {
    OutcomeA,
    OutcomeB,
}

/// The handle by which a market authorises ledger calls on the resources it
/// controls. It is no held secret: it is fixed by the market's identifier and
/// nonce, and the ledger recognises the seeds derived from them.
#[derive(Clone, Copy, Debug, PartialEq, Eq)]
pub struct MarketSigner {
    pub market_id: u32,
    pub bump: u8,
}

/// The persistent state of one market.
#[derive(Clone, Copy, Debug, PartialEq, Eq)]
pub struct Market {
    /// Who created the market. Informational after creation.
    pub authority: Pubkey,
    /// External identifier; together with `bump` it fixes the market's signer.
    pub market_id: u32,
    /// From this time on the market accepts no split, merge or settlement.
    pub settlement_deadline: i64,
    pub outcome_a_mint: Pubkey,
    pub outcome_b_mint: Pubkey,
    pub collateral_mint: Pubkey,
    pub collateral_vault: Pubkey,
    /// Set once by settlement, never cleared.
    pub is_settled: bool,
    /// The declared winner; present exactly when `is_settled`.
    pub winning_outcome: Option<WinningOutcome>,
    /// Collateral held in the vault on behalf of this market.
    pub total_collateral_locked: u64,
    /// Nonce of the market's derived signer.
    pub bump: u8,
}

/// The bytes of the ASCII word `market`, the first seed of every market signer.
pub open spec fn market_tag() -> Seq<u8> {
    seq![109u8, 97u8, 114u8, 107u8, 101u8, 116u8]
}

/// The four bytes of `x`, least significant first.
pub open spec fn le_bytes(x: u32) -> Seq<u8> {
    seq![
        (x % 256) as u8,
        (x / 256 % 256) as u8,
        (x / 65536 % 256) as u8,
        (x / 16777216) as u8,
    ]
}

impl MarketSigner {
    /// The seeds that stand for this signer on the ledger: the word `market`,
    /// the identifier in little-endian order, and the nonce.
    pub fn seeds(&self) -> (res: Vec<Vec<u8>>)
        ensures
            res@.len() == 3,
            res@[0]@ == market_tag(),
            res@[1]@ == le_bytes(self.market_id),
            res@[2]@ == seq![self.bump],
    {
        let id: u32 = self.market_id;
        let tag: Vec<u8> = vec![109u8, 97u8, 114u8, 107u8, 101u8, 116u8];
        let number: Vec<u8> = vec![
            (id % 256) as u8,
            (id / 256 % 256) as u8,
            (id / 65536 % 256) as u8,
            (id / 16777216) as u8,
        ];
        let nonce: Vec<u8> = vec![self.bump];
        assert(tag@ =~= market_tag());
        assert(number@ =~= le_bytes(id));
        assert(nonce@ =~= seq![self.bump]);
        vec![tag, number, nonce]
    }
}

impl Market {
    /// A record is well formed when it is settled exactly if it names a winner.
    pub open spec fn wf(self) -> bool {
        self.is_settled <==> self.winning_outcome is Some
    }

    /// The signer of this market.
    pub open spec fn signer_spec(&self) -> MarketSigner {
        MarketSigner { market_id: self.market_id, bump: self.bump }
    }

    /// The same record with `locked` as its collateral counter.
    pub open spec fn with_locked(self, locked: u64) -> Market {
        Market { total_collateral_locked: locked, ..self }
    }

    /// The same record, settled on `winner`.
    pub open spec fn settled_on(self, winner: WinningOutcome) -> Market {
        Market { is_settled: true, winning_outcome: Some(winner), ..self }
    }

    /// Why the market takes no split, merge or settlement at time `now`, if
    /// it takes none: a settled market is refused as settled whatever the
    /// time; an unsettled one is expired from its deadline on.
    pub open spec fn closed_reason(self, now: i64) -> Option<PredictionMarketError> {
        if self.is_settled {
            Some(PredictionMarketError::MarketAlreadySettled)
        } else if now >= self.settlement_deadline {
            Some(PredictionMarketError::MarketExpired)
        } else {
            None
        }
    }

    /// The signer of this market.
    #[verifier::when_used_as_spec(signer_spec)]
    pub fn signer(&self) -> (s: MarketSigner)
        ensures
            s == self.signer_spec(),
    {
        MarketSigner { market_id: self.market_id, bump: self.bump }
    }

    /// Checks that the market is neither settled nor expired at time `now`.
    pub fn require_open(&self, now: i64) -> (res: Result<(), PredictionMarketError>)
        ensures
            res is Ok <==> self.closed_reason(now) is None,
            res matches Err(e) ==> self.closed_reason(now) == Some(e),
    {
        if self.is_settled {
            Err(PredictionMarketError::MarketAlreadySettled)
        } else if now >= self.settlement_deadline {
            Err(PredictionMarketError::MarketExpired)
        } else {
            Ok(())
        }
    }

    /// Adds `amount` to the collateral counter, or fails without changing the
    /// record when the sum does not fit the counter.
    pub fn lock_collateral(&mut self, amount: u64) -> (res: Result<(), PredictionMarketError>)
        ensures
            old(self).total_collateral_locked + amount <= u64::MAX ==> res is Ok && *final(self)
                == old(self).with_locked((old(self).total_collateral_locked + amount) as u64),
            old(self).total_collateral_locked + amount > u64::MAX ==> res == Err::<(), _>(
                PredictionMarketError::MathOverflow,
            ) && *final(self) == *old(self),
    {
        match self.total_collateral_locked.checked_add(amount) {
            Some(sum) => {
                self.total_collateral_locked = sum;
                Ok(())
            },
            None => Err(PredictionMarketError::MathOverflow),
        }
    }

    /// Takes `amount` off the collateral counter, or fails without changing
    /// the record when the counter holds less.
    pub fn release_collateral(&mut self, amount: u64) -> (res: Result<(), PredictionMarketError>)
        ensures
            amount <= old(self).total_collateral_locked ==> res is Ok && *final(self)
                == old(self).with_locked((old(self).total_collateral_locked - amount) as u64),
            amount > old(self).total_collateral_locked ==> res == Err::<(), _>(
                PredictionMarketError::MathOverflow,
            ) && *final(self) == *old(self),
    {
        match self.total_collateral_locked.checked_sub(amount) {
            Some(rest) => {
                self.total_collateral_locked = rest;
                Ok(())
            },
            None => Err(PredictionMarketError::MathOverflow),
        }
    }
}

} // verus!
