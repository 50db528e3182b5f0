//! The boundary with the token ledger.
//!
//! The ledger itself lives outside this library. An operation of the market
//! does not call it: it returns the calls that have to be carried out, in
//! order and as one atomic unit with the update of the record. `Ledger` is a
//! model of the ledger's state, used only in contracts and proofs, that says
//! what each call does and when it fails.

use anchor_lang::prelude::Pubkey;
use vstd::prelude::*;
use crate::state::MarketSigner;

verus! {

/// Who authorises a ledger call.
#[derive(Clone, Copy, Debug, PartialEq, Eq)]
pub enum Authority {
    /// A wallet that signs for itself.
    Wallet(Pubkey),
    /// A market, through its derived signer.
    Market(MarketSigner),
}

/// The caller of an operation and the three token accounts they hold.
#[derive(Clone, Copy, Debug, PartialEq, Eq)]
pub struct UserAccounts {
    pub user: Pubkey,
    pub collateral: Pubkey,
    pub outcome_a: Pubkey,
    pub outcome_b: Pubkey,
}

/// One call on the token ledger.
#[derive(Clone, Copy, Debug, PartialEq, Eq)]
pub enum LedgerCall {
    /// Moves `amount` of `resource` from account `from` to account `to`.
    Transfer { resource: Pubkey, from: Pubkey, to: Pubkey, amount: u64, authority: Authority },
    /// Issues `amount` of `resource` into account `to`.
    MintTo { resource: Pubkey, to: Pubkey, amount: u64, authority: Authority },
    /// Destroys `amount` of `resource` held in account `from`.
    Burn { resource: Pubkey, from: Pubkey, amount: u64, authority: Authority },
    /// Hands the right to issue `resource` from `current` to `new_authority`,
    /// or revokes it for good when `new_authority` is `None`.
    SetAuthority { resource: Pubkey, current: Authority, new_authority: Option<Authority> },
}

impl LedgerCall {
    /// Whether the call moves anything into or out of `account`.
    pub open spec fn moves(self, account: Pubkey) -> bool {
        match self {
            LedgerCall::Transfer { resource, from, to, amount, authority } => account == from
                || account == to,
            LedgerCall::MintTo { resource, to, amount, authority } => account == to,
            LedgerCall::Burn { resource, from, amount, authority } => account == from,
            LedgerCall::SetAuthority { resource, current, new_authority } => false,
        }
    }

    /// Whether the call changes how much of `resource` is outstanding or who
    /// may issue it.
    pub open spec fn concerns(self, resource: Pubkey) -> bool {
        match self {
            LedgerCall::Transfer { resource: named, from, to, amount, authority } => false,
            LedgerCall::MintTo { resource: named, to, amount, authority } => resource == named,
            LedgerCall::Burn { resource: named, from, amount, authority } => resource == named,
            LedgerCall::SetAuthority { resource: named, current, new_authority } => resource
                == named,
        }
    }
}

/// A state of the token ledger: what each account holds, how much of each
/// resource is outstanding, and who may issue it. An account or resource
/// that the maps do not mention holds nothing, has nothing outstanding and
/// has no issuer.
///
/// The model keeps what the market's accounting rests on and no more. It
/// refuses a call for the reasons given at `apply` alone; a ledger that
/// refuses more (a signature that is missing, a counter that would not fit)
/// does, where it accepts a call, what is said here.
pub ghost struct Ledger {
    pub balances: Map<Pubkey, nat>,
    pub supplies: Map<Pubkey, nat>,
    pub issuers: Map<Pubkey, Option<Authority>>,
}

impl Ledger {
    /// What `account` holds.
    pub open spec fn balance_of(self, account: Pubkey) -> nat {
        if self.balances.dom().contains(account) {
            self.balances[account]
        } else {
            0
        }
    }

    /// How much of `resource` is outstanding.
    pub open spec fn supply_of(self, resource: Pubkey) -> nat {
        if self.supplies.dom().contains(resource) {
            self.supplies[resource]
        } else {
            0
        }
    }

    /// Who may issue `resource`, if anyone.
    pub open spec fn issuer_of(self, resource: Pubkey) -> Option<Authority> {
        if self.issuers.dom().contains(resource) {
            self.issuers[resource]
        } else {
            None
        }
    }

    /// This ledger with `amount` more in `account`.
    pub open spec fn credit(self, account: Pubkey, amount: nat) -> Ledger {
        Ledger { balances: self.balances.insert(account, self.balance_of(account) + amount), ..self }
    }

    /// This ledger with `amount` less in `account`.
    pub open spec fn debit(self, account: Pubkey, amount: nat) -> Ledger
        recommends
            amount <= self.balance_of(account),
    {
        Ledger {
            balances: self.balances.insert(account, (self.balance_of(account) - amount) as nat),
            ..self
        }
    }

    /// This ledger with `supply` of `resource` outstanding.
    pub open spec fn with_supply(self, resource: Pubkey, supply: nat) -> Ledger {
        Ledger { supplies: self.supplies.insert(resource, supply), ..self }
    }

    /// This ledger with `issuer` as the one who may issue `resource`.
    pub open spec fn with_issuer(self, resource: Pubkey, issuer: Option<Authority>) -> Ledger {
        Ledger { issuers: self.issuers.insert(resource, issuer), ..self }
    }

    /// The ledger after `call`, or `None` where the ledger refuses it:
    /// a transfer or a burn of more than the account holds, a burn of more
    /// than is outstanding, an issue by anyone but the resource's issuer, a
    /// change of issuer by anyone but the current one. A refused call changes
    /// nothing.
    pub open spec fn apply(self, call: LedgerCall) -> Option<Ledger> {
        match call {
            LedgerCall::Transfer { resource, from, to, amount, authority } => {
                if self.balance_of(from) < amount {
                    None
                } else {
                    Some(self.debit(from, amount as nat).credit(to, amount as nat))
                }
            },
            LedgerCall::MintTo { resource, to, amount, authority } => {
                if self.issuer_of(resource) != Some(authority) {
                    None
                } else {
                    Some(
                        self.credit(to, amount as nat).with_supply(
                            resource,
                            self.supply_of(resource) + amount as nat,
                        ),
                    )
                }
            },
            LedgerCall::Burn { resource, from, amount, authority } => {
                if self.balance_of(from) < amount || self.supply_of(resource) < amount {
                    None
                } else {
                    Some(
                        self.debit(from, amount as nat).with_supply(
                            resource,
                            (self.supply_of(resource) - amount) as nat,
                        ),
                    )
                }
            },
            LedgerCall::SetAuthority { resource, current, new_authority } => {
                if self.issuer_of(resource) != Some(current) {
                    None
                } else {
                    Some(self.with_issuer(resource, new_authority))
                }
            },
        }
    }

    /// The ledger after all of `calls`, in order, or `None` where one of them
    /// is refused: the calls of one operation take effect together or not at
    /// all.
    pub open spec fn apply_all(self, calls: Seq<LedgerCall>) -> Option<Ledger>
        decreases calls.len(),
    {
        if calls.len() == 0 {
            Some(self)
        } else {
            match self.apply(calls[0]) {
                Some(next) => next.apply_all(calls.subrange(1, calls.len() as int)),
                None => None,
            }
        }
    }
}

} // verus!
