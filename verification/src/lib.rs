//! Settlement logic of a binary-outcome prediction market.
//!
//! Users lock collateral to mint a matched pair of outcome claims, may redeem
//! matched pairs before settlement, and redeem only the winning claim once a
//! winner has been declared.
//!
//! - `state`: the market record and the checked updates of its counter.
//! - `processor`: the five operations on a record.
//! - `ledger`: the calls that an operation hands to the token ledger, and a
//!   model of the ledger that says what they do.
//! - `laws`: what is proved of the operations and the ledger together.
//! - `error`: why an operation is rejected.
//!
//! The ledger is not called from here. An accepted operation updates the
//! record it was given and returns the ledger calls that belong to the
//! update; whoever carries them out commits the record only if every call
//! went through.

pub mod error;
pub mod laws;
pub mod ledger;
pub mod processor;
pub mod state;
