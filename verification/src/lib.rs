//! Verified core of a fungible-asset transfer instruction on an
//! account-based ledger.
//!
//! The `ledger` module holds the balance book: per-owner, per-mint holding
//! accounts stored at addresses derived deterministically from (owner, mint),
//! together with the ledger-mutation primitives (create, credit, debit).
//! The `transfer` module holds the transfer-instruction handler: account
//! resolution, authorization, balance validation, atomic execution with lazy
//! destination creation, and event emission, each against a mathematical
//! transition function.

pub mod ledger;
pub mod transfer;
