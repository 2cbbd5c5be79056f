//! An in-memory transaction ledger.
//!
//! A stream of commands (deposit, withdrawal, dispute, resolve, chargeback)
//! is replayed against per-client accounts. Monetary amounts are exact
//! fixed-point decimals with four fractional digits; every arithmetic step is
//! overflow-checked and every command either succeeds atomically or leaves
//! the ledger untouched (apart from recording a rejected transaction stub).

pub mod account_service;
pub mod cmd;
pub mod csv;
pub mod fixed_decimal;
pub mod ledger;
