//! The five commands a caller can submit to the ledger engine.

use crate::ledger::{ClientId, TransactionId, TransactionMeta};
use vstd::prelude::*;

verus! {

/// Add assets to a client account.
#[derive(Copy, Clone, Debug, PartialEq, Eq, Structural)]
pub struct Deposit(pub TransactionMeta);

/// Remove assets from a client account.
#[derive(Copy, Clone, Debug, PartialEq, Eq, Structural)]
pub struct Withdrawal(pub TransactionMeta);

/// Claim that a previous transaction was erroneous, freezing its amount.
#[derive(Copy, Clone, Debug, PartialEq, Eq, Structural)]
pub struct Dispute {
    /// Client claiming that a previous transaction was erroneous.
    pub client: ClientId,
    pub tx: TransactionId,
}

/// Settle a dispute in favour of the original transaction.
#[derive(Copy, Clone, Debug, PartialEq, Eq, Structural)]
pub struct Resolve {
    /// Client settling the dispute as resolved.
    pub client: ClientId,
    pub tx: TransactionId,
}

/// Settle a dispute against the original transaction, reversing it and
/// freezing the account.
#[derive(Copy, Clone, Debug, PartialEq, Eq, Structural)]
pub struct Chargeback {
    /// Client settling the dispute with a chargeback.
    pub client: ClientId,
    pub tx: TransactionId,
}

/// One command of the input stream.
#[derive(Copy, Clone, Debug, PartialEq, Eq, Structural)]
pub enum Command {
    Deposit(Deposit),
    Withdrawal(Withdrawal),
    Dispute(Dispute),
    Resolve(Resolve),
    Chargeback(Chargeback),
}

} // verus!
