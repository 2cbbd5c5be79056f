//! Ledger entities: identifiers, transactions, accounts and balances.
//!
//! An [`AccountBalance`] keeps the split between available and held assets.
//! Every mutation computes both new values, checks that their sum still fits
//! the backing integer, and only then commits both fields together; on
//! failure the balance is left untouched.

use crate::fixed_decimal::{lemma_amount_ext, lemma_spec_from, UnsignedAssetCount};
use vstd::prelude::*;

verus! {

/// Identifier of a client, which doubles as the identifier of the client's
/// account (accounts and clients map one to one).
#[derive(Copy, Clone, Debug, PartialEq, Eq, Hash, Structural)]
pub struct ClientId(pub u16);

impl ClientId {
    /// Wrap a raw client id.
    pub fn new(id: u16) -> (r: Self)
        ensures
            r.0 == id,
    {
        ClientId(id)
    }
}

/// Globally unique identifier of a deposit or withdrawal, chosen by the
/// caller. Two submissions with the same id must describe the same
/// transaction.
#[derive(Copy, Clone, Debug, PartialEq, Eq, Hash, Structural)]
pub struct TransactionId(pub u32);

impl TransactionId {
    /// Wrap a raw transaction id.
    pub fn new(id: u32) -> (r: Self)
        ensures
            r.0 == id,
    {
        TransactionId(id)
    }
}

/// The content of a deposit or withdrawal: its id, the owning client and
/// the amount moved.
#[derive(Copy, Clone, Debug, PartialEq, Eq, Structural)]
pub struct TransactionMeta {
    pub id: TransactionId,
    pub client: ClientId,
    pub amount: UnsignedAssetCount,
}

impl TransactionMeta {
    /// Tag this content as a deposit.
    pub fn to_deposit_tx(self) -> (t: Transaction)
        ensures
            t == Transaction::Deposit(self),
    {
        Transaction::Deposit(self)
    }

    /// Tag this content as a withdrawal.
    pub fn to_withdrawal_tx(self) -> (t: Transaction)
        ensures
            t == Transaction::Withdrawal(self),
    {
        Transaction::Withdrawal(self)
    }
}

/// A deposit or withdrawal. Equality is structural: kind and all fields.
#[derive(Copy, Clone, Debug, PartialEq, Eq, Structural)]
pub enum Transaction {
    /// Add an amount of assets to a non-frozen account.
    Deposit(TransactionMeta),
    /// Remove an amount of assets from a non-frozen account.
    Withdrawal(TransactionMeta),
}

impl Transaction {
    /// The content shared by both transaction kinds.
    pub open spec fn spec_meta(self) -> TransactionMeta {
        match self {
            Transaction::Deposit(m) => m,
            Transaction::Withdrawal(m) => m,
        }
    }

    /// The transaction id.
    pub fn id(&self) -> (r: TransactionId)
        ensures
            r == self.spec_meta().id,
    {
        match self {
            Transaction::Deposit(m) => m.id,
            Transaction::Withdrawal(m) => m.id,
        }
    }

    /// The owning client.
    pub fn client(&self) -> (r: ClientId)
        ensures
            r == self.spec_meta().client,
    {
        match self {
            Transaction::Deposit(m) => m.client,
            Transaction::Withdrawal(m) => m.client,
        }
    }

    /// The amount moved.
    pub fn amount(&self) -> (r: UnsignedAssetCount)
        ensures
            r == self.spec_meta().amount,
    {
        match self {
            Transaction::Deposit(m) => m.amount,
            Transaction::Withdrawal(m) => m.amount,
        }
    }
}

/// Failure of a balance mutation: the resulting available, held or total
/// amount would be negative or unrepresentable.
#[derive(Copy, Clone, Debug, PartialEq, Eq, Structural)]
pub struct BalanceUpdateError;

/// The available/held split of one account's assets.
#[derive(Copy, Clone, Debug, PartialEq, Eq, Structural)]
pub struct AccountBalance {
    available: UnsignedAssetCount,
    held: UnsignedAssetCount,
}

impl AccountBalance {
    /// The available (not disputed) fraction count.
    pub closed spec fn spec_available(self) -> u64 {
        self.available@
    }

    /// The held (disputed) fraction count.
    pub closed spec fn spec_held(self) -> u64 {
        self.held@
    }

    /// The balance with the given split, as a specification-level value.
    pub closed spec fn spec_with(available: u64, held: u64) -> AccountBalance {
        AccountBalance {
            available: UnsignedAssetCount::spec_from(available),
            held: UnsignedAssetCount::spec_from(held),
        }
    }

    /// The balance invariant: the total `available + held` is representable
    /// (and both parts are non-negative by construction).
    pub open spec fn well_formed(self) -> bool {
        self.spec_available() + self.spec_held() <= u64::MAX
    }

    /// An empty balance.
    pub fn new() -> (r: Self)
        ensures
            r.spec_available() == 0,
            r.spec_held() == 0,
    {
        AccountBalance { available: UnsignedAssetCount::default(), held: UnsignedAssetCount::default() }
    }

    /// A balance with the given split, if its total is representable.
    pub fn new_with(available: UnsignedAssetCount, held: UnsignedAssetCount) -> (r: Result<
        Self,
        BalanceUpdateError,
    >)
        ensures
            available@ + held@ <= u64::MAX ==> (r matches Ok(b) && b.spec_available() == available@
                && b.spec_held() == held@),
            available@ + held@ > u64::MAX ==> r is Err,
    {
        let mut balance = Self::new();
        match balance.update(available, held) {
            Ok(()) => Ok(balance),
            Err(e) => Err(e),
        }
    }

    /// The currently available (not disputed) amount.
    pub fn available(self) -> (r: UnsignedAssetCount)
        ensures
            r@ == self.spec_available(),
    {
        self.available
    }

    /// The amount currently held pending disputes.
    pub fn held(self) -> (r: UnsignedAssetCount)
        ensures
            r@ == self.spec_held(),
    {
        self.held
    }

    /// The total amount, available plus held.
    pub fn total(self) -> (r: UnsignedAssetCount)
        requires
            self.well_formed(),
        ensures
            r@ == self.spec_available() + self.spec_held(),
    {
        match self.available.checked_add(self.held) {
            Some(t) => t,
            None => UnsignedAssetCount::default(),
        }
    }

    /// Add `amount` to the available assets; the held assets are unchanged.
    /// Fails, leaving the balance untouched, exactly when the new total
    /// would be unrepresentable.
    pub fn inc_available(&mut self, amount: UnsignedAssetCount) -> (r: Result<
        (),
        BalanceUpdateError,
    >)
        ensures
            old(self).spec_available() + amount@ + old(self).spec_held() <= u64::MAX ==> (
            r is Ok && final(self).spec_available() == old(self).spec_available() + amount@
                && final(self).spec_held() == old(self).spec_held()),
            old(self).spec_available() + amount@ + old(self).spec_held() > u64::MAX ==> (
            r is Err && *final(self) == *old(self)),
    {
        let new_available = match self.available.checked_add(amount) {
            Some(a) => a,
            None => {
                return Err(BalanceUpdateError);
            },
        };
        self.update(new_available, self.held)
    }

    /// Remove `amount` from the available assets; the held assets are
    /// unchanged. Fails, leaving the balance untouched, exactly when the
    /// available assets are smaller than `amount` or the new total would be
    /// unrepresentable.
    pub fn dec_available(&mut self, amount: UnsignedAssetCount) -> (r: Result<
        (),
        BalanceUpdateError,
    >)
        ensures
            (amount@ <= old(self).spec_available() && old(self).spec_available() - amount@ + old(
                self,
            ).spec_held() <= u64::MAX) ==> (r is Ok && final(self).spec_available() == old(
                self,
            ).spec_available() - amount@ && final(self).spec_held() == old(self).spec_held()),
            !(amount@ <= old(self).spec_available() && old(self).spec_available() - amount@ + old(
                self,
            ).spec_held() <= u64::MAX) ==> (r is Err && *final(self) == *old(self)),
    {
        let new_available = match self.available.checked_sub(amount) {
            Some(a) => a,
            None => {
                return Err(BalanceUpdateError);
            },
        };
        self.update(new_available, self.held)
    }

    /// Move `amount` from the available to the held assets, freezing it.
    /// The total is unchanged. Fails, leaving the balance untouched, exactly
    /// when the available assets are smaller than `amount`, or the new held
    /// amount or the total would be unrepresentable.
    pub fn move_available_to_held(&mut self, amount: UnsignedAssetCount) -> (r: Result<
        (),
        BalanceUpdateError,
    >)
        ensures
            (amount@ <= old(self).spec_available() && old(self).spec_held() + amount@ <= u64::MAX
                && old(self).spec_available() + old(self).spec_held() <= u64::MAX) ==> (
            r is Ok && final(self).spec_available() == old(self).spec_available() - amount@
                && final(self).spec_held() == old(self).spec_held() + amount@),
            !(amount@ <= old(self).spec_available() && old(self).spec_held() + amount@ <= u64::MAX
                && old(self).spec_available() + old(self).spec_held() <= u64::MAX) ==> (
            r is Err && *final(self) == *old(self)),
    {
        let new_available = match self.available.checked_sub(amount) {
            Some(a) => a,
            None => {
                return Err(BalanceUpdateError);
            },
        };
        let new_held = match self.held.checked_add(amount) {
            Some(h) => h,
            None => {
                return Err(BalanceUpdateError);
            },
        };
        self.update(new_available, new_held)
    }

    /// Move `amount` from the held back to the available assets, un-freezing
    /// it. The total is unchanged. Fails, leaving the balance untouched,
    /// exactly when the held assets are smaller than `amount`, or the new
    /// available amount or the total would be unrepresentable.
    pub fn move_held_to_available(&mut self, amount: UnsignedAssetCount) -> (r: Result<
        (),
        BalanceUpdateError,
    >)
        ensures
            (old(self).spec_available() + amount@ <= u64::MAX && amount@ <= old(self).spec_held()
                && old(self).spec_available() + old(self).spec_held() <= u64::MAX) ==> (
            r is Ok && final(self).spec_available() == old(self).spec_available() + amount@
                && final(self).spec_held() == old(self).spec_held() - amount@),
            !(old(self).spec_available() + amount@ <= u64::MAX && amount@ <= old(self).spec_held()
                && old(self).spec_available() + old(self).spec_held() <= u64::MAX) ==> (
            r is Err && *final(self) == *old(self)),
    {
        let new_available = match self.available.checked_add(amount) {
            Some(a) => a,
            None => {
                return Err(BalanceUpdateError);
            },
        };
        let new_held = match self.held.checked_sub(amount) {
            Some(h) => h,
            None => {
                return Err(BalanceUpdateError);
            },
        };
        self.update(new_available, new_held)
    }

    /// Replace both parts at once. Fails, leaving the balance untouched,
    /// exactly when the new total would be unrepresentable.
    pub fn update(&mut self, new_available: UnsignedAssetCount, new_held: UnsignedAssetCount) -> (r:
        Result<(), BalanceUpdateError>)
        ensures
            new_available@ + new_held@ <= u64::MAX ==> (r is Ok && final(self).spec_available()
                == new_available@ && final(self).spec_held() == new_held@),
            new_available@ + new_held@ > u64::MAX ==> (r is Err && *final(self) == *old(self)),
    {
        let total_sum_is_safe_to_compute = new_available.checked_add(new_held).is_some();
        if !total_sum_is_safe_to_compute {
            return Err(BalanceUpdateError);
        }
        self.available = new_available;
        self.held = new_held;
        Ok(())
    }
}

/// A specification-level balance splits into exactly the parts it was
/// built from.
pub broadcast proof fn lemma_spec_with_parts(available: u64, held: u64)
    ensures
        (#[trigger] AccountBalance::spec_with(available, held)).spec_available() == available,
        AccountBalance::spec_with(available, held).spec_held() == held,
{
    broadcast use lemma_spec_from;

}

/// Every balance is the specification-level balance of its own parts.
pub broadcast proof fn lemma_balance_ext(b: AccountBalance)
    ensures
        #[trigger] AccountBalance::spec_with(b.spec_available(), b.spec_held()) == b,
{
    broadcast use lemma_spec_from;

    lemma_amount_ext(UnsignedAssetCount::spec_from(b.spec_available()), b.available);
    lemma_amount_ext(UnsignedAssetCount::spec_from(b.spec_held()), b.held);
}

impl Default for AccountBalance {
    /// An empty balance.
    fn default() -> (r: Self)
        ensures
            r.spec_available() == 0,
            r.spec_held() == 0,
    {
        AccountBalance::new()
    }
}

/// Snapshot of one account: its owning client, its balance and whether it
/// was frozen by a chargeback.
#[derive(Copy, Clone, Debug, PartialEq, Eq, Structural)]
pub struct Account {
    /// The client owning this account.
    pub client: ClientId,
    pub balance: AccountBalance,
    pub locked: bool,
}

} // verus!
