//! The in-memory account ledger engine.
//!
//! A [`MemAccountService`] replays a stream of commands against per-client
//! accounts. Its whole behaviour is captured by the `spec_*` transition
//! functions: every handler returns exactly the state and result those
//! functions dictate, for every input.

use crate::cmd;
use crate::ledger::{Account, AccountBalance, ClientId, Transaction, TransactionId, TransactionMeta};
use std::collections::HashMap;
use vstd::prelude::*;

verus! {

broadcast use
    vstd::std_specs::hash::group_hash_axioms,
    crate::ledger::lemma_spec_with_parts,
    crate::ledger::lemma_balance_ext,
;

/// How to handle disputes that refer to withdrawal transactions.
#[derive(Copy, Clone, Debug)]
pub enum WithdrawalDisputePolicy {
    /// Refuse every dispute that refers to a withdrawal.
    Deny,
    /// Allow the dispute only if the available assets cover the disputed
    /// amount, so a later chargeback can always recover the refund.
    IfMoreAvailableThanDisputed,
}

/// The lifecycle state of a recorded transaction.
#[derive(Copy, Clone, Debug, PartialEq, Eq, Structural)]
pub enum TransactionState {
    /// The transaction is valid and its effect is realized. It may become
    /// `Disputed` if a dispute is claimed.
    Valid,
    /// The transaction is disputed: the corresponding assets are held. It
    /// can return to `Valid` through a resolve, or end `Rejected` through a
    /// chargeback.
    Disputed,
    /// The transaction was rejected, either at submission or by a
    /// chargeback. A rejected transaction stays rejected.
    Rejected,
}

/// A recorded transaction together with its current lifecycle state.
#[derive(Copy, Clone, Debug, PartialEq, Eq, Structural)]
pub struct TransactionWithState {
    pub tx: Transaction,
    pub state: TransactionState,
}

impl TransactionWithState {
    /// Record `tx` in the `Valid` state.
    pub fn valid(tx: Transaction) -> (r: Self)
        ensures
            r == (TransactionWithState { tx, state: TransactionState::Valid }),
    {
        TransactionWithState { tx, state: TransactionState::Valid }
    }

    /// Record `tx` in the `Rejected` state.
    pub fn rejected(tx: Transaction) -> (r: Self)
        ensures
            r == (TransactionWithState { tx, state: TransactionState::Rejected }),
    {
        TransactionWithState { tx, state: TransactionState::Rejected }
    }
}

/// One client account as stored by the engine.
#[derive(Copy, Clone, Debug, PartialEq, Eq, Structural)]
pub struct MemAccount {
    pub id: ClientId,
    pub locked: bool,
    pub balance: AccountBalance,
}

impl MemAccount {
    /// A fresh, unlocked account with an empty balance.
    pub fn new(id: ClientId) -> (r: Self)
        ensures
            r == (MemAccount { id, locked: false, balance: AccountBalance::spec_with(0, 0) }),
    {
        MemAccount { id, locked: false, balance: AccountBalance::new() }
    }
}

/// Failure of a deposit command.
#[derive(Copy, Clone, Debug, PartialEq, Eq, Structural)]
pub enum DepositError {
    /// Multiple different transactions carry the same transaction id.
    TransactionIdConflict,
    /// The client account is locked.
    Locked,
    /// The account balance update would overflow.
    BalanceUpdateError,
}

/// Failure of a withdrawal command.
#[derive(Copy, Clone, Debug, PartialEq, Eq, Structural)]
pub enum WithdrawalError {
    /// Multiple different transactions carry the same transaction id.
    TransactionIdConflict,
    /// The client account is locked.
    Locked,
    /// The account balance update would overflow or underflow.
    BalanceUpdateError,
    /// The available assets do not cover the withdrawal.
    InsufficientAssets,
}

/// Failure of a dispute command.
#[derive(Copy, Clone, Debug, PartialEq, Eq, Structural)]
pub enum DisputeError {
    /// The disputed transaction does not exist.
    NotFound(TransactionId),
    /// Only the account owner may claim a dispute.
    InvalidClaimant { owner: ClientId, claimant: ClientId },
    /// The transaction was already rejected.
    AlreadyRejected(TransactionId),
    /// The client account is locked.
    Locked,
    /// The account balance update would overflow or underflow.
    BalanceUpdateError,
    /// Disputing withdrawals is denied by policy.
    WithdrawalDisputeDenied,
    /// The available assets do not cover the disputed amount.
    InsufficientAssets,
}

/// Failure of a resolve command.
#[derive(Copy, Clone, Debug, PartialEq, Eq, Structural)]
pub enum ResolveError {
    /// The transaction to resolve does not exist.
    NotFound(TransactionId),
    /// Only the account owner may settle a dispute.
    InvalidClaimant { owner: ClientId, claimant: ClientId },
    /// The transaction was already rejected.
    AlreadyRejected(TransactionId),
    /// The client account is locked.
    Locked,
    /// The account balance update would overflow or underflow.
    BalanceUpdateError,
}

/// Failure of a chargeback command.
#[derive(Copy, Clone, Debug, PartialEq, Eq, Structural)]
pub enum ChargebackError {
    /// The transaction to charge back does not exist.
    NotFound(TransactionId),
    /// Only the account owner may settle a dispute.
    InvalidClaimant { owner: ClientId, claimant: ClientId },
    /// Only a disputed transaction can be charged back.
    NonDisputed(TransactionId),
    /// The client account is locked.
    Locked,
    /// The account balance update would overflow or underflow.
    BalanceUpdateError,
}

/// Failure of any command, tagged by the command kind.
#[derive(Copy, Clone, Debug, PartialEq, Eq, Structural)]
pub enum SubmitError {
    Deposit(DepositError),
    Withdrawal(WithdrawalError),
    Dispute(DisputeError),
    Resolve(ResolveError),
    Chargeback(ChargebackError),
}

/// The mathematical state of an engine: its policy and the contents of its
/// two maps, keyed by the raw transaction and client ids.
#[verifier::ext_equal]
pub struct ServiceView {
    pub policy: WithdrawalDisputePolicy,
    pub transactions: Map<u32, TransactionWithState>,
    pub accounts: Map<u16, MemAccount>,
}

impl ServiceView {
    /// The stored account of `client`, or a fresh one if none exists yet.
    pub open spec fn account_or_new(self, client: ClientId) -> MemAccount {
        if self.accounts.contains_key(client.0) {
            self.accounts[client.0]
        } else {
            MemAccount { id: client, locked: false, balance: AccountBalance::spec_with(0, 0) }
        }
    }

    /// This state with `a` stored as the account of `client`.
    pub open spec fn with_account(self, client: ClientId, a: MemAccount) -> ServiceView {
        ServiceView { accounts: self.accounts.insert(client.0, a), ..self }
    }

    /// This state with `t` recorded under the transaction id `key`.
    pub open spec fn with_tx(self, key: u32, t: TransactionWithState) -> ServiceView {
        ServiceView { transactions: self.transactions.insert(key, t), ..self }
    }

    /// The engine invariant: each record sits under its own id, and every
    /// account balance has a representable total.
    pub open spec fn wf(self) -> bool {
        &&& forall|k: u32|
            #[trigger] self.transactions.contains_key(k) ==> self.transactions[k].tx.spec_meta().id.0
                == k
        &&& forall|k: u16| #[trigger] self.accounts.contains_key(k) ==> self.accounts[k].id.0 == k
        &&& forall|k: u16|
            #[trigger] self.accounts.contains_key(k) ==> self.accounts[k].balance.well_formed()
    }
}

/// What a deposit of `meta` does to the state `s`, and what it returns.
///
/// The account is created on first contact. A known id is an idempotent
/// no-op when the stored transaction is identical, and a conflict otherwise.
/// A new deposit on an unlocked account adds the amount to the available
/// assets if the new total is representable; a failed deposit is recorded as
/// a rejected stub.
pub open spec fn spec_deposit(s: ServiceView, meta: TransactionMeta) -> (
    ServiceView,
    Result<(), DepositError>,
) {
    let tx = Transaction::Deposit(meta);
    let a = s.account_or_new(meta.client);
    let s1 = s.with_account(meta.client, a);
    if s1.transactions.contains_key(meta.id.0) {
        if s1.transactions[meta.id.0].tx == tx {
            (s1, Ok(()))
        } else {
            (s1, Err(DepositError::TransactionIdConflict))
        }
    } else if a.locked {
        (
            s1.with_tx(meta.id.0, TransactionWithState { tx, state: TransactionState::Rejected }),
            Err(DepositError::Locked),
        )
    } else if a.balance.spec_available() + meta.amount@ + a.balance.spec_held() > u64::MAX {
        (
            s1.with_tx(meta.id.0, TransactionWithState { tx, state: TransactionState::Rejected }),
            Err(DepositError::BalanceUpdateError),
        )
    } else {
        let a2 = MemAccount {
            balance: AccountBalance::spec_with(
                (a.balance.spec_available() + meta.amount@) as u64,
                a.balance.spec_held(),
            ),
            ..a
        };
        (
            s1.with_account(meta.client, a2).with_tx(
                meta.id.0,
                TransactionWithState { tx, state: TransactionState::Valid },
            ),
            Ok(()),
        )
    }
}

/// What a withdrawal of `meta` does to the state `s`, and what it returns.
///
/// Like a deposit, but the amount is removed from the available assets and
/// the withdrawal additionally fails when the available assets do not cover
/// it.
pub open spec fn spec_withdrawal(s: ServiceView, meta: TransactionMeta) -> (
    ServiceView,
    Result<(), WithdrawalError>,
) {
    let tx = Transaction::Withdrawal(meta);
    let a = s.account_or_new(meta.client);
    let s1 = s.with_account(meta.client, a);
    if s1.transactions.contains_key(meta.id.0) {
        if s1.transactions[meta.id.0].tx == tx {
            (s1, Ok(()))
        } else {
            (s1, Err(WithdrawalError::TransactionIdConflict))
        }
    } else if a.locked {
        (
            s1.with_tx(meta.id.0, TransactionWithState { tx, state: TransactionState::Rejected }),
            Err(WithdrawalError::Locked),
        )
    } else if a.balance.spec_available() < meta.amount@ {
        (
            s1.with_tx(meta.id.0, TransactionWithState { tx, state: TransactionState::Rejected }),
            Err(WithdrawalError::InsufficientAssets),
        )
    } else if a.balance.spec_available() - meta.amount@ + a.balance.spec_held() > u64::MAX {
        (
            s1.with_tx(meta.id.0, TransactionWithState { tx, state: TransactionState::Rejected }),
            Err(WithdrawalError::BalanceUpdateError),
        )
    } else {
        let a2 = MemAccount {
            balance: AccountBalance::spec_with(
                (a.balance.spec_available() - meta.amount@) as u64,
                a.balance.spec_held(),
            ),
            ..a
        };
        (
            s1.with_account(meta.client, a2).with_tx(
                meta.id.0,
                TransactionWithState { tx, state: TransactionState::Valid },
            ),
            Ok(()),
        )
    }
}

/// The in-memory account service: the engine owning every account and every
/// recorded transaction.
pub struct MemAccountService {
    withdrawal_dispute_policy: WithdrawalDisputePolicy,
    transactions: HashMap<u32, TransactionWithState>,
    accounts: HashMap<u16, MemAccount>,
}

impl View for MemAccountService {
    type V = ServiceView;

    closed spec fn view(&self) -> ServiceView {
        ServiceView {
            policy: self.withdrawal_dispute_policy,
            transactions: self.transactions@,
            accounts: self.accounts@,
        }
    }
}

impl MemAccountService {
    /// A fresh engine with no accounts and no transactions, applying the
    /// given withdrawal dispute policy for its whole lifetime.
    pub fn new(withdrawal_dispute_policy: WithdrawalDisputePolicy) -> (r: Self)
        ensures
            r@.policy == withdrawal_dispute_policy,
            r@.transactions == Map::<u32, TransactionWithState>::empty(),
            r@.accounts == Map::<u16, MemAccount>::empty(),
            r@.wf(),
    {
        let r = MemAccountService {
            withdrawal_dispute_policy,
            transactions: HashMap::new(),
            accounts: HashMap::new(),
        };
        proof {
            assert(r@.transactions =~= Map::<u32, TransactionWithState>::empty());
            assert(r@.accounts =~= Map::<u16, MemAccount>::empty());
        }
        r
    }

    /// Fetch the account of `client`, creating and storing a fresh one if
    /// none exists yet.
    fn upsert_account(&mut self, client: ClientId) -> (a: MemAccount)
        ensures
            a == old(self)@.account_or_new(client),
            final(self)@ == old(self)@.with_account(client, a),
    {
        let found = match self.accounts.get(&client.0) {
            Some(a) => Some(*a),
            None => None,
        };
        match found {
            Some(acc) => {
                proof {
                    assert(self@ =~= old(self)@.with_account(client, acc)) by {
                        assert(self@.accounts =~= old(self)@.accounts.insert(client.0, acc));
                    };
                }
                acc
            },
            None => {
                let acc = MemAccount::new(client);
                self.accounts.insert(client.0, acc);
                proof {
                    assert(self@ =~= old(self)@.with_account(client, acc));
                }
                acc
            },
        }
    }

    /// Apply a deposit: add `cmd`'s amount to the available assets of its
    /// client's account, under the create-or-verify discipline for its
    /// transaction id.
    pub fn submit_deposit(&mut self, cmd: cmd::Deposit) -> (r: Result<(), DepositError>)
        ensures
            final(self)@ == spec_deposit(old(self)@, cmd.0).0,
            r == spec_deposit(old(self)@, cmd.0).1,
            old(self)@.wf() ==> final(self)@.wf(),
    {
        let meta = cmd.0;
        let tx = meta.to_deposit_tx();
        let account = self.upsert_account(meta.client);
        let existing = match self.transactions.get(&meta.id.0) {
            Some(t) => Some(*t),
            None => None,
        };
        match existing {
            Some(e) => {
                if e.tx != tx {
                    Err(DepositError::TransactionIdConflict)
                } else {
                    Ok(())
                }
            },
            None => {
                if account.locked {
                    self.transactions.insert(meta.id.0, TransactionWithState::rejected(tx));
                    return Err(DepositError::Locked);
                }
                let mut balance = account.balance;
                match balance.inc_available(meta.amount) {
                    Ok(()) => {
                        let account2 = MemAccount { balance, ..account };
                        self.accounts.insert(meta.client.0, account2);
                        self.transactions.insert(meta.id.0, TransactionWithState::valid(tx));
                        proof {
                            assert(self@ =~= spec_deposit(old(self)@, cmd.0).0);
                        }
                        Ok(())
                    },
                    Err(_) => {
                        self.transactions.insert(meta.id.0, TransactionWithState::rejected(tx));
                        Err(DepositError::BalanceUpdateError)
                    },
                }
            },
        }
    }

    /// Apply a withdrawal: remove `cmd`'s amount from the available assets
    /// of its client's account, under the create-or-verify discipline for
    /// its transaction id.
    pub fn submit_withdrawal(&mut self, cmd: cmd::Withdrawal) -> (r: Result<(), WithdrawalError>)
        ensures
            final(self)@ == spec_withdrawal(old(self)@, cmd.0).0,
            r == spec_withdrawal(old(self)@, cmd.0).1,
            old(self)@.wf() ==> final(self)@.wf(),
    {
        let meta = cmd.0;
        let tx = meta.to_withdrawal_tx();
        let account = self.upsert_account(meta.client);
        let existing = match self.transactions.get(&meta.id.0) {
            Some(t) => Some(*t),
            None => None,
        };
        match existing {
            Some(e) => {
                if e.tx != tx {
                    Err(WithdrawalError::TransactionIdConflict)
                } else {
                    Ok(())
                }
            },
            None => {
                if account.locked {
                    self.transactions.insert(meta.id.0, TransactionWithState::rejected(tx));
                    return Err(WithdrawalError::Locked);
                }
                if account.balance.available().fractions() < meta.amount.fractions() {
                    self.transactions.insert(meta.id.0, TransactionWithState::rejected(tx));
                    return Err(WithdrawalError::InsufficientAssets);
                }
                let mut balance = account.balance;
                match balance.dec_available(meta.amount) {
                    Ok(()) => {
                        let account2 = MemAccount { balance, ..account };
                        self.accounts.insert(meta.client.0, account2);
                        self.transactions.insert(meta.id.0, TransactionWithState::valid(tx));
                        proof {
                            assert(self@ =~= spec_withdrawal(old(self)@, cmd.0).0);
                        }
                        Ok(())
                    },
                    Err(_) => {
                        self.transactions.insert(meta.id.0, TransactionWithState::rejected(tx));
                        Err(WithdrawalError::BalanceUpdateError)
                    },
                }
            },
        }
    }
}


/// What a dispute claim does to the state `s`, and what it returns.
///
/// The claim must name an existing transaction, come from the account
/// owner, and find the account unlocked and the transaction not rejected.
/// Disputing an already disputed transaction is a no-op. A valid claim
/// freezes the transaction amount by moving it from available to held and
/// marks the transaction disputed; a deposit can only be disputed while the
/// available assets cover the amount, and a withdrawal as the policy says.
pub open spec fn spec_dispute(s: ServiceView, d: cmd::Dispute) -> (
    ServiceView,
    Result<(), DisputeError>,
) {
    if !s.transactions.contains_key(d.tx.0) {
        (s, Err(DisputeError::NotFound(d.tx)))
    } else {
        let rec = s.transactions[d.tx.0];
        let owner = rec.tx.spec_meta().client;
        let a = s.account_or_new(owner);
        let s1 = s.with_account(owner, a);
        if d.client != a.id {
            (s1, Err(DisputeError::InvalidClaimant { owner: a.id, claimant: d.client }))
        } else if a.locked {
            (s1, Err(DisputeError::Locked))
        } else {
            match rec.state {
                TransactionState::Rejected => (s1, Err(DisputeError::AlreadyRejected(d.tx))),
                TransactionState::Disputed => (s1, Ok(())),
                TransactionState::Valid => {
                    let avail = a.balance.spec_available();
                    let held = a.balance.spec_held();
                    let amt = rec.tx.spec_meta().amount@;
                    let covered = avail >= amt;
                    let refusal = match rec.tx {
                        Transaction::Deposit(_) => if !covered {
                            Some(DisputeError::InsufficientAssets)
                        } else {
                            None
                        },
                        Transaction::Withdrawal(_) => match s.policy {
                            WithdrawalDisputePolicy::Deny => Some(
                                DisputeError::WithdrawalDisputeDenied,
                            ),
                            WithdrawalDisputePolicy::IfMoreAvailableThanDisputed => if !covered {
                                Some(DisputeError::InsufficientAssets)
                            } else {
                                None
                            },
                        },
                    };
                    match refusal {
                        Some(e) => (s1, Err(e)),
                        None => {
                            if !(amt <= avail && held + amt <= u64::MAX && avail + held
                                <= u64::MAX) {
                                (s1, Err(DisputeError::BalanceUpdateError))
                            } else {
                                let a2 = MemAccount {
                                    balance: AccountBalance::spec_with(
                                        (avail - amt) as u64,
                                        (held + amt) as u64,
                                    ),
                                    ..a
                                };
                                (
                                    s1.with_account(owner, a2).with_tx(
                                        d.tx.0,
                                        TransactionWithState {
                                            tx: rec.tx,
                                            state: TransactionState::Disputed,
                                        },
                                    ),
                                    Ok(()),
                                )
                            }
                        },
                    }
                },
            }
        }
    }
}

/// What a resolve does to the state `s`, and what it returns.
///
/// The claim must name an existing transaction, come from the account
/// owner, and find the account unlocked and the transaction not rejected.
/// Resolving a transaction that is not disputed is a no-op. Resolving a
/// disputed transaction moves its amount from held back to available and
/// marks it valid again.
pub open spec fn spec_resolve(s: ServiceView, d: cmd::Resolve) -> (
    ServiceView,
    Result<(), ResolveError>,
) {
    if !s.transactions.contains_key(d.tx.0) {
        (s, Err(ResolveError::NotFound(d.tx)))
    } else {
        let rec = s.transactions[d.tx.0];
        let owner = rec.tx.spec_meta().client;
        let a = s.account_or_new(owner);
        let s1 = s.with_account(owner, a);
        if d.client != a.id {
            (s1, Err(ResolveError::InvalidClaimant { owner: a.id, claimant: d.client }))
        } else if a.locked {
            (s1, Err(ResolveError::Locked))
        } else {
            match rec.state {
                TransactionState::Rejected => (s1, Err(ResolveError::AlreadyRejected(d.tx))),
                TransactionState::Valid => (s1, Ok(())),
                TransactionState::Disputed => {
                    let avail = a.balance.spec_available();
                    let held = a.balance.spec_held();
                    let amt = rec.tx.spec_meta().amount@;
                    if !(avail + amt <= u64::MAX && amt <= held && avail + held <= u64::MAX) {
                        (s1, Err(ResolveError::BalanceUpdateError))
                    } else {
                        let a2 = MemAccount {
                            balance: AccountBalance::spec_with(
                                (avail + amt) as u64,
                                (held - amt) as u64,
                            ),
                            ..a
                        };
                        (
                            s1.with_account(owner, a2).with_tx(
                                d.tx.0,
                                TransactionWithState {
                                    tx: rec.tx,
                                    state: TransactionState::Valid,
                                },
                            ),
                            Ok(()),
                        )
                    }
                },
            }
        }
    }
}

/// What a chargeback does to the state `s`, and what it returns.
///
/// The claim must name an existing transaction, come from the account
/// owner, and find the account unlocked. Charging back an already rejected
/// transaction is a no-op; a transaction that was never disputed cannot be
/// charged back. A disputed deposit loses its held amount; a disputed
/// withdrawal additionally refunds the withdrawn amount to the available
/// assets. Either way the transaction ends rejected and the account is
/// locked for good.
pub open spec fn spec_chargeback(s: ServiceView, d: cmd::Chargeback) -> (
    ServiceView,
    Result<(), ChargebackError>,
) {
    if !s.transactions.contains_key(d.tx.0) {
        (s, Err(ChargebackError::NotFound(d.tx)))
    } else {
        let rec = s.transactions[d.tx.0];
        let owner = rec.tx.spec_meta().client;
        let a = s.account_or_new(owner);
        let s1 = s.with_account(owner, a);
        if d.client != a.id {
            (s1, Err(ChargebackError::InvalidClaimant { owner: a.id, claimant: d.client }))
        } else if a.locked {
            (s1, Err(ChargebackError::Locked))
        } else {
            match rec.state {
                TransactionState::Rejected => (s1, Ok(())),
                TransactionState::Valid => (s1, Err(ChargebackError::NonDisputed(d.tx))),
                TransactionState::Disputed => {
                    let avail = a.balance.spec_available();
                    let held = a.balance.spec_held();
                    let amt = rec.tx.spec_meta().amount@;
                    let new_avail = match rec.tx {
                        Transaction::Deposit(_) => avail as int,
                        Transaction::Withdrawal(_) => avail + amt,
                    };
                    if !(amt <= held && new_avail <= u64::MAX && new_avail + (held - amt)
                        <= u64::MAX) {
                        (s1, Err(ChargebackError::BalanceUpdateError))
                    } else {
                        let a2 = MemAccount {
                            locked: true,
                            balance: AccountBalance::spec_with(
                                new_avail as u64,
                                (held - amt) as u64,
                            ),
                            ..a
                        };
                        (
                            s1.with_account(owner, a2).with_tx(
                                d.tx.0,
                                TransactionWithState {
                                    tx: rec.tx,
                                    state: TransactionState::Rejected,
                                },
                            ),
                            Ok(()),
                        )
                    }
                },
            }
        }
    }
}

impl MemAccountService {
    /// Claim a dispute against a recorded transaction, freezing its amount.
    pub fn submit_dispute(&mut self, cmd: cmd::Dispute) -> (r: Result<(), DisputeError>)
        ensures
            final(self)@ == spec_dispute(old(self)@, cmd).0,
            r == spec_dispute(old(self)@, cmd).1,
            old(self)@.wf() ==> final(self)@.wf(),
    {
        let rec = match self.transactions.get(&cmd.tx.0) {
            Some(t) => *t,
            None => {
                return Err(DisputeError::NotFound(cmd.tx));
            },
        };
        let owner = rec.tx.client();
        let account = self.upsert_account(owner);
        if cmd.client != account.id {
            return Err(DisputeError::InvalidClaimant { owner: account.id, claimant: cmd.client });
        }
        if account.locked {
            return Err(DisputeError::Locked);
        }
        match rec.state {
            TransactionState::Rejected => Err(DisputeError::AlreadyRejected(cmd.tx)),
            TransactionState::Disputed => Ok(()),
            TransactionState::Valid => {
                let disputed_amount = rec.tx.amount();
                let has_more_available_than_disputed = account.balance.available().fractions()
                    >= disputed_amount.fractions();
                match rec.tx {
                    Transaction::Deposit(_) => {
                        if !has_more_available_than_disputed {
                            return Err(DisputeError::InsufficientAssets);
                        }
                    },
                    Transaction::Withdrawal(_) => match self.withdrawal_dispute_policy {
                        WithdrawalDisputePolicy::Deny => {
                            return Err(DisputeError::WithdrawalDisputeDenied);
                        },
                        WithdrawalDisputePolicy::IfMoreAvailableThanDisputed => {
                            if !has_more_available_than_disputed {
                                return Err(DisputeError::InsufficientAssets);
                            }
                        },
                    },
                }
                let mut balance = account.balance;
                match balance.move_available_to_held(disputed_amount) {
                    Ok(()) => {
                        let account2 = MemAccount { balance, ..account };
                        self.accounts.insert(owner.0, account2);
                        self.transactions.insert(
                            cmd.tx.0,
                            TransactionWithState { tx: rec.tx, state: TransactionState::Disputed },
                        );
                        proof {
                            assert(self@ =~= spec_dispute(old(self)@, cmd).0);
                        }
                        Ok(())
                    },
                    Err(_) => Err(DisputeError::BalanceUpdateError),
                }
            },
        }
    }

    /// Resolve a dispute in favour of the original transaction, un-freezing
    /// the held amount.
    pub fn submit_resolve(&mut self, cmd: cmd::Resolve) -> (r: Result<(), ResolveError>)
        ensures
            final(self)@ == spec_resolve(old(self)@, cmd).0,
            r == spec_resolve(old(self)@, cmd).1,
            old(self)@.wf() ==> final(self)@.wf(),
    {
        let rec = match self.transactions.get(&cmd.tx.0) {
            Some(t) => *t,
            None => {
                return Err(ResolveError::NotFound(cmd.tx));
            },
        };
        let owner = rec.tx.client();
        let account = self.upsert_account(owner);
        if cmd.client != account.id {
            return Err(ResolveError::InvalidClaimant { owner: account.id, claimant: cmd.client });
        }
        if account.locked {
            return Err(ResolveError::Locked);
        }
        match rec.state {
            TransactionState::Rejected => Err(ResolveError::AlreadyRejected(cmd.tx)),
            TransactionState::Valid => Ok(()),
            TransactionState::Disputed => {
                let disputed_amount = rec.tx.amount();
                let mut balance = account.balance;
                match balance.move_held_to_available(disputed_amount) {
                    Ok(()) => {
                        let account2 = MemAccount { balance, ..account };
                        self.accounts.insert(owner.0, account2);
                        self.transactions.insert(
                            cmd.tx.0,
                            TransactionWithState { tx: rec.tx, state: TransactionState::Valid },
                        );
                        proof {
                            assert(self@ =~= spec_resolve(old(self)@, cmd).0);
                        }
                        Ok(())
                    },
                    Err(_) => Err(ResolveError::BalanceUpdateError),
                }
            },
        }
    }

    /// Settle a dispute against the original transaction: reverse its
    /// effect, reject it for good and lock the account.
    pub fn submit_chargeback(&mut self, cmd: cmd::Chargeback) -> (r: Result<(), ChargebackError>)
        ensures
            final(self)@ == spec_chargeback(old(self)@, cmd).0,
            r == spec_chargeback(old(self)@, cmd).1,
            old(self)@.wf() ==> final(self)@.wf(),
    {
        let rec = match self.transactions.get(&cmd.tx.0) {
            Some(t) => *t,
            None => {
                return Err(ChargebackError::NotFound(cmd.tx));
            },
        };
        let owner = rec.tx.client();
        let account = self.upsert_account(owner);
        if cmd.client != account.id {
            return Err(
                ChargebackError::InvalidClaimant { owner: account.id, claimant: cmd.client },
            );
        }
        if account.locked {
            return Err(ChargebackError::Locked);
        }
        match rec.state {
            TransactionState::Rejected => Ok(()),
            TransactionState::Valid => Err(ChargebackError::NonDisputed(cmd.tx)),
            TransactionState::Disputed => {
                let disputed_amount = rec.tx.amount();
                let new_held = match account.balance.held().checked_sub(disputed_amount) {
                    Some(h) => h,
                    None => {
                        return Err(ChargebackError::BalanceUpdateError);
                    },
                };
                let new_available = match rec.tx {
                    Transaction::Deposit(_) => account.balance.available(),
                    Transaction::Withdrawal(_) => {
                        match account.balance.available().checked_add(disputed_amount) {
                            Some(x) => x,
                            None => {
                                return Err(ChargebackError::BalanceUpdateError);
                            },
                        }
                    },
                };
                let mut balance = account.balance;
                match balance.update(new_available, new_held) {
                    Ok(()) => {
                        let account2 = MemAccount { locked: true, balance, ..account };
                        self.accounts.insert(owner.0, account2);
                        self.transactions.insert(
                            cmd.tx.0,
                            TransactionWithState { tx: rec.tx, state: TransactionState::Rejected },
                        );
                        proof {
                            assert(self@ =~= spec_chargeback(old(self)@, cmd).0);
                        }
                        Ok(())
                    },
                    Err(_) => Err(ChargebackError::BalanceUpdateError),
                }
            },
        }
    }
}


/// What one command does to the state `s`, and what it returns: the
/// dispatch over the five command kinds, with the command's own error
/// wrapped in [`SubmitError`].
pub open spec fn spec_submit(s: ServiceView, c: cmd::Command) -> (
    ServiceView,
    Result<(), SubmitError>,
) {
    match c {
        cmd::Command::Deposit(d) => {
            let p = spec_deposit(s, d.0);
            (
                p.0,
                match p.1 {
                    Ok(()) => Ok(()),
                    Err(e) => Err(SubmitError::Deposit(e)),
                },
            )
        },
        cmd::Command::Withdrawal(w) => {
            let p = spec_withdrawal(s, w.0);
            (
                p.0,
                match p.1 {
                    Ok(()) => Ok(()),
                    Err(e) => Err(SubmitError::Withdrawal(e)),
                },
            )
        },
        cmd::Command::Dispute(d) => {
            let p = spec_dispute(s, d);
            (
                p.0,
                match p.1 {
                    Ok(()) => Ok(()),
                    Err(e) => Err(SubmitError::Dispute(e)),
                },
            )
        },
        cmd::Command::Resolve(d) => {
            let p = spec_resolve(s, d);
            (
                p.0,
                match p.1 {
                    Ok(()) => Ok(()),
                    Err(e) => Err(SubmitError::Resolve(e)),
                },
            )
        },
        cmd::Command::Chargeback(d) => {
            let p = spec_chargeback(s, d);
            (
                p.0,
                match p.1 {
                    Ok(()) => Ok(()),
                    Err(e) => Err(SubmitError::Chargeback(e)),
                },
            )
        },
    }
}

/// The public snapshot of a stored account.
pub open spec fn account_snapshot(a: MemAccount) -> Account {
    Account { client: a.id, balance: a.balance, locked: a.locked }
}

/// Whether `a` is the snapshot of one of the accounts stored in `s`.
pub open spec fn is_account_snapshot(s: ServiceView, a: Account) -> bool {
    exists|k: u16| s.accounts.contains_key(k) && a == account_snapshot(#[trigger] s.accounts[k])
}

/// Whether the snapshot list `r` carries the account stored under `k`.
pub open spec fn snapshot_lists_account(s: ServiceView, r: Seq<Account>, k: u16) -> bool {
    exists|i: int| 0 <= i < r.len() && #[trigger] r[i] == account_snapshot(s.accounts[k])
}

impl MemAccountService {
    /// Apply one command to the ledger.
    pub fn submit(&mut self, cmd: cmd::Command) -> (r: Result<(), SubmitError>)
        ensures
            final(self)@ == spec_submit(old(self)@, cmd).0,
            r == spec_submit(old(self)@, cmd).1,
            old(self)@.wf() ==> final(self)@.wf(),
    {
        match cmd {
            cmd::Command::Deposit(c) => match self.submit_deposit(c) {
                Ok(()) => Ok(()),
                Err(e) => Err(SubmitError::Deposit(e)),
            },
            cmd::Command::Withdrawal(c) => match self.submit_withdrawal(c) {
                Ok(()) => Ok(()),
                Err(e) => Err(SubmitError::Withdrawal(e)),
            },
            cmd::Command::Dispute(c) => match self.submit_dispute(c) {
                Ok(()) => Ok(()),
                Err(e) => Err(SubmitError::Dispute(e)),
            },
            cmd::Command::Resolve(c) => match self.submit_resolve(c) {
                Ok(()) => Ok(()),
                Err(e) => Err(SubmitError::Resolve(e)),
            },
            cmd::Command::Chargeback(c) => match self.submit_chargeback(c) {
                Ok(()) => Ok(()),
                Err(e) => Err(SubmitError::Chargeback(e)),
            },
        }
    }

    /// A read-only, unordered snapshot of every account ever created: one
    /// entry per account, in no particular order.
    pub fn get_all_accounts(&self) -> (r: Vec<Account>)
        ensures
            r@.len() == self@.accounts.dom().len(),
            forall|i: int| 0 <= i < r@.len() ==> is_account_snapshot(self@, #[trigger] r@[i]),
            forall|k: u16|
                #[trigger] self@.accounts.contains_key(k) ==> snapshot_lists_account(
                    self@,
                    r@,
                    k,
                ),
    {
        let iterator = self.accounts.iter();
        let ghost v: Seq<(u16, MemAccount)> = vstd::std_specs::hash::into_iter(iterator);
        let mut r: Vec<Account> = Vec::new();
        for pair in it: iterator
            invariant
                it.seq().unref() == v,
                r@.len() == it.index(),
                v.len() == self@.accounts.dom().len(),
                forall|j: int|
                    0 <= j < v.len() ==> self@.accounts.contains_key(
                        (#[trigger] v[j]).0,
                    ) && self@.accounts[v[j].0] == v[j].1,
                v.to_set() == self@.accounts.kv_pairs(),
                forall|j: int|
                    0 <= j < r@.len() ==> #[trigger] r@[j] == account_snapshot(v[j].1),
        {
            r.push(Account { client: pair.1.id, balance: pair.1.balance, locked: pair.1.locked });
        }
        proof {
            assert(r@.len() == v.len());
            assert forall|i: int| 0 <= i < r@.len() implies is_account_snapshot(
                self@,
                #[trigger] r@[i],
            ) by {
                let k = v[i].0;
                assert(self@.accounts.contains_key(k) && r@[i] == account_snapshot(
                    self@.accounts[k],
                ));
            };
            assert forall|k: u16| #[trigger] self@.accounts.contains_key(
                k,
            ) implies snapshot_lists_account(self@, r@, k) by {
                assert(self@.accounts.kv_pairs().contains((k, self@.accounts[k])));
                assert(v.contains((k, self@.accounts[k])));
                let j = choose|j: int| 0 <= j < v.len() && v[j] == (k, self@.accounts[k]);
                assert(r@[j] == account_snapshot(v[j].1));
                assert(r@[j] == account_snapshot(self@.accounts[k]));
            };
        }
        r
    }
}

impl Default for MemAccountService {
    /// A fresh engine that allows withdrawal disputes while the available
    /// assets cover the disputed amount.
    fn default() -> (r: Self)
        ensures
            r@.policy is IfMoreAvailableThanDisputed,
            r@.transactions == Map::<u32, TransactionWithState>::empty(),
            r@.accounts == Map::<u16, MemAccount>::empty(),
            r@.wf(),
    {
        Self::new(WithdrawalDisputePolicy::IfMoreAvailableThanDisputed)
    }
}

/// Every command keeps the ledger invariant: balances stay non-negative
/// with a representable total, and both maps stay keyed by their own ids.
pub proof fn lemma_submit_preserves_wf(s: ServiceView, c: cmd::Command)
    requires
        s.wf(),
    ensures
        spec_submit(s, c).0.wf(),
{
}

/// A chargeback is the only way an account becomes locked, and nothing
/// unlocks it: whatever command comes next, a locked account stays locked.
pub proof fn lemma_lock_is_permanent(s: ServiceView, c: cmd::Command, k: u16)
    requires
        s.accounts.contains_key(k),
        s.accounts[k].locked,
    ensures
        spec_submit(s, c).0.accounts.contains_key(k),
        spec_submit(s, c).0.accounts[k].locked,
{
}

/// Idempotent replay: once a deposit has been accepted, submitting the
/// identical deposit (same id, client, amount) again succeeds as well and
/// leaves the ledger exactly as it was, so its effect is applied only once.
pub proof fn lemma_deposit_idempotent(s: ServiceView, meta: TransactionMeta)
    requires
        spec_deposit(s, meta).1 is Ok,
    ensures
        spec_deposit(spec_deposit(s, meta).0, meta).0 == spec_deposit(s, meta).0,
        spec_deposit(spec_deposit(s, meta).0, meta).1 is Ok,
{
    let s2 = spec_deposit(s, meta).0;
    assert(s2.accounts.contains_key(meta.client.0));
    assert(s2.transactions.contains_key(meta.id.0));
    assert(s2.transactions[meta.id.0].tx == Transaction::Deposit(meta));
    assert(s2.with_account(meta.client, s2.account_or_new(meta.client)) =~= s2);
}

/// Idempotent replay also holds for withdrawals: once one has been
/// accepted, the identical submission succeeds and changes nothing.
pub proof fn lemma_withdrawal_idempotent(s: ServiceView, meta: TransactionMeta)
    requires
        spec_withdrawal(s, meta).1 is Ok,
    ensures
        spec_withdrawal(spec_withdrawal(s, meta).0, meta).0 == spec_withdrawal(s, meta).0,
        spec_withdrawal(spec_withdrawal(s, meta).0, meta).1 is Ok,
{
    let s2 = spec_withdrawal(s, meta).0;
    assert(s2.accounts.contains_key(meta.client.0));
    assert(s2.transactions.contains_key(meta.id.0));
    assert(s2.transactions[meta.id.0].tx == Transaction::Withdrawal(meta));
    assert(s2.with_account(meta.client, s2.account_or_new(meta.client)) =~= s2);
}

/// Conflicting id: a deposit whose id is already taken by a different
/// transaction (other client, amount or kind) is refused, no recorded
/// transaction changes, and no existing account changes; at most a fresh
/// empty account for the submitting client appears.
pub proof fn lemma_deposit_conflict(s: ServiceView, meta: TransactionMeta)
    requires
        s.transactions.contains_key(meta.id.0),
        s.transactions[meta.id.0].tx != Transaction::Deposit(meta),
    ensures
        (spec_deposit(s, meta).1 == Err::<(), DepositError>(DepositError::TransactionIdConflict)),
        spec_deposit(s, meta).0.transactions == s.transactions,
        forall|k: u16|
            #[trigger] s.accounts.contains_key(k) ==> spec_deposit(s, meta).0.accounts.contains_key(
                k,
            ) && spec_deposit(s, meta).0.accounts[k] == s.accounts[k],
        s.accounts.contains_key(meta.client.0) ==> spec_deposit(s, meta).0 == s,
{
    if s.accounts.contains_key(meta.client.0) {
        assert(s.with_account(meta.client, s.account_or_new(meta.client)) =~= s);
    }
}


/// A failed dispute, resolve or chargeback leaves every recorded
/// transaction and every existing account exactly as it was; at most the
/// empty account of the transaction's owner is materialized.
pub proof fn lemma_failed_settlement_changes_nothing(s: ServiceView, c: cmd::Command)
    requires
        c is Dispute || c is Resolve || c is Chargeback,
        spec_submit(s, c).1 is Err,
    ensures
        spec_submit(s, c).0.transactions == s.transactions,
        forall|k: u16|
            #[trigger] s.accounts.contains_key(k) ==> spec_submit(s, c).0.accounts.contains_key(k)
                && spec_submit(s, c).0.accounts[k] == s.accounts[k],
{
}

/// A failed deposit or withdrawal leaves every balance and every recorded
/// transaction as it was; its only trace is the rejected stub that consumes
/// the fresh transaction id (and the lazily created account of the
/// submitting client).
pub proof fn lemma_failed_transaction_changes_no_balance(s: ServiceView, c: cmd::Command)
    requires
        c is Deposit || c is Withdrawal,
        spec_submit(s, c).1 is Err,
    ensures
        forall|k: u16|
            #[trigger] s.accounts.contains_key(k) ==> spec_submit(s, c).0.accounts.contains_key(k)
                && spec_submit(s, c).0.accounts[k] == s.accounts[k],
        forall|k: u32|
            #[trigger] s.transactions.contains_key(k) ==> spec_submit(
                s,
                c,
            ).0.transactions.contains_key(k) && spec_submit(s, c).0.transactions[k]
                == s.transactions[k],
{
}

} // verus!
