use txdemo::account_service::{
    ChargebackError, DepositError, DisputeError, MemAccountService, ResolveError, SubmitError,
    WithdrawalDisputePolicy, WithdrawalError,
};
use txdemo::cmd;
use txdemo::fixed_decimal::UnsignedAssetCount;
use txdemo::ledger::{Account, ClientId, TransactionId, TransactionMeta};

fn amount(s: &str) -> UnsignedAssetCount {
    UnsignedAssetCount::from_str(s).unwrap()
}

fn meta(tx: u32, client: u16, amt: &str) -> TransactionMeta {
    TransactionMeta { id: TransactionId::new(tx), client: ClientId::new(client), amount: amount(amt) }
}

fn deposit(tx: u32, client: u16, amt: &str) -> cmd::Deposit {
    cmd::Deposit(meta(tx, client, amt))
}

fn withdrawal(tx: u32, client: u16, amt: &str) -> cmd::Withdrawal {
    cmd::Withdrawal(meta(tx, client, amt))
}

fn dispute(client: u16, tx: u32) -> cmd::Dispute {
    cmd::Dispute { client: ClientId::new(client), tx: TransactionId::new(tx) }
}

fn resolve(client: u16, tx: u32) -> cmd::Resolve {
    cmd::Resolve { client: ClientId::new(client), tx: TransactionId::new(tx) }
}

fn chargeback(client: u16, tx: u32) -> cmd::Chargeback {
    cmd::Chargeback { client: ClientId::new(client), tx: TransactionId::new(tx) }
}

fn account_of(service: &MemAccountService, client: u16) -> Account {
    let snapshot = service.get_all_accounts();
    snapshot
        .into_iter()
        .find(|a| a.client == ClientId::new(client))
        .expect("account should exist")
}

/// (available, held, total, locked), with the amounts as text.
fn state_of(service: &MemAccountService, client: u16) -> (String, String, String, bool) {
    let a = account_of(service, client);
    (
        a.balance.available().format(),
        a.balance.held().format(),
        a.balance.total().format(),
        a.locked,
    )
}

#[test]
fn scenario_two_deposits_accumulate() {
    let mut service = MemAccountService::default();
    service.submit_deposit(deposit(1, 1, "1.2345")).unwrap();
    service.submit_deposit(deposit(2, 1, "1.1111")).unwrap();
    assert_eq!(
        state_of(&service, 1),
        ("2.3456".to_string(), "0.0000".to_string(), "2.3456".to_string(), false)
    );
}

#[test]
fn scenario_withdrawal_needs_cover() {
    let mut service = MemAccountService::default();
    service.submit_deposit(deposit(1, 1, "5.0000")).unwrap();
    assert_eq!(
        service.submit_withdrawal(withdrawal(2, 1, "6.0000")),
        Err(WithdrawalError::InsufficientAssets)
    );
    assert_eq!(
        state_of(&service, 1),
        ("5.0000".to_string(), "0.0000".to_string(), "5.0000".to_string(), false)
    );
}

#[test]
fn scenario_dispute_then_chargeback_locks() {
    let mut service = MemAccountService::default();
    service.submit_deposit(deposit(1, 1, "10.0000")).unwrap();
    service.submit_dispute(dispute(1, 1)).unwrap();
    assert_eq!(
        state_of(&service, 1),
        ("0.0000".to_string(), "10.0000".to_string(), "10.0000".to_string(), false)
    );
    service.submit_chargeback(chargeback(1, 1)).unwrap();
    assert_eq!(
        state_of(&service, 1),
        ("0.0000".to_string(), "0.0000".to_string(), "0.0000".to_string(), true)
    );
    assert_eq!(
        service.submit_deposit(deposit(3, 1, "1.0000")),
        Err(DepositError::Locked)
    );
}

#[test]
fn scenario_dispute_validation() {
    let mut service = MemAccountService::default();
    service.submit_deposit(deposit(1, 1, "10.0000")).unwrap();
    assert_eq!(
        service.submit_dispute(dispute(1, 99)),
        Err(DisputeError::NotFound(TransactionId::new(99)))
    );
    assert_eq!(
        service.submit_dispute(dispute(2, 1)),
        Err(DisputeError::InvalidClaimant {
            owner: ClientId::new(1),
            claimant: ClientId::new(2),
        })
    );
    assert_eq!(
        service.submit_resolve(resolve(1, 99)),
        Err(ResolveError::NotFound(TransactionId::new(99)))
    );
    assert_eq!(
        service.submit_chargeback(chargeback(1, 99)),
        Err(ChargebackError::NotFound(TransactionId::new(99)))
    );
    assert_eq!(
        service.submit_resolve(resolve(2, 1)),
        Err(ResolveError::InvalidClaimant {
            owner: ClientId::new(1),
            claimant: ClientId::new(2),
        })
    );
    assert_eq!(
        service.submit_chargeback(chargeback(2, 1)),
        Err(ChargebackError::InvalidClaimant {
            owner: ClientId::new(1),
            claimant: ClientId::new(2),
        })
    );
}

#[test]
fn scenario_withdrawal_dispute_refund() {
    let mut service =
        MemAccountService::new(WithdrawalDisputePolicy::IfMoreAvailableThanDisputed);
    service.submit_deposit(deposit(1, 1, "10.0000")).unwrap();
    service.submit_withdrawal(withdrawal(2, 1, "4.0000")).unwrap();
    assert_eq!(
        state_of(&service, 1),
        ("6.0000".to_string(), "0.0000".to_string(), "6.0000".to_string(), false)
    );
    service.submit_dispute(dispute(1, 2)).unwrap();
    assert_eq!(
        state_of(&service, 1),
        ("2.0000".to_string(), "4.0000".to_string(), "6.0000".to_string(), false)
    );
    service.submit_chargeback(chargeback(1, 2)).unwrap();
    assert_eq!(
        state_of(&service, 1),
        ("6.0000".to_string(), "0.0000".to_string(), "6.0000".to_string(), true)
    );
}

#[test]
fn idempotent_deposit_applies_once() {
    let mut service = MemAccountService::default();
    assert_eq!(service.submit_deposit(deposit(1, 1, "2.0000")), Ok(()));
    assert_eq!(service.submit_deposit(deposit(1, 1, "2.0000")), Ok(()));
    assert_eq!(
        state_of(&service, 1),
        ("2.0000".to_string(), "0.0000".to_string(), "2.0000".to_string(), false)
    );
}

#[test]
fn conflicting_transaction_id_is_rejected() {
    let mut service = MemAccountService::default();
    service.submit_deposit(deposit(1, 1, "2.0000")).unwrap();
    assert_eq!(
        service.submit_deposit(deposit(1, 1, "3.0000")),
        Err(DepositError::TransactionIdConflict)
    );
    assert_eq!(
        service.submit_deposit(deposit(1, 2, "2.0000")),
        Err(DepositError::TransactionIdConflict)
    );
    assert_eq!(
        service.submit_withdrawal(withdrawal(1, 1, "2.0000")),
        Err(WithdrawalError::TransactionIdConflict)
    );
    assert_eq!(
        state_of(&service, 1),
        ("2.0000".to_string(), "0.0000".to_string(), "2.0000".to_string(), false)
    );
}

#[test]
fn rejected_transaction_replays_idempotently() {
    let mut service = MemAccountService::default();
    service.submit_deposit(deposit(1, 1, "1.0000")).unwrap();
    assert_eq!(
        service.submit_withdrawal(withdrawal(2, 1, "5.0000")),
        Err(WithdrawalError::InsufficientAssets)
    );
    // the id was consumed by the rejected withdrawal: the identical
    // submission is a no-op success, a different one is a conflict
    assert_eq!(service.submit_withdrawal(withdrawal(2, 1, "5.0000")), Ok(()));
    assert_eq!(
        service.submit_withdrawal(withdrawal(2, 1, "4.0000")),
        Err(WithdrawalError::TransactionIdConflict)
    );
    assert_eq!(
        state_of(&service, 1),
        ("1.0000".to_string(), "0.0000".to_string(), "1.0000".to_string(), false)
    );
}

#[test]
fn withdrawal_dispute_denied_by_policy() {
    let mut service = MemAccountService::new(WithdrawalDisputePolicy::Deny);
    service.submit_deposit(deposit(1, 1, "10.0000")).unwrap();
    service.submit_withdrawal(withdrawal(2, 1, "4.0000")).unwrap();
    assert_eq!(
        service.submit_dispute(dispute(1, 2)),
        Err(DisputeError::WithdrawalDisputeDenied)
    );
}

#[test]
fn deposit_dispute_needs_available_cover() {
    let mut service = MemAccountService::default();
    service.submit_deposit(deposit(1, 1, "10.0000")).unwrap();
    service.submit_withdrawal(withdrawal(2, 1, "8.0000")).unwrap();
    assert_eq!(
        service.submit_dispute(dispute(1, 1)),
        Err(DisputeError::InsufficientAssets)
    );
}

#[test]
fn withdrawal_dispute_needs_available_cover() {
    let mut service =
        MemAccountService::new(WithdrawalDisputePolicy::IfMoreAvailableThanDisputed);
    service.submit_deposit(deposit(1, 1, "10.0000")).unwrap();
    service.submit_withdrawal(withdrawal(2, 1, "8.0000")).unwrap();
    assert_eq!(
        service.submit_dispute(dispute(1, 2)),
        Err(DisputeError::InsufficientAssets)
    );
}

#[test]
fn resolve_returns_held_assets() {
    let mut service = MemAccountService::default();
    service.submit_deposit(deposit(1, 1, "10.0000")).unwrap();
    service.submit_dispute(dispute(1, 1)).unwrap();
    service.submit_resolve(resolve(1, 1)).unwrap();
    assert_eq!(
        state_of(&service, 1),
        ("10.0000".to_string(), "0.0000".to_string(), "10.0000".to_string(), false)
    );
    // the transaction can be disputed again afterwards
    assert_eq!(service.submit_dispute(dispute(1, 1)), Ok(()));
}

#[test]
fn redundant_dispute_and_resolve_are_no_ops() {
    let mut service = MemAccountService::default();
    service.submit_deposit(deposit(1, 1, "10.0000")).unwrap();
    assert_eq!(service.submit_resolve(resolve(1, 1)), Ok(()));
    service.submit_dispute(dispute(1, 1)).unwrap();
    assert_eq!(service.submit_dispute(dispute(1, 1)), Ok(()));
    assert_eq!(
        state_of(&service, 1),
        ("0.0000".to_string(), "10.0000".to_string(), "10.0000".to_string(), false)
    );
}

#[test]
fn chargeback_requires_open_dispute() {
    let mut service = MemAccountService::default();
    service.submit_deposit(deposit(1, 1, "10.0000")).unwrap();
    assert_eq!(
        service.submit_chargeback(chargeback(1, 1)),
        Err(ChargebackError::NonDisputed(TransactionId::new(1)))
    );
}

#[test]
fn settled_transaction_stays_rejected() {
    let mut service = MemAccountService::default();
    service.submit_deposit(deposit(1, 1, "10.0000")).unwrap();
    service.submit_deposit(deposit(2, 2, "1.0000")).unwrap();
    service.submit_dispute(dispute(1, 1)).unwrap();
    service.submit_chargeback(chargeback(1, 1)).unwrap();
    // charging back again is a no-op, but the locked account refuses it
    assert_eq!(service.submit_chargeback(chargeback(1, 1)), Err(ChargebackError::Locked));
    assert_eq!(service.submit_dispute(dispute(1, 1)), Err(DisputeError::Locked));
    assert_eq!(service.submit_resolve(resolve(1, 1)), Err(ResolveError::Locked));
    // the other client is untouched
    assert_eq!(
        state_of(&service, 2),
        ("1.0000".to_string(), "0.0000".to_string(), "1.0000".to_string(), false)
    );
}

#[test]
fn rejected_transaction_cannot_be_disputed() {
    let mut service = MemAccountService::default();
    service.submit_deposit(deposit(1, 1, "1.0000")).unwrap();
    assert_eq!(
        service.submit_withdrawal(withdrawal(2, 1, "5.0000")),
        Err(WithdrawalError::InsufficientAssets)
    );
    assert_eq!(
        service.submit_dispute(dispute(1, 2)),
        Err(DisputeError::AlreadyRejected(TransactionId::new(2)))
    );
    assert_eq!(
        service.submit_resolve(resolve(1, 2)),
        Err(ResolveError::AlreadyRejected(TransactionId::new(2)))
    );
    // a rejected transaction is settled: charging it back is a no-op
    assert_eq!(service.submit_chargeback(chargeback(1, 2)), Ok(()));
}

#[test]
fn deposit_overflow_fails_and_is_recorded() {
    let mut service = MemAccountService::default();
    service
        .submit_deposit(deposit(1, 1, "1844674407370955.1615"))
        .unwrap();
    assert_eq!(
        service.submit_deposit(deposit(2, 1, "0.0001")),
        Err(DepositError::BalanceUpdateError)
    );
    assert_eq!(
        state_of(&service, 1),
        (
            "1844674407370955.1615".to_string(),
            "0.0000".to_string(),
            "1844674407370955.1615".to_string(),
            false
        )
    );
    // the failed deposit consumed its id
    assert_eq!(service.submit_deposit(deposit(2, 1, "0.0001")), Ok(()));
}

#[test]
fn submit_dispatches_and_wraps_errors() {
    let mut service = MemAccountService::default();
    assert_eq!(service.submit(cmd::Command::Deposit(deposit(1, 1, "5.0000"))), Ok(()));
    assert_eq!(
        service.submit(cmd::Command::Withdrawal(withdrawal(2, 1, "6.0000"))),
        Err(SubmitError::Withdrawal(WithdrawalError::InsufficientAssets))
    );
    assert_eq!(service.submit(cmd::Command::Dispute(dispute(1, 1))), Ok(()));
    assert_eq!(service.submit(cmd::Command::Resolve(resolve(1, 1))), Ok(()));
    assert_eq!(
        service.submit(cmd::Command::Chargeback(chargeback(1, 1))),
        Err(SubmitError::Chargeback(ChargebackError::NonDisputed(TransactionId::new(1))))
    );
}

#[test]
fn snapshot_has_one_entry_per_account() {
    let mut service = MemAccountService::default();
    service.submit_deposit(deposit(1, 1, "1.0000")).unwrap();
    service.submit_deposit(deposit(2, 2, "2.0000")).unwrap();
    service.submit_deposit(deposit(3, 1, "0.5000")).unwrap();
    let mut snapshot = service.get_all_accounts();
    snapshot.sort_by_key(|a| a.client.0);
    assert_eq!(snapshot.len(), 2);
    assert_eq!(snapshot[0].client, ClientId::new(1));
    assert_eq!(snapshot[0].balance.available().format(), "1.5000");
    assert_eq!(snapshot[1].client, ClientId::new(2));
    assert_eq!(snapshot[1].balance.available().format(), "2.0000");
}

#[test]
fn accounts_are_created_on_first_contact() {
    let mut service = MemAccountService::default();
    assert_eq!(
        service.submit_withdrawal(withdrawal(1, 7, "1.0000")),
        Err(WithdrawalError::InsufficientAssets)
    );
    assert_eq!(
        state_of(&service, 7),
        ("0.0000".to_string(), "0.0000".to_string(), "0.0000".to_string(), false)
    );
}
