use csv_payment_engine::engine::account::Account;
use csv_payment_engine::engine::engine::Engine;
use csv_payment_engine::engine::id::{ClientId, TransactionId};
use csv_payment_engine::engine::transaction::{Transaction, TxKind};
use csv_payment_engine::error::engine_error::{EngineError, EngineErrorKind};
use csv_payment_engine::output::csv_output::account_record;

fn tx(kind: TxKind, client: u16, id: u32, amount: Option<i64>) -> Transaction {
    Transaction {
        kind,
        client: ClientId::from_u16(client),
        tx: TransactionId::from_u32(id),
        amount,
    }
}

fn apply(engine: &mut Engine, t: Transaction) -> Result<(), EngineError> {
    assert!(engine.fits(&t));
    engine.apply(&t)
}

fn refused(engine: &mut Engine, t: Transaction) -> (EngineErrorKind, String) {
    let err = apply(engine, t).expect_err("transaction should be refused");
    (err.kind(), err.subject().clone())
}

fn account(engine: &Engine, client: u16) -> Option<Account> {
    engine.accounts().into_iter().find(|a| a.client.0 == client)
}

fn balances(engine: &Engine, client: u16) -> (i64, i64, bool) {
    let a = account(engine, client).expect("account should exist");
    (a.available, a.held, a.locked)
}

#[test]
fn new_engine_has_no_accounts() {
    assert!(Engine::new().accounts().is_empty());
}

#[test]
fn deposit_and_withdrawal_move_available_funds() {
    let mut e = Engine::new();
    apply(&mut e, tx(TxKind::Deposit, 7, 1, Some(50_000))).unwrap();
    apply(&mut e, tx(TxKind::Withdrawal, 7, 2, Some(20_000))).unwrap();
    assert_eq!(balances(&e, 7), (30_000, 0, false));
    assert_eq!(account(&e, 7).unwrap().total(), 30_000);
}

#[test]
fn each_refusal_names_its_reason_and_subject() {
    let mut e = Engine::new();
    assert_eq!(refused(&mut e, tx(TxKind::Deposit, 1, 5, None)), (EngineErrorKind::MissingAmount, "5".to_string()));
    assert_eq!(refused(&mut e, tx(TxKind::Deposit, 1, 5, Some(0))), (EngineErrorKind::InvalidAmount, "5".to_string()));
    apply(&mut e, tx(TxKind::Deposit, 1, 5, Some(10))).unwrap();
    assert_eq!(refused(&mut e, tx(TxKind::Deposit, 1, 5, Some(10))), (EngineErrorKind::DuplicateTransaction, "5".to_string()));
    assert_eq!(refused(&mut e, tx(TxKind::Withdrawal, 1, 5, Some(10))), (EngineErrorKind::DuplicateTransaction, "5".to_string()));
    assert_eq!(refused(&mut e, tx(TxKind::Withdrawal, 1, 6, Some(11))), (EngineErrorKind::InsufficientFunds, "6".to_string()));
    assert_eq!(refused(&mut e, tx(TxKind::Dispute, 1, 404, None)), (EngineErrorKind::DisputeNonExistentTransaction, "404".to_string()));
    assert_eq!(refused(&mut e, tx(TxKind::Resolve, 1, 404, None)), (EngineErrorKind::ResolveNonExistentTransaction, "404".to_string()));
    assert_eq!(refused(&mut e, tx(TxKind::Chargeback, 1, 404, None)), (EngineErrorKind::ChargebackNonExistentTransaction, "404".to_string()));
    assert_eq!(refused(&mut e, tx(TxKind::Dispute, 2, 5, None)), (EngineErrorKind::TransactionClientMismatch, "5".to_string()));
    assert_eq!(refused(&mut e, tx(TxKind::Resolve, 1, 5, None)), (EngineErrorKind::TransactionNotDisputed, "5".to_string()));
    assert_eq!(refused(&mut e, tx(TxKind::Chargeback, 1, 5, None)), (EngineErrorKind::TransactionNotDisputed, "5".to_string()));
    apply(&mut e, tx(TxKind::Dispute, 1, 5, None)).unwrap();
    assert_eq!(refused(&mut e, tx(TxKind::Dispute, 1, 5, None)), (EngineErrorKind::TransactionAlreadyDisputed, "5".to_string()));
    apply(&mut e, tx(TxKind::Chargeback, 1, 5, None)).unwrap();
    assert_eq!(refused(&mut e, tx(TxKind::Dispute, 1, 5, None)), (EngineErrorKind::TransactionAlreadyChargedBack, "5".to_string()));
    assert_eq!(refused(&mut e, tx(TxKind::Deposit, 1, 9, Some(1))), (EngineErrorKind::AccountLocked, "9".to_string()));
}

#[test]
fn disputing_a_spent_deposit_is_refused() {
    let mut e = Engine::new();
    apply(&mut e, tx(TxKind::Deposit, 3, 1, Some(100))).unwrap();
    apply(&mut e, tx(TxKind::Withdrawal, 3, 2, Some(60))).unwrap();
    assert_eq!(refused(&mut e, tx(TxKind::Dispute, 3, 1, None)), (EngineErrorKind::InsufficientFunds, "1".to_string()));
    assert_eq!(balances(&e, 3), (40, 0, false));
}

#[test]
fn refused_transactions_open_no_account() {
    let mut e = Engine::new();
    assert_eq!(refused(&mut e, tx(TxKind::Withdrawal, 9, 1, Some(5))).0, EngineErrorKind::InsufficientFunds);
    assert!(account(&e, 9).is_none());
    assert!(e.accounts().is_empty());
    assert_eq!(refused(&mut e, tx(TxKind::Deposit, 8, 2, Some(-5))).0, EngineErrorKind::InvalidAmount);
    assert!(account(&e, 8).is_none());
    // The identifier of a refused transaction is still free.
    apply(&mut e, tx(TxKind::Deposit, 9, 1, Some(5))).unwrap();
    assert_eq!(balances(&e, 9), (5, 0, false));
}

#[test]
fn totals_follow_the_ledger() {
    let mut e = Engine::new();
    // Deposits 100 + 40, withdrawals 30 + 20.
    apply(&mut e, tx(TxKind::Deposit, 2, 1, Some(100))).unwrap();
    apply(&mut e, tx(TxKind::Deposit, 2, 2, Some(40))).unwrap();
    apply(&mut e, tx(TxKind::Withdrawal, 2, 3, Some(30))).unwrap();
    apply(&mut e, tx(TxKind::Withdrawal, 2, 4, Some(20))).unwrap();
    assert_eq!(account(&e, 2).unwrap().total(), 90);
    // A withdrawal under dispute counts back into the total.
    apply(&mut e, tx(TxKind::Dispute, 2, 4, None)).unwrap();
    assert_eq!(account(&e, 2).unwrap().total(), 110);
    // A charged-back withdrawal stays counted back, and the account locks.
    apply(&mut e, tx(TxKind::Chargeback, 2, 4, None)).unwrap();
    assert_eq!(balances(&e, 2), (110, 0, true));
}

#[test]
fn only_an_accepted_chargeback_locks() {
    let mut e = Engine::new();
    apply(&mut e, tx(TxKind::Deposit, 1, 1, Some(10))).unwrap();
    apply(&mut e, tx(TxKind::Dispute, 1, 1, None)).unwrap();
    apply(&mut e, tx(TxKind::Resolve, 1, 1, None)).unwrap();
    assert!(!balances(&e, 1).2);
    assert!(apply(&mut e, tx(TxKind::Chargeback, 1, 1, None)).is_err());
    assert!(!balances(&e, 1).2);
    apply(&mut e, tx(TxKind::Dispute, 1, 1, None)).unwrap();
    apply(&mut e, tx(TxKind::Chargeback, 1, 1, None)).unwrap();
    assert!(balances(&e, 1).2);
}

#[test]
fn locked_account_never_changes() {
    let mut e = Engine::new();
    apply(&mut e, tx(TxKind::Deposit, 4, 1, Some(100))).unwrap();
    apply(&mut e, tx(TxKind::Deposit, 4, 2, Some(50))).unwrap();
    apply(&mut e, tx(TxKind::Dispute, 4, 1, None)).unwrap();
    apply(&mut e, tx(TxKind::Chargeback, 4, 1, None)).unwrap();
    let frozen = balances(&e, 4);
    assert_eq!(frozen, (50, 0, true));
    assert!(apply(&mut e, tx(TxKind::Deposit, 4, 3, Some(1))).is_err());
    assert!(apply(&mut e, tx(TxKind::Withdrawal, 4, 4, Some(1))).is_err());
    assert!(apply(&mut e, tx(TxKind::Dispute, 4, 2, None)).is_err());
    assert_eq!(balances(&e, 4), frozen);
}

#[test]
fn transactions_touch_only_their_client() {
    let mut e = Engine::new();
    apply(&mut e, tx(TxKind::Deposit, 1, 1, Some(10))).unwrap();
    apply(&mut e, tx(TxKind::Deposit, 2, 2, Some(20))).unwrap();
    apply(&mut e, tx(TxKind::Dispute, 2, 2, None)).unwrap();
    assert_eq!(balances(&e, 1), (10, 0, false));
    assert_eq!(balances(&e, 2), (0, 20, false));
}

#[test]
fn held_funds_follow_open_disputes() {
    let mut e = Engine::new();
    apply(&mut e, tx(TxKind::Deposit, 5, 1, Some(100))).unwrap();
    apply(&mut e, tx(TxKind::Deposit, 5, 2, Some(30))).unwrap();
    apply(&mut e, tx(TxKind::Withdrawal, 5, 3, Some(20))).unwrap();
    apply(&mut e, tx(TxKind::Dispute, 5, 1, None)).unwrap();
    apply(&mut e, tx(TxKind::Dispute, 5, 3, None)).unwrap();
    assert_eq!(balances(&e, 5), (10, 120, false));
    apply(&mut e, tx(TxKind::Resolve, 5, 3, None)).unwrap();
    assert_eq!(balances(&e, 5), (10, 100, false));
    apply(&mut e, tx(TxKind::Resolve, 5, 1, None)).unwrap();
    assert_eq!(balances(&e, 5), (110, 0, false));
}

#[test]
fn resolve_undoes_a_dispute_exactly() {
    let mut e = Engine::new();
    apply(&mut e, tx(TxKind::Deposit, 6, 1, Some(70))).unwrap();
    apply(&mut e, tx(TxKind::Withdrawal, 6, 2, Some(30))).unwrap();
    let before = balances(&e, 6);
    apply(&mut e, tx(TxKind::Dispute, 6, 2, None)).unwrap();
    assert_eq!(balances(&e, 6), (40, 30, false));
    apply(&mut e, tx(TxKind::Resolve, 6, 2, None)).unwrap();
    assert_eq!(balances(&e, 6), before);
    // The transaction can be disputed again after a resolve.
    apply(&mut e, tx(TxKind::Dispute, 6, 2, None)).unwrap();
}

#[test]
fn fits_rejects_an_overflowing_deposit() {
    let mut e = Engine::new();
    apply(&mut e, tx(TxKind::Deposit, 1, 1, Some(i64::MAX))).unwrap();
    assert!(!e.fits(&tx(TxKind::Deposit, 1, 2, Some(1))));
    assert!(e.fits(&tx(TxKind::Deposit, 1, 1, Some(1))));
    assert!(e.fits(&tx(TxKind::Withdrawal, 1, 3, Some(1))));
}

#[test]
fn small_volumes_always_fit() {
    let mut e = Engine::new();
    apply(&mut e, tx(TxKind::Deposit, 1, 1, Some(i64::MAX - 10))).unwrap();
    apply(&mut e, tx(TxKind::Withdrawal, 1, 2, Some(10))).unwrap();
    assert!(e.fits(&tx(TxKind::Dispute, 1, 2, None)));
    apply(&mut e, tx(TxKind::Dispute, 1, 2, None)).unwrap();
    assert_eq!(account(&e, 1).unwrap().total(), i64::MAX - 10);
}

#[test]
fn errors_built_by_kind_keep_kind_and_subject() {
    let err = EngineError::new(EngineErrorKind::InsufficientHeldFunds, "17".to_string());
    assert_eq!(err.kind(), EngineErrorKind::InsufficientHeldFunds);
    assert_eq!(err.subject(), "17");
    assert!(matches!(err, EngineError::InsufficientHeldFunds(_)));
}

#[test]
fn ids_print_in_decimal() {
    assert_eq!(ClientId::from_u16(65535).to_string(), "65535");
    assert_eq!(TransactionId::from_u32(0).to_string(), "0");
    assert_eq!(TransactionId::from_u32(4_294_967_295).to_string(), "4294967295");
}

#[test]
fn account_record_lists_client_balances_total_and_lock() {
    let a = Account { client: ClientId(3), available: 12_345, held: 10, locked: true };
    assert_eq!(account_record(&a), vec!["3", "1.2345", "0.001", "1.2355", "true"]);
    let b = Account { client: ClientId(0), available: 0, held: 0, locked: false };
    assert_eq!(account_record(&b), vec!["0", "0", "0", "0", "false"]);
}
