use rust_decimal::Decimal;
use tx_engine::{Engine, Transaction, TransactionType, AccountOutput, SCALE};

fn deposit(client: u16, tx: u32, amount: Decimal) -> Transaction {
    Transaction {
        tx_type: TransactionType::Deposit,
        client,
        tx,
        amount: Some(amount),
    }
}

fn withdrawal(client: u16, tx: u32, amount: Decimal) -> Transaction {
    Transaction {
        tx_type: TransactionType::Withdrawal,
        client,
        tx,
        amount: Some(amount),
    }
}

fn dispute(client: u16, tx: u32) -> Transaction {
    Transaction {
        tx_type: TransactionType::Dispute,
        client,
        tx,
        amount: None,
    }
}

fn resolve(client: u16, tx: u32) -> Transaction {
    Transaction {
        tx_type: TransactionType::Resolve,
        client,
        tx,
        amount: None,
    }
}

fn chargeback(client: u16, tx: u32) -> Transaction {
    Transaction {
        tx_type: TransactionType::Chargeback,
        client,
        tx,
        amount: None,
    }
}

fn row(out: &[AccountOutput], client: u16) -> AccountOutput {
    *out.iter().find(|a| a.client == client).unwrap()
}

#[test]
fn basic_flow_renders_exactly() {
    let mut engine = Engine::new();
    engine.process(deposit(1, 1, Decimal::new(100, 1)));
    let out = engine.output();
    let a = row(&out, 1);
    assert_eq!(tx_engine::format_fixed(a.available), "10.0000");
    assert_eq!(tx_engine::format_fixed(a.held), "0.0000");
    assert_eq!(tx_engine::format_fixed(a.total), "10.0000");
    assert!(!a.locked);
}

#[test]
fn dispute_chargeback_scenario() {
    let mut engine = Engine::new();
    engine.process(deposit(1, 1, Decimal::new(100, 1)));
    engine.process(dispute(1, 1));
    engine.process(chargeback(1, 1));
    let a = row(&engine.output(), 1);
    assert_eq!((a.available, a.held, a.total, a.locked), (0, 0, 0, true));

    engine.process(deposit(1, 2, Decimal::new(500, 1)));
    let b = row(&engine.output(), 1);
    assert_eq!(b.available, 0);
}

#[test]
fn insufficient_funds_scenario() {
    let mut engine = Engine::new();
    engine.process(deposit(1, 1, Decimal::new(100, 1)));
    engine.process(withdrawal(1, 2, Decimal::new(150, 1)));
    let a = row(&engine.output(), 1);
    assert_eq!(a.available, 10 * SCALE);
}

#[test]
fn rejection_is_idempotent() {
    let mut engine = Engine::new();
    engine.process(deposit(1, 1, Decimal::new(100, 1)));
    engine.process(dispute(1, 1));
    engine.process(dispute(1, 1)); // first rejection
    let snapshot = engine.output();
    engine.process(dispute(1, 1));
    engine.process(dispute(1, 1));
    engine.process(dispute(1, 1));
    assert_eq!(engine.output(), snapshot);
}

#[test]
fn conservation_through_dispute_cycles() {
    let mut engine = Engine::new();
    engine.process(deposit(1, 1, Decimal::new(100, 1))); // +10
    engine.process(deposit(1, 2, Decimal::new(75, 1))); // +7.5
    engine.process(withdrawal(1, 3, Decimal::new(25, 1))); // -2.5
    engine.process(dispute(1, 1));
    engine.process(resolve(1, 1));
    engine.process(dispute(1, 2));
    engine.process(resolve(1, 2));
    engine.process(dispute(1, 1));
    let a = row(&engine.output(), 1);
    // total == 10 + 7.5 - 2.5, however many dispute/resolve cycles ran
    assert_eq!(a.total, 15 * SCALE);
}

#[test]
fn dispute_then_resolve_restores_balances() {
    let mut engine = Engine::new();
    engine.process(deposit(1, 1, Decimal::new(100, 1)));
    engine.process(deposit(1, 2, Decimal::new(30, 1)));
    let before = row(&engine.output(), 1);
    engine.process(dispute(1, 2));
    engine.process(resolve(1, 2));
    let after = row(&engine.output(), 1);
    assert_eq!(before, after);
}

#[test]
fn chargeback_is_terminal_for_all_three_events() {
    let mut engine = Engine::new();
    engine.process(deposit(1, 1, Decimal::new(100, 1)));
    engine.process(dispute(1, 1));
    engine.process(chargeback(1, 1));
    let snapshot = engine.output();
    engine.process(dispute(1, 1));
    engine.process(resolve(1, 1));
    engine.process(chargeback(1, 1));
    assert_eq!(engine.output(), snapshot);
}

#[test]
fn locked_account_still_evaluates_other_disputes() {
    let mut engine = Engine::new();
    engine.process(deposit(1, 1, Decimal::new(100, 1)));
    engine.process(deposit(1, 2, Decimal::new(200, 1)));
    engine.process(dispute(1, 2));
    engine.process(dispute(1, 1));
    engine.process(chargeback(1, 1)); // locks; 20 still held from tx 2
    engine.process(resolve(1, 2));
    let a = row(&engine.output(), 1);
    assert_eq!(a.available, 20 * SCALE);
    assert_eq!(a.held, 0);
    assert!(a.locked);
}

#[test]
fn non_positive_amounts_are_rejected() {
    let mut engine = Engine::new();
    engine.process(deposit(1, 1, Decimal::new(0, 0)));
    engine.process(deposit(1, 2, Decimal::new(-100, 1)));
    // Rejected before the account is ever referenced: no row appears.
    assert!(engine.output().is_empty());

    engine.process(deposit(1, 3, Decimal::new(100, 1)));
    engine.process(withdrawal(1, 4, Decimal::new(-10, 1)));
    let a = row(&engine.output(), 1);
    assert_eq!(a.available, 10 * SCALE);
}

#[test]
fn absent_amount_is_rejected() {
    let mut engine = Engine::new();
    engine.process(Transaction {
        tx_type: TransactionType::Deposit,
        client: 1,
        tx: 1,
        amount: None,
    });
    assert!(engine.output().is_empty());
}

#[test]
fn rejected_withdrawal_still_creates_account() {
    let mut engine = Engine::new();
    engine.process(withdrawal(7, 1, Decimal::new(100, 1)));
    let a = row(&engine.output(), 7);
    assert_eq!((a.available, a.held, a.locked), (0, 0, false));
}

#[test]
fn deposits_saturate_at_the_boundary() {
    // i64::MAX scaled down by four digits converts to exactly i64::MAX.
    let huge = Decimal::new(i64::MAX, 4);
    let mut engine = Engine::new();
    engine.process(deposit(1, 1, huge));
    engine.process(deposit(1, 2, huge));
    let a = row(&engine.output(), 1);
    assert_eq!(a.available, i64::MAX);
}

#[test]
fn engine_default_is_empty() {
    let engine = Engine::default();
    assert!(engine.output().is_empty());
}
