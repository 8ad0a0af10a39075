use payments_engine::account::{Outcome, Rejection};
use payments_engine::amount::{Amount, MAX_MANTISSA};
use payments_engine::engine::{process_transactions, Engine, EngineOutput, SnapshotError};
use payments_engine::transaction::{ClientId, Transaction, TransactionId, TransactionKind};

fn deposit(client: u16, id: u32, amount: Amount) -> Transaction {
    Transaction {
        kind: TransactionKind::Deposit { amount },
        client: ClientId(client),
        id: TransactionId(id),
    }
}

fn withdrawal(client: u16, id: u32, amount: Amount) -> Transaction {
    Transaction {
        kind: TransactionKind::Withdrawal { amount },
        client: ClientId(client),
        id: TransactionId(id),
    }
}

fn step(client: u16, kind: TransactionKind, id: u32) -> Transaction {
    Transaction {
        kind,
        client: ClientId(client),
        id: TransactionId(id),
    }
}

fn whole(n: i64) -> Amount {
    Amount::new(n, 0)
}

fn row(client: u16, available: Amount, held: Amount, total: Amount, locked: bool) -> EngineOutput {
    EngineOutput {
        client: ClientId(client),
        available,
        held,
        total,
        locked,
    }
}

#[test]
fn a_new_ledger_has_no_clients() {
    let engine = Engine::new();
    assert!(engine.clients.is_empty());
    assert!(engine.client_ids().is_empty());
    assert_eq!(
        engine.snapshot(ClientId(1)),
        Err(SnapshotError::UnknownClient)
    );
    assert!(Engine::default().client_ids().is_empty());
}

#[test]
fn a_first_deposit_opens_an_account_and_is_recorded() {
    let mut engine = Engine::new();
    let outcome = engine.process_transaction(deposit(7, 1, Amount::new(15, 1)));
    assert_eq!(outcome, Outcome::Applied);
    assert_eq!(
        engine.snapshot(ClientId(7)),
        Ok(row(7, Amount::new(15, 1), whole(0), Amount::new(15, 1), false))
    );
    let account = engine.clients.get(&7).unwrap();
    assert_eq!(
        account.transactions.entries(),
        vec![(TransactionId(1), deposit(7, 1, Amount::new(15, 1)))]
    );
    assert!(account.disputes.is_empty());
}

#[test]
fn a_first_deposit_can_be_disputed() {
    let mut engine = Engine::new();
    engine.process_transaction(deposit(7, 1, whole(20)));
    let outcome = engine.process_transaction(step(7, TransactionKind::Dispute, 1));
    assert_eq!(outcome, Outcome::Applied);
    assert_eq!(
        engine.snapshot(ClientId(7)),
        Ok(row(7, whole(0), whole(20), whole(20), false))
    );
}

#[test]
fn nothing_but_a_deposit_opens_an_account() {
    let mut engine = Engine::new();
    let attempts = [
        withdrawal(3, 1, whole(5)),
        step(3, TransactionKind::Dispute, 1),
        step(3, TransactionKind::Resolve, 1),
        step(3, TransactionKind::Chargeback, 1),
    ];
    for attempt in attempts {
        assert_eq!(
            engine.process_transaction(attempt),
            Outcome::Ignored(Rejection::UnknownClient)
        );
        assert!(engine.clients.is_empty());
    }
}

#[test]
fn a_first_deposit_of_zero_or_less_opens_no_account() {
    let mut engine = Engine::new();
    assert_eq!(
        engine.process_transaction(deposit(3, 1, whole(0))),
        Outcome::Ignored(Rejection::InvalidAmount)
    );
    assert_eq!(
        engine.process_transaction(deposit(3, 2, whole(-10))),
        Outcome::Ignored(Rejection::InvalidAmount)
    );
    assert!(engine.clients.is_empty());
    assert_eq!(
        engine.snapshot(ClientId(3)),
        Err(SnapshotError::UnknownClient)
    );
}

#[test]
fn every_client_has_an_account_of_its_own() {
    let mut engine = Engine::new();
    engine.process_transaction(deposit(1, 1, whole(100)));
    engine.process_transaction(deposit(2, 2, whole(7)));
    engine.process_transaction(withdrawal(1, 3, whole(40)));
    engine.process_transaction(step(2, TransactionKind::Dispute, 2));
    // Client 2 cannot dispute what client 1 deposited.
    assert_eq!(
        engine.process_transaction(step(2, TransactionKind::Dispute, 1)),
        Outcome::Ignored(Rejection::UnknownDeposit)
    );
    assert_eq!(
        engine.snapshot(ClientId(1)),
        Ok(row(1, whole(60), whole(0), whole(60), false))
    );
    assert_eq!(
        engine.snapshot(ClientId(2)),
        Ok(row(2, whole(0), whole(7), whole(7), false))
    );
    let mut ids = engine.client_ids();
    ids.sort_by_key(|id| id.0);
    assert_eq!(ids, vec![ClientId(1), ClientId(2)]);
}

#[test]
fn the_outcome_of_a_known_client_is_that_of_its_account() {
    let mut engine = Engine::new();
    engine.process_transaction(deposit(1, 1, whole(100)));
    assert_eq!(
        engine.process_transaction(withdrawal(1, 2, whole(100))),
        Outcome::Ignored(Rejection::InsufficientFunds)
    );
    assert_eq!(
        engine.process_transaction(step(1, TransactionKind::Resolve, 1)),
        Outcome::Ignored(Rejection::NoOpenDispute)
    );
    assert_eq!(
        engine.process_transaction(step(1, TransactionKind::Dispute, 1)),
        Outcome::Applied
    );
    assert_eq!(
        engine.process_transaction(step(1, TransactionKind::Dispute, 1)),
        Outcome::Ignored(Rejection::DuplicateDispute)
    );
    assert_eq!(
        engine.process_transaction(step(1, TransactionKind::Chargeback, 1)),
        Outcome::Applied
    );
    assert_eq!(
        engine.process_transaction(deposit(1, 3, whole(1))),
        Outcome::Ignored(Rejection::AccountLocked)
    );
}

#[test]
fn a_snapshot_fails_when_no_decimal_holds_the_total() {
    let most = Amount::from_parts(MAX_MANTISSA, 0).unwrap();
    let mut engine = Engine::new();
    engine.process_transaction(deposit(1, 1, whole(1)));
    engine.process_transaction(step(1, TransactionKind::Dispute, 1));
    engine.process_transaction(deposit(1, 2, most));
    assert_eq!(
        engine.snapshot(ClientId(1)),
        Err(SnapshotError::TotalUnrepresentable)
    );
    let account = engine.clients.get(&1).unwrap();
    assert_eq!(account.available, most);
    assert_eq!(account.held, whole(1));
}

#[test]
fn process_transactions_routes_a_whole_sequence() {
    let engine = process_transactions(vec![
        deposit(1, 1, whole(100)),
        step(2, TransactionKind::Dispute, 1),
        deposit(2, 2, Amount::new(12345, 4)),
        withdrawal(1, 3, Amount::new(5, 1)),
        deposit(1, 4, whole(50)),
        step(1, TransactionKind::Dispute, 4),
        withdrawal(2, 5, whole(2)),
    ]);
    assert_eq!(
        engine.snapshot(ClientId(1)),
        Ok(row(1, Amount::new(995, 1), whole(50), Amount::new(1495, 1), false))
    );
    assert_eq!(
        engine.snapshot(ClientId(2)),
        Ok(row(2, Amount::new(12345, 4), whole(0), Amount::new(12345, 4), false))
    );
    assert_eq!(engine.client_ids().len(), 2);
}

#[test]
fn process_transactions_of_nothing_is_an_empty_ledger() {
    let engine = process_transactions(vec![]);
    assert!(engine.clients.is_empty());
}
