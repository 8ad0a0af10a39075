use payments_engine::account::Account;
use payments_engine::amount::Amount;
use payments_engine::transaction::{ClientId, Transaction, TransactionId, TransactionKind};

#[test]
fn test_deposit() {
    let mut transactions = vec![];
    for i in 0..10 {
        transactions.push(Transaction {
            client: ClientId(1),
            kind: TransactionKind::Deposit {
                amount: Amount::new(10, 0),
            },
            id: TransactionId(i),
        });
    }
    let expected_available = Amount::new(100, 0);
    let account = transactions
        .into_iter()
        .fold(Account::new(Amount::zero()), |mut acc, tx| {
            acc.process_transaction(tx);
            acc
        });

    assert_eq!(account.available, expected_available);
    assert_eq!(account.held, Amount::zero());
    assert_eq!(account.total_funds(), Some(expected_available));
    for i in 0..10 {
        assert!(account.transactions.contains_key(TransactionId(i)));
    }
}

#[test]
fn test_withdraw() {
    let mut transactions = vec![];
    for i in 0..10 {
        transactions.push(Transaction {
            client: ClientId(1),
            kind: TransactionKind::Deposit {
                amount: Amount::new(10, 0),
            },
            id: TransactionId(i),
        });
    }

    transactions.push(Transaction {
        client: ClientId(1),
        kind: TransactionKind::Withdrawal {
            amount: Amount::new(5, 0),
        },
        id: TransactionId(15),
    });

    let expected_available = Amount::new(95, 0);
    let account = transactions
        .into_iter()
        .fold(Account::new(Amount::zero()), |mut acc, tx| {
            acc.process_transaction(tx);
            acc
        });
    assert_eq!(account.available, expected_available);
    assert_eq!(account.held, Amount::zero());
    assert!(account.transactions.contains_key(TransactionId(15)));
    for i in 0..10 {
        assert!(account.transactions.contains_key(TransactionId(i)));
    }
}

// A withdrawal with insufficient funds is not processed and is not added to
// the transaction history.
#[test]
fn insufficient_funds() {
    let mut transactions = vec![];
    transactions.push(Transaction {
        client: ClientId(1),
        kind: TransactionKind::Deposit {
            amount: Amount::new(5, 0),
        },
        id: TransactionId(1),
    });

    transactions.push(Transaction {
        client: ClientId(1),
        kind: TransactionKind::Withdrawal {
            amount: Amount::new(100, 0),
        },
        id: TransactionId(15),
    });

    let expected_available = Amount::new(5, 0);
    let account = transactions
        .into_iter()
        .fold(Account::new(Amount::zero()), |mut acc, tx| {
            acc.process_transaction(tx);
            acc
        });
    assert_eq!(account.available, expected_available);
    assert_eq!(account.held, Amount::zero());
    assert!(!account.transactions.contains_key(TransactionId(15)));
}

// Basic dispute case
#[test]
fn test_dispute() {
    // Client deposits 100, then deposits 50 more, then disputes the first
    // transaction. 100 is moved to held, 50 is still available. Total is 150.
    let deposit_1 = Transaction {
        client: ClientId(1),
        kind: TransactionKind::Deposit {
            amount: Amount::new(100, 0),
        },
        id: TransactionId(1),
    };

    let deposit_2 = Transaction {
        client: ClientId(1),
        kind: TransactionKind::Deposit {
            amount: Amount::new(50, 0),
        },
        id: TransactionId(2),
    };

    let dispute = Transaction {
        client: ClientId(1),
        kind: TransactionKind::Dispute,
        id: TransactionId(1), // first deposit
    };

    let transactions = vec![deposit_1, deposit_2, dispute];

    let account = transactions
        .into_iter()
        .fold(Account::new(Amount::zero()), |mut acc, tx| {
            acc.process_transaction(tx);
            acc
        });
    assert_eq!(account.available, Amount::new(50, 0));
    assert_eq!(account.held, Amount::new(100, 0));
    assert_eq!(account.total_funds(), Some(Amount::new(150, 0)));
    assert_eq!(account.disputes.len(), 1);
    assert!(account.disputes.contains_key(&1));
}

#[test]
fn test_resolve() {
    // Client deposits 100, then disputes it, then resolves the dispute.
    // After the dispute, 100 is held and 0 is available. After the resolve,
    // 100 is available again and 0 is held.
    let deposit = Transaction {
        client: ClientId(1),
        kind: TransactionKind::Deposit {
            amount: Amount::new(100, 0),
        },
        id: TransactionId(1),
    };

    let dispute = Transaction {
        client: ClientId(1),
        kind: TransactionKind::Dispute,
        id: TransactionId(1), // first deposit
    };

    let resolve = Transaction {
        client: ClientId(1),
        kind: TransactionKind::Resolve,
        id: TransactionId(1), // first deposit
    };

    let transactions = vec![deposit, dispute, resolve];

    let account = transactions
        .into_iter()
        .fold(Account::new(Amount::zero()), |mut acc, tx| {
            acc.process_transaction(tx);
            acc
        });
    assert_eq!(account.available, Amount::new(100, 0));
    assert_eq!(account.held, Amount::zero());
    assert_eq!(account.total_funds(), Some(Amount::new(100, 0)));
    assert_eq!(account.disputes.len(), 1);
    assert!(account.disputes.contains_key(&1));
}

#[test]
fn test_blocked_account_after_chargeback() {
    // Client deposits 100, then disputes it, then charges the dispute back.
    // After the dispute, 100 is held and 0 is available. The chargeback takes
    // 100 from the held and 100 from the available funds and locks the
    // account.
    let deposit = Transaction {
        client: ClientId(1),
        kind: TransactionKind::Deposit {
            amount: Amount::new(100, 0),
        },
        id: TransactionId(1),
    };

    let dispute = Transaction {
        client: ClientId(1),
        kind: TransactionKind::Dispute,
        id: TransactionId(1), // first deposit
    };
    // at this point client has 100 held and 0 available
    let chargeback = Transaction {
        client: ClientId(1),
        kind: TransactionKind::Chargeback,
        id: TransactionId(1), // first deposit
    };

    let transactions = vec![deposit, dispute, chargeback];

    let account = transactions
        .into_iter()
        .fold(Account::new(Amount::zero()), |mut acc, tx| {
            acc.process_transaction(tx);
            println!(
                "After processing transaction {:?}, account state is: available: {:?}, held: {:?}, total: {:?}, locked: {}",
                tx,
                acc.available,
                acc.held,
                acc.total_funds(),
                acc.locked
            );
            acc
        });
    assert_eq!(account.available, Amount::new(-100, 0));
    assert_eq!(account.held, Amount::zero());
    assert_eq!(account.total_funds(), Some(Amount::new(-100, 0)));
    assert_eq!(account.disputes.len(), 1);
    assert!(account.disputes.contains_key(&1));
    assert!(account.locked);
}
