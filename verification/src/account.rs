//! One client's account: its balances, its history and its disputes, and
//! the rules by which a transaction changes them.

use crate::amount::Amount;
use crate::history::{History, Records};
use crate::transaction::{Dispute, DisputeState, Transaction, TransactionId, TransactionKind};
use std::collections::HashMap;
use vstd::prelude::*;

verus! {

broadcast use vstd::std_specs::hash::group_hash_axioms;

/// Why a transaction left an account as it was.
#[derive(Debug, Clone, Copy, PartialEq, Eq, Structural)]
pub enum Rejection {
    /// The account is frozen after a chargeback.
    AccountLocked,
    /// The amount of a deposit or withdrawal is zero or negative.
    InvalidAmount,
    /// The available funds do not exceed the amount of a withdrawal.
    InsufficientFunds,
    /// No deposit is recorded under the id that a dispute step refers to.
    UnknownDeposit,
    /// The deposit has been disputed before.
    DuplicateDispute,
    /// No dispute under that id waits for its outcome.
    NoOpenDispute,
    /// A new balance is more than a decimal can hold without rounding.
    Unrepresentable,
    /// The client has no account, and the transaction is no deposit.
    UnknownClient,
}

/// What a transaction did to an account.
#[derive(Debug, Clone, Copy, PartialEq, Eq, Structural)]
pub enum Outcome {
    /// The transaction took effect.
    Applied,
    /// The transaction was ignored, and nothing changed.
    Ignored(Rejection),
}

/// The current state of a client's asset and transaction history.
pub struct Account {
    /// Funds available for transactions.
    pub available: Amount,
    /// Funds held due to disputes.
    pub held: Amount,
    /// Whether the account is frozen.
    pub locked: bool,
    /// Accepted deposits and withdrawals of this client, in the order they
    /// arrived.
    pub transactions: History,
    /// Disputes in this account, by the id of the disputed deposit.
    pub disputes: HashMap<u32, Dispute>,
}

/// An account as the rules see it.
pub struct AccountState {
    pub available: Amount,
    pub held: Amount,
    pub locked: bool,
    pub history: Records,
    pub disputes: Map<u32, Dispute>,
}

impl View for Account {
    type V = AccountState;

    open spec fn view(&self) -> AccountState {
        AccountState {
            available: self.available,
            held: self.held,
            locked: self.locked,
            history: self.transactions@,
            disputes: self.disputes@,
        }
    }
}

/// The available and held funds after `amount` goes from available to held.
pub open spec fn after_hold(available: Amount, held: Amount, amount: Amount) -> Option<
    (Amount, Amount),
> {
    match (available.minus(amount), held.plus(amount)) {
        (Some(a), Some(h)) => Some((a, h)),
        _ => None,
    }
}

/// The available and held funds after `amount` goes from held back to
/// available.
pub open spec fn after_release(available: Amount, held: Amount, amount: Amount) -> Option<
    (Amount, Amount),
> {
    match (held.minus(amount), available.plus(amount)) {
        (Some(h), Some(a)) => Some((a, h)),
        _ => None,
    }
}

/// The available and held funds after `amount` is taken from both.
pub open spec fn after_chargeback(available: Amount, held: Amount, amount: Amount) -> Option<
    (Amount, Amount),
> {
    match (held.minus(amount), available.minus(amount)) {
        (Some(h), Some(a)) => Some((a, h)),
        _ => None,
    }
}

impl AccountState {
    /// The state of an account opened with `initial` funds.
    pub open spec fn opened(initial: Amount) -> AccountState {
        AccountState {
            available: initial,
            held: Amount::of(0, 0),
            locked: false,
            history: Records::empty(),
            disputes: Map::empty(),
        }
    }

    /// Available plus held funds, in units.
    pub open spec fn total(self) -> int {
        self.available.units() + self.held.units()
    }

    /// The same account with other balances.
    pub open spec fn with_balances(self, balances: (Amount, Amount)) -> AccountState {
        AccountState { available: balances.0, held: balances.1, ..self }
    }

    /// Whether a dispute under `id` waits for its outcome.
    pub open spec fn has_open_dispute(self, id: u32) -> bool {
        self.disputes.contains_key(id) && self.disputes[id].is_open()
    }

    /// A deposit: credited and recorded where its amount is above zero.
    pub open spec fn deposit(self, transaction: Transaction, amount: Amount) -> (
        AccountState,
        Outcome,
    ) {
        if !(amount.units() > 0) {
            (self, Outcome::Ignored(Rejection::InvalidAmount))
        } else {
            match self.available.plus(amount) {
                Some(available) => (
                    AccountState {
                        available,
                        history: self.history.with(transaction.id.0, transaction),
                        ..self
                    },
                    Outcome::Applied,
                ),
                None => (self, Outcome::Ignored(Rejection::Unrepresentable)),
            }
        }
    }

    /// A withdrawal: debited and recorded where its amount is above zero and
    /// strictly below the available funds.
    pub open spec fn withdraw(self, transaction: Transaction, amount: Amount) -> (
        AccountState,
        Outcome,
    ) {
        if !(amount.units() > 0) {
            (self, Outcome::Ignored(Rejection::InvalidAmount))
        } else if !(self.available.units() > amount.units()) {
            (self, Outcome::Ignored(Rejection::InsufficientFunds))
        } else {
            match self.available.minus(amount) {
                Some(available) => (
                    AccountState {
                        available,
                        history: self.history.with(transaction.id.0, transaction),
                        ..self
                    },
                    Outcome::Applied,
                ),
                None => (self, Outcome::Ignored(Rejection::Unrepresentable)),
            }
        }
    }

    /// A dispute: the amount of the recorded deposit goes from available to
    /// held, once.
    pub open spec fn dispute(self, id: u32) -> (AccountState, Outcome) {
        match self.history.deposit(id) {
            None => (self, Outcome::Ignored(Rejection::UnknownDeposit)),
            Some(amount) => if self.disputes.contains_key(id) {
                (self, Outcome::Ignored(Rejection::DuplicateDispute))
            } else {
                match after_hold(self.available, self.held, amount) {
                    Some(balances) => (
                        AccountState {
                            disputes: self.disputes.insert(
                                id,
                                Dispute::in_state(DisputeState::Disputed),
                            ),
                            ..self.with_balances(balances)
                        },
                        Outcome::Applied,
                    ),
                    None => (self, Outcome::Ignored(Rejection::Unrepresentable)),
                }
            },
        }
    }

    /// A resolve: an open dispute ends and its amount goes back from held to
    /// available.
    pub open spec fn resolve(self, id: u32) -> (AccountState, Outcome) {
        if !self.has_open_dispute(id) {
            (self, Outcome::Ignored(Rejection::NoOpenDispute))
        } else {
            match self.history.deposit(id) {
                None => (self, Outcome::Ignored(Rejection::UnknownDeposit)),
                Some(amount) => match after_release(self.available, self.held, amount) {
                    Some(balances) => (
                        AccountState {
                            disputes: self.disputes.insert(
                                id,
                                Dispute::in_state(DisputeState::Resolved),
                            ),
                            ..self.with_balances(balances)
                        },
                        Outcome::Applied,
                    ),
                    None => (self, Outcome::Ignored(Rejection::Unrepresentable)),
                },
            }
        }
    }

    /// A chargeback: an open dispute ends, its amount is taken from the held
    /// and from the available funds, and the account is frozen.
    pub open spec fn charge_back(self, id: u32) -> (AccountState, Outcome) {
        if !self.has_open_dispute(id) {
            (self, Outcome::Ignored(Rejection::NoOpenDispute))
        } else {
            match self.history.deposit(id) {
                None => (self, Outcome::Ignored(Rejection::UnknownDeposit)),
                Some(amount) => match after_chargeback(self.available, self.held, amount) {
                    Some(balances) => (
                        AccountState {
                            locked: true,
                            disputes: self.disputes.insert(
                                id,
                                Dispute::in_state(DisputeState::ChargedBack),
                            ),
                            ..self.with_balances(balances)
                        },
                        Outcome::Applied,
                    ),
                    None => (self, Outcome::Ignored(Rejection::Unrepresentable)),
                },
            }
        }
    }

    /// The account after a transaction, and what the transaction did.
    pub open spec fn transition(self, transaction: Transaction) -> (AccountState, Outcome) {
        if self.locked {
            (self, Outcome::Ignored(Rejection::AccountLocked))
        } else {
            match transaction.kind {
                TransactionKind::Deposit { amount } => self.deposit(transaction, amount),
                TransactionKind::Withdrawal { amount } => self.withdraw(transaction, amount),
                TransactionKind::Dispute => self.dispute(transaction.id.0),
                TransactionKind::Resolve => self.resolve(transaction.id.0),
                TransactionKind::Chargeback => self.charge_back(transaction.id.0),
            }
        }
    }

    /// The account after a transaction.
    pub open spec fn step(self, transaction: Transaction) -> AccountState {
        self.transition(transaction).0
    }

    /// What a transaction does to the account.
    pub open spec fn outcome(self, transaction: Transaction) -> Outcome {
        self.transition(transaction).1
    }
}

impl Account {
    /// An account that starts with `initial_deposit` available, nothing
    /// held, and no history.
    pub fn new(initial_deposit: Amount) -> (r: Account)
        ensures
            r@ == AccountState::opened(initial_deposit),
    {
        Account {
            available: initial_deposit,
            held: Amount::zero(),
            locked: false,
            transactions: History::new(),
            disputes: HashMap::new(),
        }
    }

    /// Available plus held funds, or `None` where no decimal holds their
    /// sum exactly.
    pub fn total_funds(&self) -> (r: Option<Amount>)
        ensures
            r == self@.available.plus(self@.held),
            r matches Some(total) ==> total.units() == self@.total(),
    {
        self.available.checked_add(self.held)
    }

    /// Updates the client account according to the new transaction
    /// received, and says what became of the transaction. A transaction
    /// that is ignored changes nothing, and a locked account ignores every
    /// transaction.
    pub fn process_transaction(&mut self, transaction: Transaction) -> (r: Outcome)
        ensures
            final(self)@ == old(self)@.step(transaction),
            r == old(self)@.outcome(transaction),
            !(r is Applied) ==> final(self)@ == old(self)@,
            old(self)@.locked ==> r == Outcome::Ignored(Rejection::AccountLocked),
    {
        if self.locked {
            return Outcome::Ignored(Rejection::AccountLocked);
        }
        let id: u32 = transaction.id.0;
        match transaction.kind {
            TransactionKind::Deposit { amount } => {
                if !transaction.amount_is_valid() {
                    return Outcome::Ignored(Rejection::InvalidAmount);
                }
                match self.available.checked_add(amount) {
                    Some(available) => {
                        self.available = available;
                        self.transactions.insert(transaction.id, transaction);
                        Outcome::Applied
                    },
                    None => Outcome::Ignored(Rejection::Unrepresentable),
                }
            },
            TransactionKind::Withdrawal { amount } => {
                if !transaction.amount_is_valid() {
                    return Outcome::Ignored(Rejection::InvalidAmount);
                }
                if !self.available.exceeds(amount) {
                    return Outcome::Ignored(Rejection::InsufficientFunds);
                }
                match self.available.checked_sub(amount) {
                    Some(available) => {
                        self.available = available;
                        self.transactions.insert(transaction.id, transaction);
                        Outcome::Applied
                    },
                    None => Outcome::Ignored(Rejection::Unrepresentable),
                }
            },
            TransactionKind::Dispute => {
                match self.disputed_deposit(transaction.id) {
                    None => Outcome::Ignored(Rejection::UnknownDeposit),
                    Some(amount) => {
                        if self.disputes.contains_key(&id) {
                            Outcome::Ignored(Rejection::DuplicateDispute)
                        } else if self.hold_funds(amount) {
                            self.disputes.insert(id, Dispute::new());
                            Outcome::Applied
                        } else {
                            Outcome::Ignored(Rejection::Unrepresentable)
                        }
                    },
                }
            },
            TransactionKind::Resolve => {
                match self.open_dispute(id) {
                    None => Outcome::Ignored(Rejection::NoOpenDispute),
                    Some(mut dispute) => match self.disputed_deposit(transaction.id) {
                        None => Outcome::Ignored(Rejection::UnknownDeposit),
                        Some(amount) => {
                            if self.release_held_funds(amount) {
                                dispute.resolve();
                                self.disputes.insert(id, dispute);
                                Outcome::Applied
                            } else {
                                Outcome::Ignored(Rejection::Unrepresentable)
                            }
                        },
                    },
                }
            },
            TransactionKind::Chargeback => {
                match self.open_dispute(id) {
                    None => Outcome::Ignored(Rejection::NoOpenDispute),
                    Some(mut dispute) => match self.disputed_deposit(transaction.id) {
                        None => Outcome::Ignored(Rejection::UnknownDeposit),
                        Some(amount) => {
                            if self.chargeback_and_lock(amount) {
                                dispute.chargeback();
                                self.disputes.insert(id, dispute);
                                Outcome::Applied
                            } else {
                                Outcome::Ignored(Rejection::Unrepresentable)
                            }
                        },
                    },
                }
            },
        }
    }

    /// The dispute under `id`, if there is one and it waits for its outcome.
    fn open_dispute(&self, id: u32) -> (r: Option<Dispute>)
        ensures
            r == if self@.has_open_dispute(id) {
                Some(self@.disputes[id])
            } else {
                None
            },
    {
        match self.disputes.get(&id) {
            Some(dispute) => if dispute.can_finish() {
                Some(*dispute)
            } else {
                None
            },
            None => None,
        }
    }

    /// Returns the amount of the disputed deposit, if a deposit is recorded
    /// under the id.
    pub fn disputed_deposit(&self, transaction_id: TransactionId) -> (r: Option<Amount>)
        ensures
            r == self@.history.deposit(transaction_id.0),
    {
        match self.transactions.get(transaction_id) {
            Some(transaction) => transaction.deposit_amount(),
            None => None,
        }
    }

    /// Decreases the account's available funds and increases the held funds
    /// by the same amount, which may leave a negative available balance; the
    /// total does not change. Where a new balance cannot be held exactly,
    /// nothing changes and the answer is `false`.
    pub fn hold_funds(&mut self, disputed_amount: Amount) -> (done: bool)
        ensures
            final(self)@ == match after_hold(
                old(self)@.available,
                old(self)@.held,
                disputed_amount,
            ) {
                Some(balances) => old(self)@.with_balances(balances),
                None => old(self)@,
            },
            done == after_hold(old(self)@.available, old(self)@.held, disputed_amount).is_some(),
            final(self)@.total() == old(self)@.total(),
    {
        match (self.available.checked_sub(disputed_amount), self.held.checked_add(disputed_amount)) {
            (Some(available), Some(held)) => {
                self.available = available;
                self.held = held;
                true
            },
            _ => false,
        }
    }

    /// Releases the held funds back to the account's available funds; the
    /// total does not change. Where a new balance cannot be held exactly,
    /// nothing changes and the answer is `false`.
    pub fn release_held_funds(&mut self, disputed_amount: Amount) -> (done: bool)
        ensures
            final(self)@ == match after_release(
                old(self)@.available,
                old(self)@.held,
                disputed_amount,
            ) {
                Some(balances) => old(self)@.with_balances(balances),
                None => old(self)@,
            },
            done == after_release(
                old(self)@.available,
                old(self)@.held,
                disputed_amount,
            ).is_some(),
            final(self)@.total() == old(self)@.total(),
    {
        match (self.held.checked_sub(disputed_amount), self.available.checked_add(disputed_amount)) {
            (Some(held), Some(available)) => {
                self.available = available;
                self.held = held;
                true
            },
            _ => false,
        }
    }

    /// Takes the disputed amount from the held and from the available funds
    /// and freezes the account. Where a new balance cannot be held exactly,
    /// nothing changes and the answer is `false`.
    pub fn chargeback_and_lock(&mut self, disputed_amount: Amount) -> (done: bool)
        ensures
            final(self)@ == match after_chargeback(
                old(self)@.available,
                old(self)@.held,
                disputed_amount,
            ) {
                Some(balances) => AccountState { locked: true, ..old(self)@.with_balances(balances) },
                None => old(self)@,
            },
            done == after_chargeback(
                old(self)@.available,
                old(self)@.held,
                disputed_amount,
            ).is_some(),
            done ==> final(self)@.total() == old(self)@.total() - 2 * disputed_amount.units(),
    {
        match (self.held.checked_sub(disputed_amount), self.available.checked_sub(disputed_amount)) {
            (Some(held), Some(available)) => {
                self.available = available;
                self.held = held;
                self.locked = true;
                true
            },
            _ => false,
        }
    }
}

} // verus!
