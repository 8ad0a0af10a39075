//! The records a ledger is driven by, and the life of a dispute.

use crate::amount::Amount;
use vstd::prelude::*;

verus! {

/// Identity of a client.
#[derive(Copy, Clone, Debug, PartialEq, Eq, Hash, Structural)]
pub struct ClientId(pub u16);

/// Identity of a transaction, shared by a deposit and the dispute steps that
/// refer to it.
#[derive(Copy, Clone, Debug, PartialEq, Eq, Hash, Structural)]
pub struct TransactionId(pub u32);

#[derive(Debug, Clone, Copy, PartialEq, Eq, Hash, Structural)]
pub enum TransactionKind {
    /// A credit to a client's asset account from an external source.
    Deposit { amount: Amount },
    /// A debit from a client's asset account to an external destination.
    Withdrawal { amount: Amount },
    /// Claim that a previously processed deposit was erroneous or fraudulent
    /// and should be reversed.
    Dispute,
    /// A resolution to an ongoing dispute: the disputed transaction was valid.
    Resolve,
    /// The final state of a dispute: the disputed deposit is reversed.
    Chargeback,
}

/// Record of a financial operation on a client's asset account. A
/// transaction is a fact: it is never changed once made.
#[derive(Debug, Clone, Copy, PartialEq, Eq, Structural)]
pub struct Transaction {
    pub kind: TransactionKind,
    pub client: ClientId,
    pub id: TransactionId,
}

impl Transaction {
    /// Whether this transaction is a step of a dispute.
    pub open spec fn is_dispute_step(self) -> bool {
        self.kind is Dispute || self.kind is Resolve || self.kind is Chargeback
    }

    /// The amount, if the transaction is a deposit.
    pub open spec fn deposited(self) -> Option<Amount> {
        match self.kind {
            TransactionKind::Deposit { amount } => Some(amount),
            _ => None,
        }
    }

    /// Whether the amount, where the transaction carries one, is above zero.
    pub open spec fn has_valid_amount(self) -> bool {
        match self.kind {
            TransactionKind::Deposit { amount } => amount.units() > 0,
            TransactionKind::Withdrawal { amount } => amount.units() > 0,
            _ => true,
        }
    }

    /// If this transaction is part of a dispute process.
    pub fn belongs_to_dispute(&self) -> (r: bool)
        ensures
            r == self.is_dispute_step(),
    {
        match self.kind {
            TransactionKind::Dispute => true,
            TransactionKind::Resolve => true,
            TransactionKind::Chargeback => true,
            _ => false,
        }
    }

    /// Amount, if the operation is a deposit.
    pub fn deposit_amount(&self) -> (r: Option<Amount>)
        ensures
            r == self.deposited(),
    {
        match self.kind {
            TransactionKind::Deposit { amount } => Some(amount),
            _ => None,
        }
    }

    /// Checks if the transaction amount is a valid one.
    pub fn amount_is_valid(&self) -> (r: bool)
        ensures
            r == self.has_valid_amount(),
    {
        match self.kind {
            TransactionKind::Deposit { amount } => amount.is_positive(),
            TransactionKind::Withdrawal { amount } => amount.is_positive(),
            _ => true,
        }
    }
}

#[derive(Debug, Clone, Copy, PartialEq, Eq, Structural)]
pub enum DisputeState {
    /// Initial state of a dispute.
    Disputed,
    /// The dispute was resolved and the held funds were made available again
    /// for the client.
    Resolved,
    /// The dispute was finished with a chargeback, withdrawing from the
    /// client.
    ChargedBack,
}

/// A dispute is a claim that a previously processed deposit was erroneous or
/// fraudulent and should be reversed. It is followed by either a resolve,
/// which releases the held funds, or a chargeback, which removes them and
/// freezes the account. Both are final.
#[derive(Debug, Clone, Copy, PartialEq, Eq, Structural)]
pub struct Dispute {
    pub(crate) state: DisputeState,
}

impl Dispute {
    /// The dispute that is in the given state.
    pub open(crate) spec fn in_state(state: DisputeState) -> Dispute {
        Dispute { state }
    }

    /// The state the dispute is in.
    pub open(crate) spec fn state(self) -> DisputeState {
        self.state
    }

    /// Whether the dispute still waits for its outcome.
    pub open spec fn is_open(self) -> bool {
        self.state() == DisputeState::Disputed
    }

    pub fn new() -> (r: Dispute)
        ensures
            r == Dispute::in_state(DisputeState::Disputed),
    {
        Dispute { state: DisputeState::Disputed }
    }

    /// If we can finish the dispute, either to a resolve or a chargeback.
    pub fn can_finish(&self) -> (r: bool)
        ensures
            r == self.is_open(),
    {
        match self.state {
            DisputeState::Disputed => true,
            _ => false,
        }
    }

    /// Finishes an open dispute in favour of the client.
    pub fn resolve(&mut self)
        requires
            old(self).is_open(),
        ensures
            *final(self) == Dispute::in_state(DisputeState::Resolved),
    {
        self.state = DisputeState::Resolved
    }

    /// Finishes an open dispute against the client.
    pub fn chargeback(&mut self)
        requires
            old(self).is_open(),
        ensures
            *final(self) == Dispute::in_state(DisputeState::ChargedBack),
    {
        self.state = DisputeState::ChargedBack
    }
}

} // verus!
