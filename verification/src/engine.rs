//! The ledger: every client's account, and the routing of transactions to
//! them.

use crate::account::{Account, AccountState, Outcome, Rejection};
use crate::amount::Amount;
use crate::history::Records;
use crate::transaction::{ClientId, Transaction, TransactionKind};
use std::collections::HashMap;
use vstd::prelude::*;
use vstd::std_specs::iter::IteratorSpec;

verus! {

broadcast use vstd::std_specs::hash::group_hash_axioms;

/// One client's balances as they are reported.
#[derive(Debug, Clone, Copy, PartialEq, Eq, Structural)]
pub struct EngineOutput {
    pub client: ClientId,
    pub available: Amount,
    pub held: Amount,
    pub total: Amount,
    pub locked: bool,
}

/// Why a client's balances cannot be reported.
#[derive(Debug, Clone, Copy, PartialEq, Eq, Structural)]
pub enum SnapshotError {
    /// The client has no account.
    UnknownClient,
    /// No decimal holds the sum of the available and the held funds exactly.
    TotalUnrepresentable,
}

/// Accounts data.
pub struct Engine {
    pub clients: HashMap<u16, Account>,
}

impl View for Engine {
    type V = Map<u16, AccountState>;

    open spec fn view(&self) -> Map<u16, AccountState> {
        self.clients@.map_values(|account: Account| account@)
    }
}

/// The account that a client's first transaction opens: one for a deposit
/// of more than zero, seeded with its amount and with the deposit as its
/// history.
pub open spec fn opened_by(transaction: Transaction) -> Option<AccountState> {
    match transaction.kind {
        TransactionKind::Deposit { amount } => if amount.units() > 0 {
            Some(
                AccountState {
                    history: Records::empty().with(transaction.id.0, transaction),
                    ..AccountState::opened(amount)
                },
            )
        } else {
            None
        },
        _ => None,
    }
}

/// What a first transaction that opens no account is answered with.
pub open spec fn refusal_of(transaction: Transaction) -> Rejection {
    match transaction.kind {
        TransactionKind::Deposit { amount } => Rejection::InvalidAmount,
        _ => Rejection::UnknownClient,
    }
}

/// The accounts after a transaction has been routed to its client, and
/// what the transaction did.
pub open spec fn route(accounts: Map<u16, AccountState>, transaction: Transaction) -> (
    Map<u16, AccountState>,
    Outcome,
) {
    let client = transaction.client.0;
    if accounts.contains_key(client) {
        (
            accounts.insert(client, accounts[client].step(transaction)),
            accounts[client].outcome(transaction),
        )
    } else {
        match opened_by(transaction) {
            Some(account) => (accounts.insert(client, account), Outcome::Applied),
            None => (accounts, Outcome::Ignored(refusal_of(transaction))),
        }
    }
}

/// The accounts after a sequence of transactions, routed one by one.
pub open spec fn route_all(accounts: Map<u16, AccountState>, transactions: Seq<Transaction>) -> Map<
    u16,
    AccountState,
>
    decreases transactions.len(),
{
    if transactions.len() == 0 {
        accounts
    } else {
        route(route_all(accounts, transactions.drop_last()), transactions.last()).0
    }
}

/// What is reported of an account.
pub open spec fn snapshot_of(client: ClientId, account: AccountState) -> Result<
    EngineOutput,
    SnapshotError,
> {
    match account.available.plus(account.held) {
        Some(total) => Ok(
            EngineOutput {
                client,
                available: account.available,
                held: account.held,
                total,
                locked: account.locked,
            },
        ),
        None => Err(SnapshotError::TotalUnrepresentable),
    }
}

impl Engine {
    /// A ledger without accounts.
    pub fn new() -> (r: Engine)
        ensures
            r@ == Map::<u16, AccountState>::empty(),
    {
        let r = Engine { clients: HashMap::new() };
        assert(r@ =~= Map::<u16, AccountState>::empty());
        r
    }

    /// Routes a transaction to its client's account. A client without an
    /// account gets one by a deposit of more than zero, and by nothing else.
    pub fn process_transaction(&mut self, transaction: Transaction) -> (r: Outcome)
        ensures
            final(self)@ == route(old(self)@, transaction).0,
            r == route(old(self)@, transaction).1,
            forall|other: u16|
                other != transaction.client.0 ==> (final(self)@.contains_key(other) == old(
                    self,
                )@.contains_key(other) && final(self)@[other] == old(self)@[other]),
    {
        let client: u16 = transaction.client.0;
        let ghost before = self@;
        match self.clients.remove(&client) {
            Some(mut account) => {
                let outcome = account.process_transaction(transaction);
                self.clients.insert(client, account);
                assert(self@ =~= before.insert(client, before[client].step(transaction)));
                outcome
            },
            None => {
                assert(self@ =~= before);
                match transaction.kind {
                    TransactionKind::Deposit { amount } => {
                        if transaction.amount_is_valid() {
                            let mut account = Account::new(amount);
                            account.transactions.insert(transaction.id, transaction);
                            self.clients.insert(client, account);
                            assert(self@ =~= before.insert(client, opened_by(transaction).unwrap()));
                            Outcome::Applied
                        } else {
                            Outcome::Ignored(Rejection::InvalidAmount)
                        }
                    },
                    _ => Outcome::Ignored(Rejection::UnknownClient),
                }
            },
        }
    }

    /// The clients that have an account, each once, in no particular order.
    pub fn client_ids(&self) -> (ids: Vec<ClientId>)
        ensures
            ids@.no_duplicates(),
            forall|client: ClientId| ids@.contains(client) <==> self@.contains_key(client.0),
    {
        let mut ids: Vec<ClientId> = Vec::new();
        let ghost keys = vstd::std_specs::hash::spec_keys_iter(&self.clients).remaining();
        for key in iter: self.clients.keys()
            invariant
                iter.seq() == keys,
                ids@.len() == iter.index(),
                forall|i: int| 0 <= i < ids@.len() ==> (#[trigger] ids@[i]).0 == *keys[i],
        {
            ids.push(ClientId(*key));
        }
        proof {
            assert(keys.unref().to_set() == self.clients@.dom());
            assert forall|i: int, j: int|
                0 <= i < ids@.len() && 0 <= j < ids@.len() && i != j implies ids@[i] != ids@[j] by {
                assert(keys[i] != keys[j]);
            }
            assert forall|client: ClientId| ids@.contains(client) <==> self@.contains_key(
                client.0,
            ) by {
                if ids@.contains(client) {
                    let i = choose|i: int| 0 <= i < ids@.len() && ids@[i] == client;
                    assert(keys.unref()[i] == client.0);
                    assert(keys.unref().to_set().contains(client.0));
                }
                if self@.contains_key(client.0) {
                    assert(keys.unref().to_set().contains(client.0));
                    let i = choose|i: int| 0 <= i < keys.unref().len() && keys.unref()[i] == client.0;
                    assert(ids@[i] == client);
                }
            }
        }
        ids
    }

    /// The balances of one client.
    pub fn snapshot(&self, client: ClientId) -> (r: Result<EngineOutput, SnapshotError>)
        ensures
            r == if self@.contains_key(client.0) {
                snapshot_of(client, self@[client.0])
            } else {
                Err(SnapshotError::UnknownClient)
            },
    {
        match self.clients.get(&client.0) {
            Some(account) => match account.total_funds() {
                Some(total) => Ok(
                    EngineOutput {
                        client,
                        available: account.available,
                        held: account.held,
                        total,
                        locked: account.locked,
                    },
                ),
                None => Err(SnapshotError::TotalUnrepresentable),
            },
            None => Err(SnapshotError::UnknownClient),
        }
    }
}

impl Default for Engine {
    fn default() -> (r: Engine)
        ensures
            r@ == Map::<u16, AccountState>::empty(),
    {
        Engine::new()
    }
}

/// Builds a ledger from a sequence of transactions, taken in their order.
pub fn process_transactions(inputs: Vec<Transaction>) -> (engine: Engine)
    ensures
        engine@ == route_all(Map::empty(), inputs@),
{
    let mut engine = Engine::new();
    let mut i: usize = 0;
    while i < inputs.len()
        invariant
            i <= inputs.len(),
            engine@ == route_all(Map::empty(), inputs@.take(i as int)),
        decreases inputs.len() - i,
    {
        proof {
            assert(inputs@.take(i + 1).drop_last() =~= inputs@.take(i as int));
        }
        engine.process_transaction(inputs[i]);
        i = i + 1;
    }
    proof {
        assert(inputs@.take(i as int) =~= inputs@);
    }
    engine
}

} // verus!
