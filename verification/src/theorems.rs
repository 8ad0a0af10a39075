//! What holds of every account and every ledger, whatever transactions
//! reach them.

use crate::account::AccountState;
use crate::engine::{opened_by, route, route_all};
use crate::history::{lemma_with_keeps_order, Records};
use crate::transaction::{Dispute, Transaction, TransactionKind};
use vstd::prelude::*;

verus! {

/// The account after a sequence of transactions, applied in their order.
pub open spec fn run(start: AccountState, transactions: Seq<Transaction>) -> AccountState
    decreases transactions.len(),
{
    if transactions.len() == 0 {
        start
    } else {
        run(start, transactions.drop_last()).step(transactions.last())
    }
}

/// A client's account, if it has one, after a transaction addressed to the
/// client: an account takes the transaction, and a client without one gets
/// the account that the transaction opens, if it opens one.
pub open spec fn follow(account: Option<AccountState>, transaction: Transaction) -> Option<
    AccountState,
> {
    match account {
        Some(account) => Some(account.step(transaction)),
        None => opened_by(transaction),
    }
}

/// A client's account, if it has one, after a sequence of transactions
/// addressed to the client.
pub open spec fn follow_all(account: Option<AccountState>, transactions: Seq<Transaction>) -> Option<
    AccountState,
>
    decreases transactions.len(),
{
    if transactions.len() == 0 {
        account
    } else {
        follow(follow_all(account, transactions.drop_last()), transactions.last())
    }
}

/// A client's account, if it has one, in a ledger.
pub open spec fn account_of(accounts: Map<u16, AccountState>, client: u16) -> Option<AccountState> {
    if accounts.contains_key(client) {
        Some(accounts[client])
    } else {
        None
    }
}

/// The transactions of a sequence that are addressed to one client.
pub open spec fn sent_to(client: u16, transactions: Seq<Transaction>) -> Seq<Transaction> {
    transactions.filter(|transaction: Transaction| transaction.client.0 == client)
}

/// The total funds of a client, in units: available plus held, or nothing
/// for a client without an account.
pub open spec fn funds(account: Option<AccountState>) -> int {
    match account {
        Some(account) => account.total(),
        None => 0,
    }
}

/// The units that a transaction credits: the amount of a deposit that takes
/// effect, be it on an account or by opening one.
pub open spec fn credit(account: Option<AccountState>, transaction: Transaction) -> int {
    match transaction.kind {
        TransactionKind::Deposit { amount } => match account {
            Some(account) => if account.outcome(transaction) is Applied {
                amount.units()
            } else {
                0
            },
            None => if opened_by(transaction) is Some {
                amount.units()
            } else {
                0
            },
        },
        _ => 0,
    }
}

/// The units that a transaction debits: the amount of a withdrawal that
/// takes effect.
pub open spec fn debit(account: Option<AccountState>, transaction: Transaction) -> int {
    match (account, transaction.kind) {
        (Some(account), TransactionKind::Withdrawal { amount }) => if account.outcome(
            transaction,
        ) is Applied {
            amount.units()
        } else {
            0
        },
        _ => 0,
    }
}

/// The units that a transaction charges back: the amount of the disputed
/// deposit, for a chargeback that takes effect.
pub open spec fn reversal(account: Option<AccountState>, transaction: Transaction) -> int {
    match (account, transaction.kind) {
        (Some(account), TransactionKind::Chargeback) => if account.outcome(
            transaction,
        ) is Applied {
            match account.history.deposit(transaction.id.0) {
                Some(amount) => amount.units(),
                None => 0,
            }
        } else {
            0
        },
        _ => 0,
    }
}

/// The units of all deposits that take effect in a sequence of transactions.
pub open spec fn deposited(start: Option<AccountState>, transactions: Seq<Transaction>) -> int
    decreases transactions.len(),
{
    if transactions.len() == 0 {
        0
    } else {
        deposited(start, transactions.drop_last()) + credit(
            follow_all(start, transactions.drop_last()),
            transactions.last(),
        )
    }
}

/// The units of all withdrawals that take effect in a sequence of
/// transactions.
pub open spec fn withdrawn(start: Option<AccountState>, transactions: Seq<Transaction>) -> int
    decreases transactions.len(),
{
    if transactions.len() == 0 {
        0
    } else {
        withdrawn(start, transactions.drop_last()) + debit(
            follow_all(start, transactions.drop_last()),
            transactions.last(),
        )
    }
}

/// The units of all amounts charged back in a sequence of transactions.
pub open spec fn charged_back(start: Option<AccountState>, transactions: Seq<Transaction>) -> int
    decreases transactions.len(),
{
    if transactions.len() == 0 {
        0
    } else {
        charged_back(start, transactions.drop_last()) + reversal(
            follow_all(start, transactions.drop_last()),
            transactions.last(),
        )
    }
}

/// Whether every record of a history is an accepted deposit or withdrawal:
/// filed under its own id, with an amount above zero.
pub open spec fn holds_accepted_only(history: Records) -> bool {
    forall|id: u32| #[trigger]
        history.by_id.contains_key(id) ==> {
            let transaction = history.by_id[id];
            &&& transaction.id.0 == id
            &&& transaction.kind is Deposit || transaction.kind is Withdrawal
            &&& transaction.has_valid_amount()
        }
}

/// An account that exists goes through a sequence of transactions as `run`
/// says.
pub proof fn lemma_follow_is_run(account: AccountState, transactions: Seq<Transaction>)
    ensures
        follow_all(Some(account), transactions) == Some(run(account, transactions)),
    decreases transactions.len(),
{
    if transactions.len() > 0 {
        lemma_follow_is_run(account, transactions.drop_last());
    }
}

/// One transaction changes the funds of a client by what it credits, less
/// what it debits, less twice what it charges back: a chargeback takes its
/// amount from the held and from the available funds.
pub proof fn lemma_step_accounting(account: Option<AccountState>, transaction: Transaction)
    ensures
        funds(follow(account, transaction)) == funds(account) + credit(account, transaction)
            - debit(account, transaction) - 2 * reversal(account, transaction),
{
}

/// A dispute or a resolve never changes the total of an account: it only
/// moves funds between available and held.
pub proof fn lemma_dispute_and_resolve_keep_total(account: AccountState, transaction: Transaction)
    requires
        transaction.kind is Dispute || transaction.kind is Resolve,
    ensures
        account.step(transaction).total() == account.total(),
{
}

/// After any sequence of transactions the funds of a client are what they
/// were, plus the deposits and less the withdrawals that took effect, less
/// twice what was charged back.
pub proof fn lemma_accounting(start: Option<AccountState>, transactions: Seq<Transaction>)
    ensures
        funds(follow_all(start, transactions)) == funds(start) + deposited(start, transactions)
            - withdrawn(start, transactions) - 2 * charged_back(start, transactions),
    decreases transactions.len(),
{
    if transactions.len() > 0 {
        lemma_accounting(start, transactions.drop_last());
        lemma_step_accounting(follow_all(start, transactions.drop_last()), transactions.last());
    }
}

/// Conservation: as long as nothing is charged back, the funds of a client
/// after any sequence of transactions are what they were, plus the deposits
/// and less the withdrawals that took effect. For a client that starts
/// without an account they are the accepted deposits less the accepted
/// withdrawals.
pub proof fn lemma_conservation(start: Option<AccountState>, transactions: Seq<Transaction>)
    requires
        charged_back(start, transactions) == 0,
    ensures
        funds(follow_all(start, transactions)) == funds(start) + deposited(start, transactions)
            - withdrawn(start, transactions) - charged_back(start, transactions),
{
    lemma_accounting(start, transactions);
}

/// A finished dispute stays finished: once a resolve or a chargeback has
/// taken effect, a second resolve or chargeback for the same id changes
/// nothing.
pub proof fn lemma_finished_dispute_is_final(
    account: AccountState,
    first: Transaction,
    second: Transaction,
)
    requires
        first.kind is Resolve || first.kind is Chargeback,
        second.kind is Resolve || second.kind is Chargeback,
        first.id == second.id,
        account.outcome(first) is Applied,
    ensures
        account.step(first).step(second) == account.step(first),
        !(account.step(first).outcome(second) is Applied),
{
}

/// Disputing an id under which nothing is recorded, or under which a
/// withdrawal is recorded, leaves the account unchanged.
pub proof fn lemma_unknown_dispute_is_noop(account: AccountState, transaction: Transaction)
    requires
        transaction.kind is Dispute,
        match account.history.get(transaction.id.0) {
            Some(found) => found.kind is Withdrawal,
            None => true,
        },
    ensures
        account.step(transaction) == account,
        !(account.outcome(transaction) is Applied),
{
}

/// A dispute, once opened, is never forgotten.
pub proof fn lemma_disputes_are_kept(account: AccountState, transactions: Seq<Transaction>, id: u32)
    requires
        account.disputes.contains_key(id),
    ensures
        run(account, transactions).disputes.contains_key(id),
    decreases transactions.len(),
{
    if transactions.len() > 0 {
        lemma_disputes_are_kept(account, transactions.drop_last(), id);
    }
}

/// Disputing a deposit a second time leaves the account unchanged, whatever
/// became of the first dispute in between.
pub proof fn lemma_second_dispute_is_noop(
    account: AccountState,
    first: Transaction,
    between: Seq<Transaction>,
    second: Transaction,
)
    requires
        first.kind is Dispute,
        second.kind is Dispute,
        first.id == second.id,
        account.outcome(first) is Applied,
    ensures
        run(account.step(first), between).step(second) == run(account.step(first), between),
        !(run(account.step(first), between).outcome(second) is Applied),
{
    lemma_disputes_are_kept(account.step(first), between, first.id.0);
}

/// A locked account is inert: no transaction changes it.
pub proof fn lemma_locked_is_inert(account: AccountState, transaction: Transaction)
    requires
        account.locked,
    ensures
        account.step(transaction) == account,
        !(account.outcome(transaction) is Applied),
{
}

/// A locked account stays as it is through any sequence of transactions.
pub proof fn lemma_locked_stays_inert(account: AccountState, transactions: Seq<Transaction>)
    requires
        account.locked,
    ensures
        run(account, transactions) == account,
    decreases transactions.len(),
{
    if transactions.len() > 0 {
        lemma_locked_stays_inert(account, transactions.drop_last());
    }
}

/// An account is locked by a chargeback that takes effect, and by nothing
/// else.
pub proof fn lemma_only_a_chargeback_locks(account: AccountState, transaction: Transaction)
    requires
        !account.locked,
    ensures
        account.step(transaction).locked <==> transaction.kind is Chargeback && account.outcome(
            transaction,
        ) is Applied,
{
}

/// The history of an account holds accepted deposits and withdrawals only,
/// each under its own id and once in the order of arrival, and no
/// transaction changes that.
pub proof fn lemma_history_holds_accepted_only(account: AccountState, transaction: Transaction)
    requires
        holds_accepted_only(account.history),
        account.history.is_ordered(),
    ensures
        holds_accepted_only(account.step(transaction).history),
        account.step(transaction).history.is_ordered(),
{
    lemma_with_keeps_order(account.history, transaction.id.0, transaction);
}

/// The account that a first deposit opens holds that deposit and nothing
/// else: its amount is available, its record is the whole history, nothing
/// is held or disputed. Nothing but a deposit of more than zero opens one.
pub proof fn lemma_opening_deposit(transaction: Transaction)
    ensures
        match opened_by(transaction) {
            Some(account) => {
                &&& transaction.deposited() == Some(account.available)
                &&& account.total() == account.available.units()
                &&& account.total() > 0
                &&& !account.locked
                &&& account.disputes == Map::<u32, Dispute>::empty()
                &&& account.history.get(transaction.id.0) == Some(transaction)
                &&& account.history.ids == seq![transaction.id.0]
                &&& holds_accepted_only(account.history)
                &&& account.history.is_ordered()
            },
            None => !(transaction.kind is Deposit) || !transaction.has_valid_amount(),
        },
{
    match opened_by(transaction) {
        Some(account) => {
            assert(account.history.ids =~= seq![transaction.id.0]);
            lemma_with_keeps_order(Records::empty(), transaction.id.0, transaction);
        },
        None => {},
    }
}

/// Routing a transaction leaves every client but its own as it was: no
/// account appears, disappears or changes.
pub proof fn lemma_route_is_local(
    accounts: Map<u16, AccountState>,
    transaction: Transaction,
    other: u16,
)
    requires
        other != transaction.client.0,
    ensures
        account_of(route(accounts, transaction).0, other) == account_of(accounts, other),
{
}

/// A ledger is made of accounts that do not touch each other: after any
/// sequence of transactions, routed to whatever clients, the account of a
/// client is where the transactions addressed to that client alone lead
/// it, whether the client had an account before or not.
pub proof fn lemma_ledger_is_per_client(
    accounts: Map<u16, AccountState>,
    transactions: Seq<Transaction>,
    client: u16,
)
    ensures
        account_of(route_all(accounts, transactions), client) == follow_all(
            account_of(accounts, client),
            sent_to(client, transactions),
        ),
    decreases transactions.len(),
{
    reveal(Seq::filter);
    if transactions.len() > 0 {
        let front = transactions.drop_last();
        lemma_ledger_is_per_client(accounts, front, client);
        if transactions.last().client.0 == client {
            let own = sent_to(client, front).push(transactions.last());
            assert(sent_to(client, transactions) == own);
            assert(own.drop_last() == sent_to(client, front));
        } else {
            lemma_route_is_local(route_all(accounts, front), transactions.last(), client);
        }
    }
}

/// An account is never removed: a client that has one keeps one through
/// any sequence of transactions, and it is the account that `run` gives for
/// the transactions addressed to the client.
pub proof fn lemma_accounts_are_kept(
    accounts: Map<u16, AccountState>,
    transactions: Seq<Transaction>,
    client: u16,
)
    requires
        accounts.contains_key(client),
    ensures
        route_all(accounts, transactions).contains_key(client),
        route_all(accounts, transactions)[client] == run(
            accounts[client],
            sent_to(client, transactions),
        ),
{
    lemma_ledger_is_per_client(accounts, transactions, client);
    lemma_follow_is_run(accounts[client], sent_to(client, transactions));
}

} // verus!
