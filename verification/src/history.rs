//! The transactions an account has accepted, in the order they arrived.
//!
//! The records are kept in an `IndexMap` of the `indexmap` crate. The map is
//! seen as two things: the transaction stored for each id, and the ids in
//! the order in which they first arrived. What the map's methods do to the
//! two is stated, not proved, in the functions at the end of this file.

use crate::amount::Amount;
use crate::transaction::{Transaction, TransactionId};
use indexmap::IndexMap;
use std::collections::hash_map::RandomState;
use vstd::prelude::*;

verus! {

#[verifier::external_type_specification]
#[verifier::external_body]
#[verifier::reject_recursive_types(K)]
#[verifier::reject_recursive_types(V)]
#[verifier::reject_recursive_types(S)]
pub struct ExIndexMap<K, V, S>(indexmap::IndexMap<K, V, S>);

/// The value that the map holds for each of its keys.
pub uninterp spec fn stored(map: IndexMap<u32, Transaction, RandomState>) -> Map<u32, Transaction>;

/// The keys of the map in its own order: that in which they were first
/// inserted.
pub uninterp spec fn key_order(map: IndexMap<u32, Transaction, RandomState>) -> Seq<u32>;

/// What a history holds: a transaction for each id, and the ids in the order
/// in which they first arrived.
pub struct Records {
    pub by_id: Map<u32, Transaction>,
    pub ids: Seq<u32>,
}

impl Records {
    /// No records.
    pub open spec fn empty() -> Records {
        Records { by_id: Map::empty(), ids: Seq::empty() }
    }

    /// The transaction recorded under an id.
    pub open spec fn get(self, id: u32) -> Option<Transaction> {
        if self.by_id.contains_key(id) {
            Some(self.by_id[id])
        } else {
            None
        }
    }

    /// The records after `transaction` is recorded under `id`: an id that is
    /// there keeps its place and gets the new transaction, a new id goes
    /// last.
    pub open spec fn with(self, id: u32, transaction: Transaction) -> Records {
        Records {
            by_id: self.by_id.insert(id, transaction),
            ids: if self.by_id.contains_key(id) {
                self.ids
            } else {
                self.ids.push(id)
            },
        }
    }

    /// The amount of the deposit recorded under an id.
    pub open spec fn deposit(self, id: u32) -> Option<Amount> {
        match self.get(id) {
            Some(transaction) => transaction.deposited(),
            None => None,
        }
    }

    /// The record at a place in the order of arrival.
    pub open spec fn at(self, index: int) -> (TransactionId, Transaction) {
        (TransactionId(self.ids[index]), self.by_id[self.ids[index]])
    }

    /// Whether the order of arrival names every recorded id, once.
    pub open spec fn is_ordered(self) -> bool {
        &&& self.ids.no_duplicates()
        &&& forall|id: u32| self.by_id.contains_key(id) <==> self.ids.contains(id)
    }
}

/// Recording a transaction keeps the order of arrival in step with the
/// records: every recorded id stays in it, once.
pub proof fn lemma_with_keeps_order(records: Records, id: u32, transaction: Transaction)
    requires
        records.is_ordered(),
    ensures
        records.with(id, transaction).is_ordered(),
{
    let before = records.ids;
    let after = records.with(id, transaction).ids;
    if !records.by_id.contains_key(id) {
        assert forall|i: int| 0 <= i < before.len() implies before[i] != id by {
            assert(before.contains(before[i]));
        }
        assert forall|i: int, j: int| 0 <= i < after.len() && 0 <= j < after.len() && i
            != j implies after[i] != after[j] by {
            if i < before.len() && j < before.len() {
                assert(before[i] != before[j]);
            }
        }
        assert forall|other: u32|
            records.with(id, transaction).by_id.contains_key(other) <==> after.contains(
                other,
            ) by {
            if after.contains(other) && other != id {
                let i = choose|i: int| 0 <= i < after.len() && after[i] == other;
                assert(before[i] == other);
                assert(before.contains(other));
            }
            if other == id {
                assert(after[before.len() as int] == id);
            } else if records.by_id.contains_key(other) {
                assert(before.contains(other));
                let i = choose|i: int| 0 <= i < before.len() && before[i] == other;
                assert(after[i] == other);
            }
        }
    } else {
        assert(records.with(id, transaction).by_id.dom() =~= records.by_id.dom());
    }
}

/// The accepted transactions of one account, oldest first.
pub struct History {
    map: IndexMap<u32, Transaction>,
}

impl View for History {
    type V = Records;

    closed spec fn view(&self) -> Records {
        Records { by_id: stored(self.map), ids: key_order(self.map) }
    }
}

impl History {
    /// A history with nothing in it.
    pub fn new() -> (r: History)
        ensures
            r@ == Records::empty(),
    {
        History { map: map_new() }
    }

    /// Records `transaction` under `id` and hands back what was recorded
    /// under it before.
    pub fn insert(&mut self, id: TransactionId, transaction: Transaction) -> (r: Option<
        Transaction,
    >)
        ensures
            final(self)@ == old(self)@.with(id.0, transaction),
            r == old(self)@.get(id.0),
    {
        map_insert(&mut self.map, id.0, transaction)
    }

    /// The transaction recorded under `id`.
    pub fn get(&self, id: TransactionId) -> (r: Option<Transaction>)
        ensures
            r == self@.get(id.0),
    {
        map_get(&self.map, id.0)
    }

    /// Whether a transaction is recorded under `id`.
    pub fn contains_key(&self, id: TransactionId) -> (r: bool)
        ensures
            r == self@.by_id.contains_key(id.0),
    {
        map_get(&self.map, id.0).is_some()
    }

    /// The number of records.
    pub fn len(&self) -> (n: usize)
        ensures
            n == self@.ids.len(),
    {
        map_len(&self.map)
    }

    /// The record at the given place, counted from the oldest.
    pub fn get_index(&self, index: usize) -> (r: Option<(TransactionId, Transaction)>)
        ensures
            r == if index < self@.ids.len() {
                Some(self@.at(index as int))
            } else {
                None
            },
    {
        match map_get_index(&self.map, index) {
            Some((key, transaction)) => Some((TransactionId(key), transaction)),
            None => None,
        }
    }

    /// All records, oldest first.
    pub fn entries(&self) -> (r: Vec<(TransactionId, Transaction)>)
        ensures
            r@.len() == self@.ids.len(),
            forall|i: int| 0 <= i < r@.len() ==> #[trigger] r@[i] == self@.at(i),
    {
        let mut r: Vec<(TransactionId, Transaction)> = Vec::new();
        let n: usize = self.len();
        let mut i: usize = 0;
        while i < n
            invariant
                i <= n,
                n == self@.ids.len(),
                r@.len() == i,
                forall|j: int| 0 <= j < i ==> #[trigger] r@[j] == self@.at(j),
            decreases n - i,
        {
            match self.get_index(i) {
                Some(entry) => {
                    r.push(entry);
                },
                None => {},
            }
            i = i + 1;
        }
        r
    }
}

/// Calls `IndexMap::new` of `indexmap`, which makes a map without entries.
#[verifier::external_body]
fn map_new() -> (r: IndexMap<u32, Transaction>)
    ensures
        stored(r) == Records::empty().by_id,
        key_order(r) == Records::empty().ids,
{
    IndexMap::new()
}

/// Calls `IndexMap::insert` of `indexmap`. Where the key is in the map, it
/// keeps its place in the order and its value is replaced; where it is not,
/// the pair is added last. Either way the value that the key had before is
/// returned.
#[verifier::external_body]
fn map_insert(map: &mut IndexMap<u32, Transaction>, key: u32, value: Transaction) -> (r: Option<
    Transaction,
>)
    ensures
        stored(*final(map)) == stored(*old(map)).insert(key, value),
        key_order(*final(map)) == if stored(*old(map)).contains_key(key) {
            key_order(*old(map))
        } else {
            key_order(*old(map)).push(key)
        },
        r == if stored(*old(map)).contains_key(key) {
            Some(stored(*old(map))[key])
        } else {
            None
        },
{
    map.insert(key, value)
}

/// Calls `IndexMap::len` of `indexmap`, the number of pairs in the map.
#[verifier::external_body]
fn map_len(map: &IndexMap<u32, Transaction>) -> (n: usize)
    ensures
        n == key_order(*map).len(),
{
    map.len()
}

/// Calls `IndexMap::get_index` of `indexmap`, which hands out the pair at a
/// place in the map's order and nothing for a place past its end, and copies
/// the pair out.
#[verifier::external_body]
fn map_get_index(map: &IndexMap<u32, Transaction>, index: usize) -> (r: Option<(u32, Transaction)>)
    ensures
        r == if index < key_order(*map).len() {
            Some((key_order(*map)[index as int], stored(*map)[key_order(*map)[index as int]]))
        } else {
            None
        },
{
    match map.get_index(index) {
        Some((key, transaction)) => Some((*key, *transaction)),
        None => None,
    }
}

/// Calls `IndexMap::get` of `indexmap`, which finds the value stored for the
/// key, and copies that value out.
#[verifier::external_body]
fn map_get(map: &IndexMap<u32, Transaction>, key: u32) -> (r: Option<Transaction>)
    ensures
        r == if stored(*map).contains_key(key) {
            Some(stored(*map)[key])
        } else {
            None
        },
{
    match map.get(&key) {
        Some(transaction) => Some(*transaction),
        None => None,
    }
}

} // verus!
