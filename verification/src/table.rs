//! A small keyed store of balances in which an absent key stands for zero.

use vstd::prelude::*;
use crate::types::{AccountId, Balance, TokenId};

verus! {

/// Keys that executable code can compare exactly.
pub trait Key: Sized {
    /// Whether the two keys are the same value.
    fn same(&self, other: &Self) -> (r: bool)
        ensures
            r == (*self == *other),
    ;
}

impl Key for TokenId {
    fn same(&self, other: &Self) -> (r: bool) {
        *self == *other
    }
}

impl Key for AccountId {
    fn same(&self, other: &Self) -> (r: bool) {
        let mut i: usize = 0;
        while i < 32
            invariant
                i <= 32,
                forall|j: int| 0 <= j < i ==> self.bytes[j] == other.bytes[j],
            decreases 32 - i,
        {
            if self.bytes[i] != other.bytes[i] {
                return false;
            }
            i = i + 1;
        }
        assert(self.bytes =~= other.bytes);
        true
    }
}

impl Key for (AccountId, TokenId) {
    fn same(&self, other: &Self) -> (r: bool) {
        self.0.same(&other.0) && self.1 == other.1
    }
}

/// The balance that `amounts` holds under `key`: zero where it holds none.
pub open spec fn amount_at<K>(amounts: Map<K, Balance>, key: K) -> Balance {
    if amounts.dom().contains(key) {
        amounts[key]
    } else {
        0
    }
}

/// No key is listed twice.
pub open spec fn distinct_keys<K>(entries: Seq<(K, Balance)>) -> bool {
    forall|i: int, j: int|
        #![trigger entries[i], entries[j]]
        0 <= i < j < entries.len() ==> entries[i].0 != entries[j].0
}

/// `key` is listed.
pub open spec fn lists_key<K>(entries: Seq<(K, Balance)>, key: K) -> bool {
    exists|i: int| 0 <= i < entries.len() && (#[trigger] entries[i]).0 == key
}

/// Where `key` is listed.
pub open spec fn slot_of<K>(entries: Seq<(K, Balance)>, key: K) -> int {
    choose|i: int| 0 <= i < entries.len() && (#[trigger] entries[i]).0 == key
}

/// The listed balances by key, for a list without repeated keys.
pub open spec fn map_of<K>(entries: Seq<(K, Balance)>) -> Map<K, Balance> {
    Map::new(|key: K| lists_key(entries, key), |key: K| entries[slot_of(entries, key)].1)
}

/// The sum of the listed balances.
pub open spec fn sum_of<K>(entries: Seq<(K, Balance)>) -> nat
    decreases entries.len(),
{
    if entries.len() == 0 {
        0
    } else {
        sum_of(entries.drop_last()) + entries.last().1 as nat
    }
}

proof fn lemma_sum_push<K>(entries: Seq<(K, Balance)>, entry: (K, Balance))
    ensures
        sum_of(entries.push(entry)) == sum_of(entries) + entry.1,
{
    assert(entries.push(entry).drop_last() =~= entries);
}

proof fn lemma_sum_update<K>(entries: Seq<(K, Balance)>, i: int, entry: (K, Balance))
    requires
        0 <= i < entries.len(),
    ensures
        sum_of(entries.update(i, entry)) == sum_of(entries) - entries[i].1 + entry.1,
    decreases entries.len(),
{
    let updated = entries.update(i, entry);
    if i == entries.len() - 1 {
        assert(updated.drop_last() =~= entries.drop_last());
    } else {
        lemma_sum_update(entries.drop_last(), i, entry);
        assert(updated.drop_last() =~= entries.drop_last().update(i, entry));
    }
}

proof fn lemma_sum_covers_member<K>(entries: Seq<(K, Balance)>, i: int)
    requires
        0 <= i < entries.len(),
    ensures
        entries[i].1 <= sum_of(entries),
    decreases entries.len(),
{
    if i < entries.len() - 1 {
        lemma_sum_covers_member(entries.drop_last(), i);
    }
}

/// No listed balance exceeds the sum of all of them.
pub proof fn lemma_listed_amount_within_sum<K>(entries: Seq<(K, Balance)>, key: K)
    ensures
        amount_at(map_of(entries), key) <= sum_of(entries),
{
    if lists_key(entries, key) {
        lemma_sum_covers_member(entries, slot_of(entries, key));
    }
}

proof fn lemma_sum_covers_prefix<K>(entries: Seq<(K, Balance)>, n: int)
    requires
        0 <= n <= entries.len(),
    ensures
        sum_of(entries.take(n)) <= sum_of(entries),
    decreases entries.len(),
{
    if n == entries.len() {
        assert(entries.take(n) =~= entries);
    } else {
        lemma_sum_covers_prefix(entries.drop_last(), n);
        assert(entries.drop_last().take(n) =~= entries.take(n));
    }
}

/// In a list without repeated keys, a key is listed where it is found.
proof fn lemma_slot_of_listed<K>(entries: Seq<(K, Balance)>, i: int)
    requires
        distinct_keys(entries),
        0 <= i < entries.len(),
    ensures
        lists_key(entries, entries[i].0),
        slot_of(entries, entries[i].0) == i,
{
    let s = slot_of(entries, entries[i].0);
    if s < i {
        assert(entries[s].0 != entries[i].0);
    } else if i < s {
        assert(entries[i].0 != entries[s].0);
    }
}

/// Replacing the balance listed at `i` writes it under that entry's key.
proof fn lemma_map_of_update<K>(entries: Seq<(K, Balance)>, i: int, value: Balance)
    requires
        distinct_keys(entries),
        0 <= i < entries.len(),
    ensures
        distinct_keys(entries.update(i, (entries[i].0, value))),
        map_of(entries.update(i, (entries[i].0, value))) == map_of(entries).insert(
            entries[i].0,
            value,
        ),
{
    let key = entries[i].0;
    let updated = entries.update(i, (key, value));
    assert forall|a: int, b: int| 0 <= a < b < updated.len() implies updated[a].0
        != updated[b].0 by {
        assert(entries[a].0 != entries[b].0);
    }
    assert forall|k: K| lists_key(updated, k) <==> lists_key(entries, k) by {
        if lists_key(updated, k) {
            assert(entries[slot_of(updated, k)].0 == k);
        }
        if lists_key(entries, k) {
            assert(updated[slot_of(entries, k)].0 == k);
        }
    }
    assert forall|k: K| lists_key(entries, k) implies updated[slot_of(updated, k)].1 == (if k
        == key {
        value
    } else {
        entries[slot_of(entries, k)].1
    }) by {
        let s = slot_of(entries, k);
        lemma_slot_of_listed(entries, s);
        lemma_slot_of_listed(updated, s);
    }
    assert(map_of(updated) =~= map_of(entries).insert(key, value));
}

/// Listing a new key with a balance writes the balance under that key.
proof fn lemma_map_of_push<K>(entries: Seq<(K, Balance)>, key: K, value: Balance)
    requires
        distinct_keys(entries),
        !lists_key(entries, key),
    ensures
        distinct_keys(entries.push((key, value))),
        map_of(entries.push((key, value))) == map_of(entries).insert(key, value),
{
    let pushed = entries.push((key, value));
    let last = entries.len() as int;
    assert forall|a: int, b: int| 0 <= a < b < pushed.len() implies pushed[a].0
        != pushed[b].0 by {
        if b == last {
            assert(entries[a].0 != key);
        } else {
            assert(entries[a].0 != entries[b].0);
        }
    }
    assert forall|k: K| lists_key(pushed, k) <==> (k == key || lists_key(entries, k)) by {
        if lists_key(pushed, k) {
            let s = slot_of(pushed, k);
            if s < last {
                assert(entries[s].0 == k);
            }
        }
        if lists_key(entries, k) {
            assert(pushed[slot_of(entries, k)].0 == k);
        }
        assert(pushed[last].0 == key);
    }
    assert forall|k: K| lists_key(pushed, k) implies pushed[slot_of(pushed, k)].1 == (if k
        == key {
        value
    } else {
        entries[slot_of(entries, k)].1
    }) by {
        if k == key {
            lemma_slot_of_listed(pushed, last);
        } else {
            let s = slot_of(entries, k);
            lemma_slot_of_listed(entries, s);
            lemma_slot_of_listed(pushed, s);
        }
    }
    assert(map_of(pushed) =~= map_of(entries).insert(key, value));
}

/// Balances by key. A key that was never written reads as zero; a key that
/// was written stays, even when its balance returns to zero.
pub struct Table<K> {
    entries: Vec<(K, Balance)>,
}

impl<K: Key> View for Table<K> {
    type V = Map<K, Balance>;

    /// The balances that were written, by key.
    closed spec fn view(&self) -> Map<K, Balance> {
        map_of(self.entries@)
    }
}

impl<K: Key> Table<K> {
    /// Every key is held once.
    pub closed spec fn wf(&self) -> bool {
        distinct_keys(self.entries@)
    }

    /// The balance under `key`, zero where none was written.
    pub open spec fn amount(&self, key: K) -> Balance {
        amount_at(self@, key)
    }

    /// The sum of all balances held.
    pub closed spec fn total(&self) -> nat {
        sum_of(self.entries@)
    }

    /// No single balance exceeds the sum of all of them.
    pub proof fn lemma_amount_within_total(&self, key: K)
        requires
            self.wf(),
        ensures
            self.amount(key) <= self.total(),
    {
        lemma_listed_amount_within_sum(self.entries@, key);
    }

    /// An empty table.
    pub fn new() -> (table: Self)
        ensures
            table.wf(),
            table@ == Map::<K, Balance>::empty(),
            table.total() == 0,
    {
        Table { entries: Vec::new() }
    }

    /// The table that holds what `entries` lists, or `None` where a key is
    /// listed twice.
    pub fn from_entries(entries: Vec<(K, Balance)>) -> (res: Option<Self>)
        ensures
            res is Some <==> distinct_keys(entries@),
            res matches Some(table) ==> table.wf() && table@ == map_of(entries@) && table.total()
                == sum_of(entries@),
    {
        let mut i: usize = 0;
        while i < entries.len()
            invariant
                i <= entries@.len(),
                forall|a: int, b: int|
                    #![trigger entries@[a], entries@[b]]
                    0 <= a < b < i ==> entries@[a].0 != entries@[b].0,
            decreases entries@.len() - i,
        {
            let mut j: usize = 0;
            while j < i
                invariant
                    j <= i < entries@.len(),
                    forall|a: int| 0 <= a < j ==> (#[trigger] entries@[a]).0 != entries@[i as int].0,
                decreases i - j,
            {
                if entries[j].0.same(&entries[i].0) {
                    return None;
                }
                j = j + 1;
            }
            i = i + 1;
        }
        Some(Table { entries })
    }

    /// Takes the table apart into the list of what it holds.
    pub fn into_entries(self) -> (entries: Vec<(K, Balance)>)
        requires
            self.wf(),
        ensures
            distinct_keys(entries@),
            map_of(entries@) == self@,
            sum_of(entries@) == self.total(),
    {
        self.entries
    }

    /// The sum of all balances held, or `None` where it exceeds the width of
    /// a balance.
    pub fn checked_total(&self) -> (res: Option<Balance>)
        ensures
            match res {
                Some(sum) => sum == self.total(),
                None => self.total() > Balance::MAX,
            },
    {
        let mut sum: Balance = 0;
        let mut i: usize = 0;
        while i < self.entries.len()
            invariant
                i <= self.entries@.len(),
                sum == sum_of(self.entries@.take(i as int)),
            decreases self.entries@.len() - i,
        {
            proof {
                assert(self.entries@.take(i + 1).drop_last() =~= self.entries@.take(i as int));
                lemma_sum_covers_prefix(self.entries@, i + 1);
            }
            sum = match sum.checked_add(self.entries[i].1) {
                Some(next) => next,
                None => {
                    return None;
                },
            };
            i = i + 1;
        }
        assert(self.entries@.take(i as int) =~= self.entries@);
        Some(sum)
    }

    fn find(&self, key: &K) -> (found: Option<usize>)
        requires
            self.wf(),
        ensures
            match found {
                Some(i) => i < self.entries@.len() && self.entries@[i as int].0 == *key && slot_of(
                    self.entries@,
                    *key,
                ) == i,
                None => !lists_key(self.entries@, *key),
            },
    {
        let mut i: usize = 0;
        while i < self.entries.len()
            invariant
                self.wf(),
                i <= self.entries@.len(),
                forall|j: int| 0 <= j < i ==> (#[trigger] self.entries@[j]).0 != *key,
            decreases self.entries@.len() - i,
        {
            if self.entries[i].0.same(key) {
                return Some(i);
            }
            i = i + 1;
        }
        None
    }

    /// Reads the balance under `key`.
    pub fn get(&self, key: &K) -> (amount: Balance)
        requires
            self.wf(),
        ensures
            amount == self.amount(*key),
    {
        match self.find(key) {
            Some(i) => self.entries[i].1,
            None => 0,
        }
    }

    /// Writes `value` under `key`, replacing what was there.
    pub fn set(&mut self, key: K, value: Balance)
        requires
            old(self).wf(),
        ensures
            final(self).wf(),
            final(self)@ == old(self)@.insert(key, value),
            final(self).total() == old(self).total() - old(self).amount(key) + value,
    {
        match self.find(&key) {
            Some(i) => {
                proof {
                    lemma_sum_update(self.entries@, i as int, (key, value));
                    lemma_map_of_update(self.entries@, i as int, value);
                }
                self.entries.set(i, (key, value));
            },
            None => {
                proof {
                    lemma_sum_push(self.entries@, (key, value));
                    lemma_map_of_push(self.entries@, key, value);
                }
                self.entries.push((key, value));
            },
        }
    }
}

} // verus!
