//! The column store behind the VM database.
//!
//! Contract state lives in one column: each entry carries a contract id,
//! a 256-bit slot key and a 256-bit value, and the column is kept sorted
//! by the physical key `contract ‖ slot` (contract id first, slot key
//! second, both big-endian). Absence of an entry is the canonical
//! "uninitialized" slot, distinct from every concrete value. Block
//! metadata (time and id per height) lives beside it.
//!
//! The mathematical content of the column is the partial function
//! [`lookup`] from physical keys to values; every operation is specified
//! against it.

use crate::u256::{lemma_value_bound, lemma_value_order, pow256, U256};
use vstd::pervasive::VecAdditionalExecFns;
use vstd::prelude::*;

verus! {

/// The physical position of one contract slot: the contract id is the
/// scan prefix, the slot key the position under it.
pub open spec fn slot_key(contract: nat, key: nat) -> nat {
    contract * pow256() + key
}

/// One record of the contract-state column.
#[derive(Clone, Copy, PartialEq, Eq, Structural, Debug)]
pub struct StorageEntry {
    pub contract: U256,
    pub key: U256,
    pub value: U256,
}

/// The physical key of an entry.
pub open spec fn entry_key(e: StorageEntry) -> nat {
    slot_key(e.contract.value(), e.key.value())
}

/// The column ascends strictly by physical key.
pub open spec fn entries_sorted(s: Seq<StorageEntry>) -> bool {
    forall|i: int, j: int| 0 <= i < j < s.len() ==> entry_key(s[i]) < entry_key(s[j])
}

/// No two entries share a physical key.
pub open spec fn distinct_keys(s: Seq<StorageEntry>) -> bool {
    forall|i: int, j: int| 0 <= i < j < s.len() ==> entry_key(s[i]) != entry_key(s[j])
}

/// The contents of the column as a partial function from physical keys
/// to values; later entries win, which is immaterial once keys are
/// distinct.
pub open spec fn lookup(s: Seq<StorageEntry>, m: nat) -> Option<U256>
    decreases s.len(),
{
    if s.len() == 0 {
        None
    } else if entry_key(s.last()) == m {
        Some(s.last().value)
    } else {
        lookup(s.drop_last(), m)
    }
}

/// Recorded metadata of one block: its height, timestamp and id.
#[derive(Clone, Copy, PartialEq, Eq, Structural, Debug)]
pub struct BlockMeta {
    pub height: u32,
    pub time: u64,
    pub id: U256,
}

/// Each height is recorded at most once.
pub open spec fn blocks_unique(s: Seq<BlockMeta>) -> bool {
    forall|i: int, j: int| 0 <= i < j < s.len() ==> s[i].height != s[j].height
}

/// The block record at a height, if any.
pub open spec fn block_lookup(s: Seq<BlockMeta>, h: u32) -> Option<BlockMeta>
    decreases s.len(),
{
    if s.len() == 0 {
        None
    } else if s.last().height == h {
        Some(s.last())
    } else {
        block_lookup(s.drop_last(), h)
    }
}

/// Physical keys order lexicographically by (contract, slot) pair, and
/// are injective in it.
pub proof fn lemma_slot_key_order(c1: nat, k1: nat, c2: nat, k2: nat)
    requires
        k1 < pow256(),
        k2 < pow256(),
    ensures
        (slot_key(c1, k1) < slot_key(c2, k2)) <==> (c1 < c2 || (c1 == c2 && k1 < k2)),
        (slot_key(c1, k1) == slot_key(c2, k2)) <==> (c1 == c2 && k1 == k2),
{
    if c1 < c2 {
        assert(c1 * pow256() + pow256() <= c2 * pow256()) by {
            vstd::arithmetic::mul::lemma_mul_inequality(c1 as int + 1, c2 as int, pow256() as int);
        }
    }
    if c2 < c1 {
        assert(c2 * pow256() + pow256() <= c1 * pow256()) by {
            vstd::arithmetic::mul::lemma_mul_inequality(c2 as int + 1, c1 as int, pow256() as int);
        }
    }
}

/// A strictly ascending column has distinct keys.
pub proof fn lemma_sorted_distinct(s: Seq<StorageEntry>)
    requires
        entries_sorted(s),
    ensures
        distinct_keys(s),
{
}

/// An entry in the column is found by `lookup` under its own key.
pub proof fn lemma_lookup_present(s: Seq<StorageEntry>, i: int)
    requires
        distinct_keys(s),
        0 <= i < s.len(),
    ensures
        lookup(s, entry_key(s[i])) == Some(s[i].value),
    decreases s.len(),
{
    if i < s.len() - 1 {
        assert(distinct_keys(s.drop_last())) by {
            assert forall|a: int, b: int| 0 <= a < b < s.drop_last().len() implies entry_key(
                s.drop_last()[a],
            ) != entry_key(s.drop_last()[b]) by {
                assert(s.drop_last()[a] == s[a]);
                assert(s.drop_last()[b] == s[b]);
            }
        }
        assert(s.drop_last()[i] == s[i]);
        lemma_lookup_present(s.drop_last(), i);
    }
}

/// A key under which no entry stands is unmapped.
pub proof fn lemma_lookup_absent(s: Seq<StorageEntry>, m: nat)
    requires
        forall|i: int| 0 <= i < s.len() ==> entry_key(s[i]) != m,
    ensures
        lookup(s, m) is None,
    decreases s.len(),
{
    if s.len() > 0 {
        assert(entry_key(s.last()) != m);
        assert(forall|i: int|
            0 <= i < s.drop_last().len() ==> entry_key(#[trigger] s.drop_last()[i]) != m);
        lemma_lookup_absent(s.drop_last(), m);
    }
}

/// Appending an entry maps its key to its value and nothing else.
pub proof fn lemma_lookup_push(s: Seq<StorageEntry>, e: StorageEntry)
    ensures
        forall|m: nat|
            lookup(s.push(e), m) == if m == entry_key(e) {
                Some(e.value)
            } else {
                lookup(s, m)
            },
{
    assert forall|m: nat|
        lookup(s.push(e), m) == (if m == entry_key(e) {
            Some(e.value)
        } else {
            lookup(s, m)
        }) by {
        assert(s.push(e).drop_last() =~= s);
        assert(s.push(e).last() == e);
    }
}

/// Inserting an entry under a fresh key maps that key and no other.
pub proof fn lemma_lookup_insert_at(s: Seq<StorageEntry>, idx: int, e: StorageEntry)
    requires
        0 <= idx <= s.len(),
        forall|i: int| 0 <= i < s.len() ==> entry_key(s[i]) != entry_key(e),
    ensures
        forall|m: nat|
            lookup(s.insert(idx, e), m) == if m == entry_key(e) {
                Some(e.value)
            } else {
                lookup(s, m)
            },
    decreases s.len(),
{
    let t = s.insert(idx, e);
    if idx == s.len() {
        assert(t =~= s.push(e));
        lemma_lookup_push(s, e);
    } else {
        assert(t.last() == s.last());
        assert(t.drop_last() =~= s.drop_last().insert(idx, e));
        assert(forall|i: int|
            0 <= i < s.drop_last().len() ==> entry_key(#[trigger] s.drop_last()[i]) != entry_key(
                e,
            ));
        lemma_lookup_insert_at(s.drop_last(), idx, e);
        assert forall|m: nat|
            lookup(t, m) == (if m == entry_key(e) {
                Some(e.value)
            } else {
                lookup(s, m)
            }) by {
            assert(entry_key(s.last()) != entry_key(e));
            assert(lookup(t.drop_last(), m) == lookup(s.drop_last().insert(idx, e), m));
        }
    }
}

/// Overwriting the entry at one position remaps exactly its key.
pub proof fn lemma_lookup_update_at(s: Seq<StorageEntry>, idx: int, e: StorageEntry)
    requires
        0 <= idx < s.len(),
        entry_key(s[idx]) == entry_key(e),
        distinct_keys(s),
    ensures
        forall|m: nat|
            lookup(s.update(idx, e), m) == if m == entry_key(e) {
                Some(e.value)
            } else {
                lookup(s, m)
            },
    decreases s.len(),
{
    let t = s.update(idx, e);
    if idx == s.len() - 1 {
        assert(t.drop_last() =~= s.drop_last());
        assert(t.last() == e);
    } else {
        assert(t.last() == s.last());
        assert(t.drop_last() =~= s.drop_last().update(idx, e));
        assert(distinct_keys(s.drop_last())) by {
            assert forall|a: int, b: int| 0 <= a < b < s.drop_last().len() implies entry_key(
                s.drop_last()[a],
            ) != entry_key(s.drop_last()[b]) by {
                assert(s.drop_last()[a] == s[a]);
                assert(s.drop_last()[b] == s[b]);
            }
        }
        assert(s.drop_last()[idx] == s[idx]);
        lemma_lookup_update_at(s.drop_last(), idx, e);
        assert forall|m: nat|
            lookup(t, m) == (if m == entry_key(e) {
                Some(e.value)
            } else {
                lookup(s, m)
            }) by {
            assert(entry_key(s.last()) != entry_key(e));
            assert(lookup(t.drop_last(), m) == lookup(s.drop_last().update(idx, e), m));
        }
    }
}

/// Removing the entry at one position unmaps exactly its key.
pub proof fn lemma_lookup_remove_at(s: Seq<StorageEntry>, idx: int)
    requires
        0 <= idx < s.len(),
        distinct_keys(s),
    ensures
        forall|m: nat|
            lookup(s.remove(idx), m) == if m == entry_key(s[idx]) {
                None
            } else {
                lookup(s, m)
            },
    decreases s.len(),
{
    let t = s.remove(idx);
    if idx == s.len() - 1 {
        assert(t =~= s.drop_last());
        assert forall|m: nat|
            lookup(t, m) == (if m == entry_key(s[idx]) {
                None::<U256>
            } else {
                lookup(s, m)
            }) by {
            if m == entry_key(s[idx]) {
                assert(forall|i: int|
                    0 <= i < s.drop_last().len() ==> entry_key(#[trigger] s.drop_last()[i]) != m);
                lemma_lookup_absent(s.drop_last(), m);
            }
        }
    } else {
        assert(t.last() == s.last());
        assert(t.drop_last() =~= s.drop_last().remove(idx));
        assert(distinct_keys(s.drop_last())) by {
            assert forall|a: int, b: int| 0 <= a < b < s.drop_last().len() implies entry_key(
                s.drop_last()[a],
            ) != entry_key(s.drop_last()[b]) by {
                assert(s.drop_last()[a] == s[a]);
                assert(s.drop_last()[b] == s[b]);
            }
        }
        assert(s.drop_last()[idx] == s[idx]);
        lemma_lookup_remove_at(s.drop_last(), idx);
        assert forall|m: nat|
            lookup(t, m) == (if m == entry_key(s[idx]) {
                None::<U256>
            } else {
                lookup(s, m)
            }) by {
            assert(entry_key(s.last()) != entry_key(s[idx]));
            assert(lookup(t.drop_last(), m) == lookup(s.drop_last().remove(idx), m));
        }
    }
}

/// Inserting between the keys below and the keys above keeps the column
/// sorted.
pub proof fn lemma_sorted_insert_at(s: Seq<StorageEntry>, idx: int, e: StorageEntry)
    requires
        entries_sorted(s),
        0 <= idx <= s.len(),
        forall|i: int| 0 <= i < idx ==> entry_key(s[i]) < entry_key(e),
        forall|i: int| idx <= i < s.len() ==> entry_key(s[i]) > entry_key(e),
    ensures
        entries_sorted(s.insert(idx, e)),
{
    let t = s.insert(idx, e);
    assert forall|i: int, j: int| 0 <= i < j < t.len() implies entry_key(t[i]) < entry_key(
        t[j],
    ) by {
        if j < idx {
            assert(t[i] == s[i] && t[j] == s[j]);
        } else if j == idx {
            assert(t[i] == s[i]);
        } else if i < idx {
            assert(t[i] == s[i] && t[j] == s[j - 1]);
        } else if i == idx {
            assert(t[j] == s[j - 1]);
        } else {
            assert(t[i] == s[i - 1] && t[j] == s[j - 1]);
        }
    }
}

/// Overwriting a value in place, key unchanged, keeps the column sorted.
pub proof fn lemma_sorted_update_at(s: Seq<StorageEntry>, idx: int, e: StorageEntry)
    requires
        entries_sorted(s),
        0 <= idx < s.len(),
        entry_key(s[idx]) == entry_key(e),
    ensures
        entries_sorted(s.update(idx, e)),
{
    let t = s.update(idx, e);
    assert forall|i: int, j: int| 0 <= i < j < t.len() implies entry_key(t[i]) < entry_key(
        t[j],
    ) by {
        assert(entry_key(s[i]) < entry_key(s[j]));
    }
}

/// Dropping an entry keeps the column sorted.
pub proof fn lemma_sorted_remove_at(s: Seq<StorageEntry>, idx: int)
    requires
        entries_sorted(s),
        0 <= idx < s.len(),
    ensures
        entries_sorted(s.remove(idx)),
{
    let t = s.remove(idx);
    assert forall|i: int, j: int| 0 <= i < j < t.len() implies entry_key(t[i]) < entry_key(
        t[j],
    ) by {
        if j < idx {
            assert(t[i] == s[i] && t[j] == s[j]);
        } else if i < idx {
            assert(t[i] == s[i] && t[j] == s[j + 1]);
        } else {
            assert(t[i] == s[i + 1] && t[j] == s[j + 1]);
        }
    }
}

/// A recorded height is found by `block_lookup`.
pub proof fn lemma_block_lookup_some(s: Seq<BlockMeta>, i: int)
    requires
        0 <= i < s.len(),
    ensures
        block_lookup(s, s[i].height) is Some,
    decreases s.len(),
{
    if s.last().height != s[i].height {
        assert(s.drop_last()[i] == s[i]);
        lemma_block_lookup_some(s.drop_last(), i);
    }
}

/// A block record is found under its own height, exactly.
pub proof fn lemma_block_lookup_present(s: Seq<BlockMeta>, i: int)
    requires
        blocks_unique(s),
        0 <= i < s.len(),
    ensures
        block_lookup(s, s[i].height) == Some(s[i]),
    decreases s.len(),
{
    if i < s.len() - 1 {
        assert(blocks_unique(s.drop_last())) by {
            assert forall|a: int, b: int| 0 <= a < b < s.drop_last().len() implies s.drop_last()[a].height
                != s.drop_last()[b].height by {
                assert(s.drop_last()[a] == s[a]);
                assert(s.drop_last()[b] == s[b]);
            }
        }
        assert(s.drop_last()[i] == s[i]);
        lemma_block_lookup_present(s.drop_last(), i);
    }
}

/// A height under which no block is recorded is unmapped.
pub proof fn lemma_block_lookup_absent(s: Seq<BlockMeta>, h: u32)
    requires
        forall|i: int| 0 <= i < s.len() ==> s[i].height != h,
    ensures
        block_lookup(s, h) is None,
    decreases s.len(),
{
    if s.len() > 0 {
        assert(forall|i: int| 0 <= i < s.drop_last().len() ==> (#[trigger] s.drop_last()[i]).height != h);
        lemma_block_lookup_absent(s.drop_last(), h);
    }
}

/// Strict order on physical keys, computed on the word level.
pub fn slot_key_lt(c1: &U256, k1: &U256, c2: &U256, k2: &U256) -> (r: bool)
    ensures
        r == (slot_key(c1.value(), k1.value()) < slot_key(c2.value(), k2.value())),
{
    proof {
        lemma_value_bound(*k1);
        lemma_value_bound(*k2);
        lemma_slot_key_order(c1.value(), k1.value(), c2.value(), k2.value());
    }
    if c1.lt(c2) {
        true
    } else if c2.lt(c1) {
        false
    } else {
        k1.lt(k2)
    }
}

/// The store: the sorted contract-state column and the block records.
pub struct Database {
    pub state: Vec<StorageEntry>,
    pub blocks: Vec<BlockMeta>,
}

impl Database {
    /// Well-formedness: the column is strictly ascending and heights are
    /// unique.
    pub open spec fn inv(self) -> bool {
        entries_sorted(self.state@) && blocks_unique(self.blocks@)
    }

    /// An empty store: every slot uninitialized, no block recorded.
    pub fn new() -> (r: Database)
        ensures
            r.inv(),
            r.state@.len() == 0,
            r.blocks@.len() == 0,
            forall|m: nat| lookup(r.state@, m) is None,
            forall|h: u32| block_lookup(r.blocks@, h) is None,
    {
        Database { state: Vec::new(), blocks: Vec::new() }
    }

    /// The index of the first entry at or past `contract ‖ key`; the
    /// column is split there.
    pub(crate) fn find_lower(&self, contract: &U256, key: &U256) -> (idx: usize)
        requires
            self.inv(),
        ensures
            idx <= self.state@.len(),
            forall|i: int|
                0 <= i < idx ==> entry_key(self.state@[i]) < slot_key(
                    contract.value(),
                    key.value(),
                ),
            forall|i: int|
                idx <= i < self.state@.len() ==> entry_key(self.state@[i]) >= slot_key(
                    contract.value(),
                    key.value(),
                ),
    {
        let ghost target = slot_key(contract.value(), key.value());
        let n = self.state.len();
        let mut idx: usize = 0;
        while idx < n
            invariant
                self.inv(),
                n == self.state@.len(),
                idx <= n,
                target == slot_key(contract.value(), key.value()),
                forall|i: int| 0 <= i < idx ==> entry_key(self.state@[i]) < target,
            decreases n - idx,
        {
            let e = self.state[idx];
            if !slot_key_lt(&e.contract, &e.key, contract, key) {
                proof {
                    assert forall|i: int| idx <= i < self.state@.len() implies entry_key(
                        self.state@[i],
                    ) >= target by {
                        if i > idx {
                            assert(entry_key(self.state@[idx as int]) < entry_key(
                                self.state@[i],
                            ));
                        }
                    }
                }
                return idx;
            }
            idx += 1;
        }
        idx
    }

    /// The value of one slot, or `None` where it is uninitialized.
    pub fn state_get(&self, contract: &U256, key: &U256) -> (r: Option<U256>)
        requires
            self.inv(),
        ensures
            r == lookup(self.state@, slot_key(contract.value(), key.value())),
    {
        let ghost target = slot_key(contract.value(), key.value());
        let idx = self.find_lower(contract, key);
        if idx < self.state.len() {
            let e = self.state[idx];
            if e.contract == *contract && e.key == *key {
                proof {
                    lemma_sorted_distinct(self.state@);
                    lemma_lookup_present(self.state@, idx as int);
                }
                return Some(e.value);
            }
        }
        proof {
            self.lemma_target_absent(idx as int, *contract, *key);
            lemma_lookup_absent(self.state@, target);
        }
        None
    }

    /// After `find_lower` stopped at `idx` and the entry there (if any)
    /// is not the sought slot, no entry carries the sought key.
    pub(crate) proof fn lemma_target_absent(&self, idx: int, contract: U256, key: U256)
        requires
            self.inv(),
            0 <= idx <= self.state@.len(),
            forall|i: int|
                0 <= i < idx ==> entry_key(self.state@[i]) < slot_key(
                    contract.value(),
                    key.value(),
                ),
            forall|i: int|
                idx <= i < self.state@.len() ==> entry_key(self.state@[i]) >= slot_key(
                    contract.value(),
                    key.value(),
                ),
            idx < self.state@.len() ==> !(self.state@[idx].contract == contract
                && self.state@[idx].key == key),
        ensures
            forall|i: int|
                0 <= i < self.state@.len() ==> entry_key(self.state@[i]) != slot_key(
                    contract.value(),
                    key.value(),
                ),
    {
        let target = slot_key(contract.value(), key.value());
        assert forall|i: int| 0 <= i < self.state@.len() implies entry_key(self.state@[i])
            != target by {
            if i >= idx {
                let e = self.state@[i];
                if entry_key(e) == target {
                    lemma_value_bound(e.key);
                    lemma_value_bound(key);
                    lemma_slot_key_order(e.contract.value(), e.key.value(), contract.value(), key.value());
                    lemma_value_order(e.contract, contract);
                    lemma_value_order(e.key, key);
                    if i > idx {
                        assert(entry_key(self.state@[idx]) < entry_key(self.state@[i]));
                    }
                }
            }
        }
    }

    /// Whether one slot is initialized.
    pub fn contains_key(&self, contract: &U256, key: &U256) -> (r: bool)
        requires
            self.inv(),
        ensures
            r == (lookup(self.state@, slot_key(contract.value(), key.value())) is Some),
    {
        self.state_get(contract, key).is_some()
    }

    /// Write one slot; returns the prior value of that slot.
    pub fn state_insert(&mut self, contract: &U256, key: &U256, value: U256) -> (prior: Option<
        U256,
    >)
        requires
            old(self).inv(),
        ensures
            final(self).inv(),
            prior == lookup(old(self).state@, slot_key(contract.value(), key.value())),
            forall|m: nat|
                lookup(final(self).state@, m) == if m == slot_key(
                    contract.value(),
                    key.value(),
                ) {
                    Some(value)
                } else {
                    lookup(old(self).state@, m)
                },
            final(self).blocks@ == old(self).blocks@,
    {
        let ghost target = slot_key(contract.value(), key.value());
        let ghost s0 = self.state@;
        let idx = self.find_lower(contract, key);
        if idx < self.state.len() {
            let e = self.state[idx];
            if e.contract == *contract && e.key == *key {
                let prior = e.value;
                let e2 = StorageEntry { contract: e.contract, key: e.key, value };
                self.state.set(idx, e2);
                proof {
                    lemma_sorted_distinct(s0);
                    lemma_lookup_present(s0, idx as int);
                    lemma_lookup_update_at(s0, idx as int, e2);
                    lemma_sorted_update_at(s0, idx as int, e2);
                }
                return Some(prior);
            }
        }
        let e = StorageEntry { contract: *contract, key: *key, value };
        proof {
            self.lemma_target_absent(idx as int, *contract, *key);
            lemma_lookup_absent(s0, target);
            lemma_lookup_insert_at(s0, idx as int, e);
            lemma_sorted_insert_at(s0, idx as int, e);
        }
        self.state.insert(idx, e);
        None
    }

    /// Delete one slot; returns the prior value of that slot. Deleting
    /// an uninitialized slot is not an error.
    pub fn state_remove(&mut self, contract: &U256, key: &U256) -> (prior: Option<U256>)
        requires
            old(self).inv(),
        ensures
            final(self).inv(),
            prior == lookup(old(self).state@, slot_key(contract.value(), key.value())),
            forall|m: nat|
                lookup(final(self).state@, m) == if m == slot_key(
                    contract.value(),
                    key.value(),
                ) {
                    None::<U256>
                } else {
                    lookup(old(self).state@, m)
                },
            final(self).blocks@ == old(self).blocks@,
    {
        let ghost target = slot_key(contract.value(), key.value());
        let ghost s0 = self.state@;
        let idx = self.find_lower(contract, key);
        if idx < self.state.len() {
            let e = self.state[idx];
            if e.contract == *contract && e.key == *key {
                let _ = self.state.remove(idx);
                proof {
                    lemma_sorted_distinct(s0);
                    lemma_lookup_present(s0, idx as int);
                    lemma_lookup_remove_at(s0, idx as int);
                    lemma_sorted_remove_at(s0, idx as int);
                }
                return Some(e.value);
            }
        }
        proof {
            self.lemma_target_absent(idx as int, *contract, *key);
            lemma_lookup_absent(s0, target);
        }
        None
    }

    /// The recorded time of the block at a height.
    pub fn block_time(&self, height: u32) -> (r: Option<u64>)
        requires
            self.inv(),
        ensures
            r == match block_lookup(self.blocks@, height) {
                Some(b) => Some(b.time),
                None => None::<u64>,
            },
    {
        let n = self.blocks.len();
        let mut i: usize = 0;
        while i < n
            invariant
                self.inv(),
                n == self.blocks@.len(),
                i <= n,
                forall|j: int| 0 <= j < i ==> (#[trigger] self.blocks@[j]).height != height,
            decreases n - i,
        {
            let b = self.blocks[i];
            if b.height == height {
                proof {
                    lemma_block_lookup_present(self.blocks@, i as int);
                }
                return Some(b.time);
            }
            i += 1;
        }
        proof {
            lemma_block_lookup_absent(self.blocks@, height);
        }
        None
    }

    /// The recorded id of the block at a height.
    pub fn block_id(&self, height: u32) -> (r: Option<U256>)
        requires
            self.inv(),
        ensures
            r == match block_lookup(self.blocks@, height) {
                Some(b) => Some(b.id),
                None => None::<U256>,
            },
    {
        let n = self.blocks.len();
        let mut i: usize = 0;
        while i < n
            invariant
                self.inv(),
                n == self.blocks@.len(),
                i <= n,
                forall|j: int| 0 <= j < i ==> (#[trigger] self.blocks@[j]).height != height,
            decreases n - i,
        {
            let b = self.blocks[i];
            if b.height == height {
                proof {
                    lemma_block_lookup_present(self.blocks@, i as int);
                }
                return Some(b.id);
            }
            i += 1;
        }
        proof {
            lemma_block_lookup_absent(self.blocks@, height);
        }
        None
    }

    /// Record a block at a height not yet recorded.
    pub fn push_block(&mut self, height: u32, time: u64, id: U256)
        requires
            old(self).inv(),
            block_lookup(old(self).blocks@, height) is None,
        ensures
            final(self).inv(),
            final(self).state@ == old(self).state@,
            forall|h: u32|
                block_lookup(final(self).blocks@, h) == if h == height {
                    Some(BlockMeta { height, time, id })
                } else {
                    block_lookup(old(self).blocks@, h)
                },
    {
        let ghost b0 = self.blocks@;
        let b = BlockMeta { height, time, id };
        self.blocks.push(b);
        proof {
            assert forall|i: int| 0 <= i < b0.len() implies b0[i].height != height by {
                if b0[i].height == height {
                    lemma_block_lookup_some(b0, i);
                }
            }
            assert forall|h: u32|
                block_lookup(self.blocks@, h) == (if h == height {
                    Some(b)
                } else {
                    block_lookup(b0, h)
                }) by {
                assert(self.blocks@.drop_last() =~= b0);
                assert(self.blocks@.last() == b);
            }
        }
    }
}

} // verus!
