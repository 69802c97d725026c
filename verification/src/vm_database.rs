//! The per-execution façade over the store: range reads, range inserts,
//! range removes over `(contract, 256-bit key) → 256-bit value`, and the
//! block-context host queries.
//!
//! A `VmDatabase` is created for one block execution and carries an
//! immutable execution context (current height, timestamp, coinbase)
//! beside the store. A range `[start, start + n)` is valid only while it
//! stays inside the 256-bit keyspace; crossing `2^256` is reported as
//! [`VmError::KeyspaceOverflow`], never silently truncated.

use crate::storage::{
    block_lookup, entry_key, lemma_lookup_absent, lemma_lookup_present, lemma_sorted_distinct,
    lookup, slot_key, Database,
};
use crate::u256::{lemma_value_bound, pow256, U256};
use crate::VmError;
use vstd::prelude::*;

verus! {

/// Outcome of a range insert: were all targeted slots set beforehand?
#[derive(Clone, Copy, PartialEq, Eq, Structural, Debug)]
pub enum InsertResult {
    /// Every targeted slot held a value before the call.
    AllOverwritten,
    /// At least one targeted slot was uninitialized before the call.
    SomeNew,
}

/// Outcome of a range remove: were all targeted slots set beforehand?
#[derive(Clone, Copy, PartialEq, Eq, Structural, Debug)]
pub enum RemoveResult {
    /// Every targeted slot held a value before the call.
    AllRemoved,
    /// At least one targeted slot was already absent.
    SomeAbsent,
}

/// Store plus the execution context of one block execution.
pub struct VmDatabase {
    pub current_block_height: u32,
    pub current_timestamp: u64,
    pub coinbase: U256,
    pub database: Database,
}

impl VmDatabase {
    /// Well-formedness of the underlying store.
    pub open spec fn inv(self) -> bool {
        self.database.inv()
    }

    /// The value of the slot `key` of `contract`, `None` where
    /// uninitialized.
    pub open spec fn slot(self, contract: U256, key: nat) -> Option<U256> {
        lookup(self.database.state@, slot_key(contract.value(), key))
    }

    /// What `timestamp` answers: the context timestamp at the current
    /// height, an error above it, the recorded block time below it.
    pub open spec fn timestamp_spec(self, height: u32) -> Result<u64, VmError> {
        if height > self.current_block_height {
            Err(VmError::HeightOutOfRange)
        } else if height == self.current_block_height {
            Ok(self.current_timestamp)
        } else {
            match block_lookup(self.database.blocks@, height) {
                Some(b) => Ok(b.time),
                None => Err(VmError::NotFound),
            }
        }
    }

    /// What `block_hash` answers: all-zero bytes at or above the current
    /// height and at height zero, else the recorded block id.
    pub open spec fn block_hash_spec(self, height: u32) -> Result<U256, VmError> {
        if height >= self.current_block_height || height == 0 {
            Ok(U256 { w0: 0, w1: 0, w2: 0, w3: 0 })
        } else {
            match block_lookup(self.database.blocks@, height) {
                Some(b) => Ok(b.id),
                None => Err(VmError::NotFound),
            }
        }
    }
}

/// What a successful range read returns: one element per slot of the
/// span, the slot's value where initialized, `None` where not.
pub open spec fn range_read_post(
    db: VmDatabase,
    contract: U256,
    start: U256,
    n: nat,
    out: Seq<Option<U256>>,
) -> bool {
    &&& out.len() == n
    &&& forall|i: int| 0 <= i < n ==> out[i] == db.slot(contract, (start.value() + i) as nat)
}

/// What a successful range insert did: the targeted span now holds the
/// given values element-wise, every other slot and all block records are
/// untouched, the context is untouched, and `all_overwritten` says
/// whether every targeted slot held a value before the call.
pub open spec fn insert_range_post(
    pre: VmDatabase,
    post: VmDatabase,
    contract: U256,
    start: U256,
    values: Seq<U256>,
    all_overwritten: bool,
) -> bool {
    let base = slot_key(contract.value(), start.value());
    &&& forall|m: nat|
        lookup(post.database.state@, m) == if base <= m < base + values.len() {
            Some(values[m - base])
        } else {
            lookup(pre.database.state@, m)
        }
    &&& all_overwritten <==> (forall|m: nat|
        base <= m < base + values.len() ==> lookup(pre.database.state@, m) is Some)
    &&& post.database.blocks@ == pre.database.blocks@
    &&& post.current_block_height == pre.current_block_height
    &&& post.current_timestamp == pre.current_timestamp
    &&& post.coinbase == pre.coinbase
}

/// What a successful range remove did: the targeted span is wholly
/// uninitialized, every other slot and all block records are untouched,
/// and `all_removed` says whether every targeted slot held a value
/// before the call.
pub open spec fn remove_range_post(
    pre: VmDatabase,
    post: VmDatabase,
    contract: U256,
    start: U256,
    n: nat,
    all_removed: bool,
) -> bool {
    let base = slot_key(contract.value(), start.value());
    &&& forall|m: nat|
        lookup(post.database.state@, m) == if base <= m < base + n {
            None::<U256>
        } else {
            lookup(pre.database.state@, m)
        }
    &&& all_removed <==> (forall|m: nat|
        base <= m < base + n ==> lookup(pre.database.state@, m) is Some)
    &&& post.database.blocks@ == pre.database.blocks@
    &&& post.current_block_height == pre.current_block_height
    &&& post.current_timestamp == pre.current_timestamp
    &&& post.coinbase == pre.coinbase
}

/// What a failed range remove left behind: every slot of the contract
/// from `start` to the end of the keyspace is uninitialized, everything
/// else is untouched. The cursor overflowed only after the deletions up
/// to the end of the keyspace were committed.
pub open spec fn remove_range_overflow_post(
    pre: VmDatabase,
    post: VmDatabase,
    contract: U256,
    start: U256,
) -> bool {
    let base = slot_key(contract.value(), start.value());
    &&& forall|m: nat|
        lookup(post.database.state@, m) == if base <= m < slot_key(contract.value(), pow256()) {
            None::<U256>
        } else {
            lookup(pre.database.state@, m)
        }
    &&& post.database.blocks@ == pre.database.blocks@
    &&& post.current_block_height == pre.current_block_height
    &&& post.current_timestamp == pre.current_timestamp
    &&& post.coinbase == pre.coinbase
}

impl VmDatabase {
    /// A façade over `database` for one execution with the given
    /// context.
    pub fn new(
        database: Database,
        current_block_height: u32,
        current_timestamp: u64,
        coinbase: U256,
    ) -> (r: VmDatabase)
        ensures
            r == (VmDatabase { current_block_height, current_timestamp, coinbase, database }),
    {
        VmDatabase { current_block_height, current_timestamp, coinbase, database }
    }

    /// The context height.
    pub fn block_height(&self) -> (r: u32)
        ensures
            r == self.current_block_height,
    {
        self.current_block_height
    }

    /// The context coinbase address.
    pub fn coinbase(&self) -> (r: U256)
        ensures
            r == self.coinbase,
    {
        self.coinbase
    }

    /// The timestamp visible at `height`: the context timestamp at the
    /// current height, `HeightOutOfRange` above it, the recorded block
    /// time below it (`NotFound` where none is recorded).
    pub fn timestamp(&self, height: u32) -> (r: Result<u64, VmError>)
        requires
            self.inv(),
        ensures
            r == self.timestamp_spec(height),
    {
        if height > self.current_block_height {
            Err(VmError::HeightOutOfRange)
        } else if height == self.current_block_height {
            Ok(self.current_timestamp)
        } else {
            match self.database.block_time(height) {
                Some(t) => Ok(t),
                None => Err(VmError::NotFound),
            }
        }
    }

    /// The block hash visible at `height`: all-zero at or above the
    /// current height and at height zero, else the recorded id
    /// (`NotFound` where none is recorded).
    pub fn block_hash(&self, block_height: u32) -> (r: Result<U256, VmError>)
        requires
            self.inv(),
        ensures
            r == self.block_hash_spec(block_height),
    {
        if block_height >= self.current_block_height || block_height == 0 {
            Ok(U256::zero())
        } else {
            match self.database.block_id(block_height) {
                Some(id) => Ok(id),
                None => Err(VmError::NotFound),
            }
        }
    }

    /// Read one slot.
    pub fn merkle_contract_state(&self, contract_id: &U256, key: &U256) -> (r: Option<U256>)
        requires
            self.inv(),
        ensures
            r == self.slot(*contract_id, key.value()),
    {
        self.database.state_get(contract_id, key)
    }

    /// Read the span of `range` slots starting at `start_key`: a sparse
    /// ascending scan of the store projected onto the dense expected key
    /// sequence, `None` filling the gaps. Succeeds exactly when the span
    /// stays inside the keyspace, `start + range <= 2^256`.
    pub fn merkle_contract_state_range(
        &self,
        contract_id: &U256,
        start_key: &U256,
        range: u64,
    ) -> (r: Result<Vec<Option<U256>>, VmError>)
        requires
            self.inv(),
            range <= usize::MAX,
        ensures
            (r is Ok) <==> start_key.value() + range <= pow256(),
            r is Ok ==> range_read_post(*self, *contract_id, *start_key, range as nat, r->Ok_0@),
            r is Err ==> r->Err_0 == VmError::KeyspaceOverflow,
    {
        proof {
            lemma_value_bound(*start_key);
        }
        let mut out: Vec<Option<U256>> = Vec::new();
        if range == 0 {
            return Ok(out);
        }
        if start_key.checked_add_u64(range - 1).is_none() {
            return Err(VmError::KeyspaceOverflow);
        }
        let ghost cv = contract_id.value();
        let ghost sv = start_key.value();
        let n = range as usize;
        let mut j = self.database.find_lower(contract_id, start_key);
        let mut cursor: U256 = *start_key;
        let mut i: usize = 0;
        while i < n
            invariant
                self.inv(),
                cv == contract_id.value(),
                sv == start_key.value(),
                1 <= n <= usize::MAX,
                n == range,
                sv + n <= pow256(),
                i <= n,
                out@.len() == i,
                j <= self.database.state@.len(),
                i < n ==> cursor.value() == sv + i,
                i < n ==> forall|t: int|
                    0 <= t < j ==> entry_key(self.database.state@[t]) < slot_key(
                        cv,
                        cursor.value(),
                    ),
                i < n ==> forall|t: int|
                    j <= t < self.database.state@.len() ==> entry_key(self.database.state@[t])
                        >= slot_key(cv, cursor.value()),
                forall|t: int|
                    0 <= t < i ==> out@[t] == lookup(
                        self.database.state@,
                        slot_key(cv, (sv + t) as nat),
                    ),
            decreases n - i,
        {
            let ghost v = cursor.value();
            let ghost tkey = slot_key(cv, v);
            let n_len = self.database.state.len();
            let mut matched = false;
            if j < n_len {
                let e = self.database.state[j];
                if e.contract == *contract_id && e.key == cursor {
                    out.push(Some(e.value));
                    proof {
                        lemma_sorted_distinct(self.database.state@);
                        lemma_lookup_present(self.database.state@, j as int);
                    }
                    j += 1;
                    matched = true;
                }
            }
            if !matched {
                out.push(None);
                proof {
                    self.database.lemma_target_absent(j as int, *contract_id, cursor);
                    lemma_lookup_absent(self.database.state@, tkey);
                }
            }
            proof {
                assert forall|t: int| 0 <= t < j implies entry_key(self.database.state@[t]) < tkey
                    + 1 by {}
                assert forall|t: int| j <= t < self.database.state@.len() implies entry_key(
                    self.database.state@[t],
                ) >= tkey + 1 by {
                    if matched {
                        assert(entry_key(self.database.state@[j - 1]) == tkey);
                        assert(entry_key(self.database.state@[j - 1]) < entry_key(
                            self.database.state@[t],
                        ));
                    } else {
                        assert(entry_key(self.database.state@[t]) >= tkey);
                        assert(entry_key(self.database.state@[t]) != tkey);
                    }
                }
            }
            i += 1;
            if i < n {
                match cursor.increase() {
                    Ok(c) => cursor = c,
                    Err(_) => {
                        proof {
                            assert(false);
                        }
                    },
                }
            }
        }
        Ok(out)
    }

    /// Write `values` to the consecutive slots starting at `start_key`,
    /// ascending. Succeeds exactly when `start + |values| < 2^256`, and
    /// fails before any write otherwise. Reports whether every targeted
    /// slot already held a value.
    pub fn merkle_contract_state_insert_range(
        &mut self,
        contract_id: &U256,
        start_key: &U256,
        values: &Vec<U256>,
    ) -> (r: Result<InsertResult, VmError>)
        requires
            old(self).inv(),
        ensures
            final(self).inv(),
            (r is Ok) <==> start_key.value() + values@.len() < pow256(),
            r is Ok ==> insert_range_post(
                *old(self),
                *final(self),
                *contract_id,
                *start_key,
                values@,
                r->Ok_0 == InsertResult::AllOverwritten,
            ),
            r is Err ==> r->Err_0 == VmError::KeyspaceOverflow && *final(self) == *old(self),
    {
        let m = values.len();
        if start_key.checked_add_u64(m as u64).is_none() {
            return Err(VmError::KeyspaceOverflow);
        }
        let ghost pre = *self;
        let ghost cv = contract_id.value();
        let ghost sv = start_key.value();
        let ghost base = slot_key(cv, sv);
        let mut cursor: U256 = *start_key;
        let mut all_overwritten = true;
        let mut i: usize = 0;
        while i < m
            invariant
                self.inv(),
                pre.inv(),
                m == values@.len(),
                cv == contract_id.value(),
                sv == start_key.value(),
                base == slot_key(cv, sv),
                sv + m < pow256(),
                i <= m,
                cursor.value() == sv + i,
                all_overwritten <==> (forall|mm: nat|
                    base <= mm < base + i ==> lookup(pre.database.state@, mm) is Some),
                forall|mm: nat|
                    lookup(self.database.state@, mm) == if base <= mm < base + i {
                        Some(values@[mm - base])
                    } else {
                        lookup(pre.database.state@, mm)
                    },
                self.database.blocks@ == pre.database.blocks@,
                self.current_block_height == pre.current_block_height,
                self.current_timestamp == pre.current_timestamp,
                self.coinbase == pre.coinbase,
            decreases m - i,
        {
            let ghost before = self.database.state@;
            let v = values[i];
            let prior = self.database.state_insert(contract_id, &cursor, v);
            all_overwritten = all_overwritten && prior.is_some();
            proof {
                assert(slot_key(cv, cursor.value()) == base + i);
                assert(lookup(before, (base + i) as nat) == lookup(
                    pre.database.state@,
                    (base + i) as nat,
                ));
                assert forall|mm: nat|
                    lookup(self.database.state@, mm) == (if base <= mm < base + i + 1 {
                        Some(values@[mm - base])
                    } else {
                        lookup(pre.database.state@, mm)
                    }) by {
                    assert(lookup(self.database.state@, mm) == if mm == base + i {
                        Some(v)
                    } else {
                        lookup(before, mm)
                    });
                }
            }
            match cursor.increase() {
                Ok(c) => cursor = c,
                Err(_) => {
                    proof {
                        assert(false);
                    }
                },
            }
            i += 1;
        }
        if all_overwritten {
            Ok(InsertResult::AllOverwritten)
        } else {
            Ok(InsertResult::SomeNew)
        }
    }

    /// Delete the span of `range` slots starting at `start_key`,
    /// ascending; deleting an absent slot is not an error, it only flips
    /// the outcome to `SomeAbsent`. The key cursor is advanced by a
    /// checked increment after each deletion, so the call fails with
    /// `KeyspaceOverflow` exactly when `start + range >= 2^256`; the
    /// deletions up to the end of the keyspace are then already
    /// committed.
    pub fn merkle_contract_state_remove_range(
        &mut self,
        contract_id: &U256,
        start_key: &U256,
        range: u64,
    ) -> (r: Result<RemoveResult, VmError>)
        requires
            old(self).inv(),
        ensures
            final(self).inv(),
            (r is Ok) <==> start_key.value() + range < pow256(),
            r is Ok ==> remove_range_post(
                *old(self),
                *final(self),
                *contract_id,
                *start_key,
                range as nat,
                r->Ok_0 == RemoveResult::AllRemoved,
            ),
            r is Err ==> r->Err_0 == VmError::KeyspaceOverflow && remove_range_overflow_post(
                *old(self),
                *final(self),
                *contract_id,
                *start_key,
            ),
    {
        let ghost pre = *self;
        let ghost cv = contract_id.value();
        let ghost sv = start_key.value();
        let ghost base = slot_key(cv, sv);
        let mut cursor: U256 = *start_key;
        let mut all_removed = true;
        let mut i: u64 = 0;
        proof {
            lemma_value_bound(*start_key);
        }
        while i < range
            invariant
                self.inv(),
                pre.inv(),
                pre == *old(self),
                cv == contract_id.value(),
                sv == start_key.value(),
                base == slot_key(cv, sv),
                sv < pow256(),
                i <= range,
                cursor.value() == sv + i,
                all_removed <==> (forall|mm: nat|
                    base <= mm < base + i ==> lookup(pre.database.state@, mm) is Some),
                forall|mm: nat|
                    lookup(self.database.state@, mm) == if base <= mm < base + i {
                        None::<U256>
                    } else {
                        lookup(pre.database.state@, mm)
                    },
                self.database.blocks@ == pre.database.blocks@,
                self.current_block_height == pre.current_block_height,
                self.current_timestamp == pre.current_timestamp,
                self.coinbase == pre.coinbase,
            decreases range - i,
        {
            let ghost before = self.database.state@;
            let prior = self.database.state_remove(contract_id, &cursor);
            all_removed = all_removed && prior.is_some();
            proof {
                assert(slot_key(cv, cursor.value()) == base + i);
                assert(lookup(before, (base + i) as nat) == lookup(
                    pre.database.state@,
                    (base + i) as nat,
                ));
                assert forall|mm: nat|
                    lookup(self.database.state@, mm) == (if base <= mm < base + i + 1 {
                        None::<U256>
                    } else {
                        lookup(pre.database.state@, mm)
                    }) by {
                    assert(lookup(self.database.state@, mm) == if mm == base + i {
                        None::<U256>
                    } else {
                        lookup(before, mm)
                    });
                }
            }
            match cursor.increase() {
                Ok(c) => cursor = c,
                Err(_) => {
                    proof {
                        lemma_value_bound(cursor);
                        assert(cursor.value() == pow256() - 1);
                        assert(base + i + 1 == slot_key(cv, pow256()));
                        assert forall|mm: nat|
                            lookup(self.database.state@, mm) == (if base <= mm < slot_key(
                                cv,
                                pow256(),
                            ) {
                                None::<U256>
                            } else {
                                lookup(pre.database.state@, mm)
                            }) by {}
                    }
                    return Err(VmError::KeyspaceOverflow);
                },
            }
            i += 1;
        }
        proof {
            lemma_value_bound(cursor);
        }
        if all_removed {
            Ok(RemoveResult::AllRemoved)
        } else {
            Ok(RemoveResult::SomeAbsent)
        }
    }
}

/// After a successful range insert, a range read over the same span
/// returns exactly the inserted values, element-wise.
pub proof fn lemma_insert_then_read(
    pre: VmDatabase,
    post: VmDatabase,
    contract: U256,
    start: U256,
    values: Seq<U256>,
    all_overwritten: bool,
    out: Seq<Option<U256>>,
)
    requires
        insert_range_post(pre, post, contract, start, values, all_overwritten),
        range_read_post(post, contract, start, values.len(), out),
    ensures
        out.len() == values.len(),
        forall|i: int| 0 <= i < values.len() ==> out[i] == Some(values[i]),
{
    let base = slot_key(contract.value(), start.value());
    assert forall|i: int| 0 <= i < values.len() implies out[i] == Some(values[i]) by {
        assert(slot_key(contract.value(), (start.value() + i) as nat) == base + i);
        assert(lookup(post.database.state@, (base + i) as nat) == Some(values[i]));
    }
}

/// Removing a span a second time reports `SomeAbsent` (the flag is
/// false) and leaves every slot of the span absent.
pub proof fn lemma_remove_range_idempotent(
    db0: VmDatabase,
    db1: VmDatabase,
    db2: VmDatabase,
    contract: U256,
    start: U256,
    n: nat,
    first_all_removed: bool,
    second_all_removed: bool,
)
    requires
        n >= 1,
        remove_range_post(db0, db1, contract, start, n, first_all_removed),
        remove_range_post(db1, db2, contract, start, n, second_all_removed),
    ensures
        !second_all_removed,
        forall|m: nat|
            slot_key(contract.value(), start.value()) <= m < slot_key(
                contract.value(),
                start.value(),
            ) + n ==> lookup(db2.database.state@, m) is None,
{
    let base = slot_key(contract.value(), start.value());
    assert(lookup(db1.database.state@, base) is None);
}

/// The block hash of height zero and of the current height is all-zero.
pub proof fn lemma_block_hash_edges(db: VmDatabase)
    ensures
        db.block_hash_spec(0) == Ok::<U256, VmError>(U256 { w0: 0, w1: 0, w2: 0, w3: 0 }),
        db.block_hash_spec(db.current_block_height) == Ok::<U256, VmError>(
            U256 { w0: 0, w1: 0, w2: 0, w3: 0 },
        ),
{
}

/// The host timestamp is the context timestamp at the current height,
/// an error above it, and the recorded block time below it.
pub proof fn lemma_timestamp_cases(db: VmDatabase, h: u32)
    ensures
        h == db.current_block_height ==> db.timestamp_spec(h) == Ok::<u64, VmError>(
            db.current_timestamp,
        ),
        h > db.current_block_height ==> db.timestamp_spec(h) == Err::<u64, VmError>(
            VmError::HeightOutOfRange,
        ),
        (h < db.current_block_height && block_lookup(db.database.blocks@, h) is Some)
            ==> db.timestamp_spec(h) == Ok::<u64, VmError>(
            block_lookup(db.database.blocks@, h)->0.time,
        ),
        (h < db.current_block_height && block_lookup(db.database.blocks@, h) is None)
            ==> db.timestamp_spec(h) == Err::<u64, VmError>(VmError::NotFound),
{
}

} // verus!
