//! Range read, insert and remove over the contract state map, and the
//! block-context host queries.

use fuel_node_core::storage::Database;
use fuel_node_core::u256::U256;
use fuel_node_core::vm_database::{InsertResult, RemoveResult, VmDatabase};
use fuel_node_core::VmError;

/// The 256-bit integer `k`.
fn key(k: u8) -> U256 {
    U256::from_u64(k as u64)
}

/// The 32-byte value with every byte `b`.
fn rep(b: u8) -> U256 {
    let w = (b as u64) * 0x0101_0101_0101_0101;
    U256::from_words(w, w, w, w)
}

/// The largest 256-bit integer.
fn max_key() -> U256 {
    U256::from_words(u64::MAX, u64::MAX, u64::MAX, u64::MAX)
}

/// A database over contract `0^32` prefilled with the given slots.
fn db_with(slots: &[(U256, U256)]) -> VmDatabase {
    let mut store = Database::new();
    let contract = U256::zero();
    for (k, v) in slots {
        store.state_insert(&contract, k, *v);
    }
    VmDatabase::new(store, 0, 0, U256::zero())
}

fn read(db: &VmDatabase, start: U256, n: u64) -> Result<Vec<Option<U256>>, VmError> {
    db.merkle_contract_state_range(&U256::zero(), &start, n)
}

#[test]
fn read_single_uninitialized_value() {
    let db = db_with(&[]);
    assert_eq!(read(&db, key(0), 1), Ok(vec![None]));
}

#[test]
fn read_single_initialized_value() {
    let db = db_with(&[(key(0), rep(0))]);
    assert_eq!(read(&db, key(0), 1), Ok(vec![Some(rep(0))]));
}

#[test]
fn read_uninitialized_range() {
    let db = db_with(&[]);
    assert_eq!(read(&db, key(0), 3), Ok(vec![None, None, None]));
}

#[test]
fn read_uninitialized_start_range() {
    let db = db_with(&[(key(1), rep(1)), (key(2), rep(2))]);
    assert_eq!(read(&db, key(0), 3), Ok(vec![None, Some(rep(1)), Some(rep(2))]));
}

#[test]
fn read_uninitialized_middle_range() {
    let db = db_with(&[(key(0), rep(0)), (key(2), rep(2))]);
    assert_eq!(read(&db, key(0), 3), Ok(vec![Some(rep(0)), None, Some(rep(2))]));
}

#[test]
fn read_uninitialized_end_range() {
    let db = db_with(&[(key(0), rep(0)), (key(1), rep(1))]);
    assert_eq!(read(&db, key(0), 3), Ok(vec![Some(rep(0)), Some(rep(1)), None]));
}

#[test]
fn read_fully_initialized_range() {
    let db = db_with(&[(key(0), rep(0)), (key(1), rep(1)), (key(2), rep(2))]);
    assert_eq!(read(&db, key(0), 3), Ok(vec![Some(rep(0)), Some(rep(1)), Some(rep(2))]));
}

#[test]
fn read_subset_of_initialized_range() {
    let db = db_with(&[(key(0), rep(0)), (key(1), rep(1)), (key(2), rep(2))]);
    assert_eq!(read(&db, key(0), 2), Ok(vec![Some(rep(0)), Some(rep(1))]));
}

#[test]
fn read_subset_without_running_too_far() {
    // Stops before revealing the slot at key 2.
    let db = db_with(&[(key(0), rep(0)), (key(2), rep(2))]);
    assert_eq!(read(&db, key(0), 2), Ok(vec![Some(rep(0)), None]));
}

#[test]
fn read_fails_on_uninitialized_range_if_keyspace_exceeded() {
    let db = db_with(&[]);
    assert_eq!(read(&db, max_key(), 2), Err(VmError::KeyspaceOverflow));
}

#[test]
fn read_fails_on_partially_initialized_range_if_keyspace_exceeded() {
    let db = db_with(&[(max_key(), rep(0))]);
    assert_eq!(read(&db, max_key(), 2), Err(VmError::KeyspaceOverflow));
}

#[test]
fn read_last_slot_of_keyspace() {
    // The span ends exactly at 2^256: still total.
    let db = db_with(&[(max_key(), rep(7))]);
    assert_eq!(read(&db, max_key(), 1), Ok(vec![Some(rep(7))]));
}

#[test]
fn read_big_endian_start_key() {
    let db = db_with(&[]);
    let start = U256::from_be_bytes(&[0xff; 32]);
    assert_eq!(read(&db, start, 2), Err(VmError::KeyspaceOverflow));
}

/// Insert `values` at `start`, then check the stored span matches the
/// request when it succeeded and is untouched when it failed.
fn insert_checked(
    db: &mut VmDatabase,
    start: U256,
    values: &[U256],
) -> Result<InsertResult, VmError> {
    let contract = U256::zero();
    let r = db.merkle_contract_state_insert_range(&contract, &start, &values.to_vec());
    let mut stored = Vec::new();
    let mut cursor = Some(start);
    for _ in 0..values.len() {
        match cursor {
            Some(k) => {
                if let Some(v) = db.merkle_contract_state(&contract, &k) {
                    stored.push(v);
                }
                cursor = k.increase().ok();
            }
            None => break,
        }
    }
    if r.is_ok() {
        assert_eq!(stored, values.to_vec());
    } else {
        assert_eq!(stored.len(), 0);
    }
    r
}

#[test]
fn insert_single_value_over_uninitialized_range() {
    let mut db = db_with(&[]);
    assert_eq!(insert_checked(&mut db, key(0), &[rep(1)]), Ok(InsertResult::SomeNew));
}

#[test]
fn insert_single_value_over_initialized_range() {
    let mut db = db_with(&[(key(0), rep(0))]);
    assert_eq!(insert_checked(&mut db, key(0), &[rep(1)]), Ok(InsertResult::AllOverwritten));
}

#[test]
fn insert_multiple_slots_over_uninitialized_range() {
    let mut db = db_with(&[]);
    assert_eq!(insert_checked(&mut db, key(0), &[rep(1), rep(2)]), Ok(InsertResult::SomeNew));
}

#[test]
fn insert_multiple_slots_uninitialized_start() {
    let mut db = db_with(&[(key(1), rep(0)), (key(2), rep(0))]);
    assert_eq!(
        insert_checked(&mut db, key(0), &[rep(1), rep(2), rep(3)]),
        Ok(InsertResult::SomeNew)
    );
}

#[test]
fn insert_multiple_slots_uninitialized_middle() {
    let mut db = db_with(&[(key(0), rep(0)), (key(2), rep(0))]);
    assert_eq!(
        insert_checked(&mut db, key(0), &[rep(1), rep(2), rep(3)]),
        Ok(InsertResult::SomeNew)
    );
}

#[test]
fn insert_multiple_slots_uninitialized_end() {
    let mut db = db_with(&[(key(0), rep(0)), (key(1), rep(0))]);
    assert_eq!(
        insert_checked(&mut db, key(0), &[rep(1), rep(2), rep(3)]),
        Ok(InsertResult::SomeNew)
    );
}

#[test]
fn insert_multiple_slots_over_initialized_range() {
    let mut db = db_with(&[(key(0), rep(0)), (key(1), rep(0)), (key(2), rep(0))]);
    assert_eq!(
        insert_checked(&mut db, key(0), &[rep(1), rep(2), rep(3)]),
        Ok(InsertResult::AllOverwritten)
    );
}

#[test]
fn insert_over_subrange_of_prefilled_data() {
    let mut db = db_with(&[
        (key(0), rep(0)),
        (key(1), rep(0)),
        (key(2), rep(0)),
        (key(3), rep(0)),
    ]);
    assert_eq!(
        insert_checked(&mut db, key(1), &[rep(1), rep(2)]),
        Ok(InsertResult::AllOverwritten)
    );
}

#[test]
fn insert_fails_when_keyspace_exceeded() {
    let mut db = db_with(&[]);
    assert_eq!(
        insert_checked(&mut db, max_key(), &[rep(1), rep(2)]),
        Err(VmError::KeyspaceOverflow)
    );
}

#[test]
fn insert_fails_from_big_endian_max_key() {
    let mut db = db_with(&[]);
    let start = U256::from_be_bytes(&[0xff; 32]);
    assert_eq!(
        insert_checked(&mut db, start, &[rep(1), rep(2)]),
        Err(VmError::KeyspaceOverflow)
    );
}

#[test]
fn insert_then_read_returns_inserted_values() {
    let mut db = db_with(&[]);
    assert_eq!(
        insert_checked(&mut db, key(0), &[rep(1), rep(2)]),
        Ok(InsertResult::SomeNew)
    );
    assert_eq!(read(&db, key(0), 2), Ok(vec![Some(rep(1)), Some(rep(2))]));
}

/// Remove `n` slots at `start`; returns the values still stored in the
/// span and the outcome flag.
fn remove_checked(db: &mut VmDatabase, start: U256, n: u64) -> (Vec<U256>, bool) {
    let contract = U256::zero();
    let flag = db
        .merkle_contract_state_remove_range(&contract, &start, n)
        .unwrap();
    let mut stored = Vec::new();
    let mut cursor = Some(start);
    for _ in 0..n {
        match cursor {
            Some(k) => {
                if let Some(v) = db.merkle_contract_state(&contract, &k) {
                    stored.push(v);
                }
                cursor = k.increase().ok();
            }
            None => break,
        }
    }
    (stored, flag == RemoveResult::AllRemoved)
}

#[test]
fn remove_single_value_over_uninitialized_range() {
    let mut db = db_with(&[]);
    assert_eq!(remove_checked(&mut db, key(0), 1), (vec![], false));
}

#[test]
fn remove_single_value_over_initialized_range() {
    let mut db = db_with(&[(key(0), rep(0))]);
    assert_eq!(remove_checked(&mut db, key(0), 1), (vec![], true));
}

#[test]
fn remove_multiple_slots_over_uninitialized_range() {
    let mut db = db_with(&[]);
    assert_eq!(remove_checked(&mut db, key(0), 2), (vec![], false));
}

#[test]
fn remove_multiple_slots_over_initialized_range() {
    let mut db = db_with(&[(key(0), rep(0)), (key(1), rep(0))]);
    assert_eq!(remove_checked(&mut db, key(0), 2), (vec![], true));
}

#[test]
fn remove_partially_uninitialized_start_range() {
    let mut db = db_with(&[(key(1), rep(0)), (key(2), rep(0))]);
    assert_eq!(remove_checked(&mut db, key(0), 3), (vec![], false));
}

#[test]
fn remove_partially_uninitialized_end_range() {
    let mut db = db_with(&[(key(0), rep(0)), (key(1), rep(0))]);
    assert_eq!(remove_checked(&mut db, key(0), 3), (vec![], false));
}

#[test]
fn remove_partially_uninitialized_middle_range() {
    let mut db = db_with(&[(key(0), rep(0)), (key(2), rep(0))]);
    assert_eq!(remove_checked(&mut db, key(0), 3), (vec![], false));
}

#[test]
fn remove_then_reread_and_remove_again() {
    // All three slots set; removing two reports AllRemoved, a re-read
    // finds both gone, and removing again reports SomeAbsent.
    let mut db = db_with(&[(key(0), rep(0)), (key(1), rep(1)), (key(2), rep(2))]);
    let contract = U256::zero();
    assert_eq!(
        db.merkle_contract_state_remove_range(&contract, &key(0), 2),
        Ok(RemoveResult::AllRemoved)
    );
    assert_eq!(read(&db, key(0), 2), Ok(vec![None, None]));
    assert_eq!(
        db.merkle_contract_state_remove_range(&contract, &key(0), 2),
        Ok(RemoveResult::SomeAbsent)
    );
    assert_eq!(read(&db, key(0), 2), Ok(vec![None, None]));
}

#[test]
fn read_empty_range() {
    let db = db_with(&[(key(0), rep(0))]);
    assert_eq!(read(&db, key(0), 0), Ok(vec![]));
}

#[test]
fn insert_empty_range_reports_all_overwritten() {
    // No slot is targeted, so none was new; even at the last key the
    // preflight passes.
    let mut db = db_with(&[]);
    let contract = U256::zero();
    assert_eq!(
        db.merkle_contract_state_insert_range(&contract, &max_key(), &vec![]),
        Ok(InsertResult::AllOverwritten)
    );
}

#[test]
fn insert_failure_preserves_prefilled_slots() {
    let mut db = db_with(&[(key(0), rep(5))]);
    let contract = U256::zero();
    assert_eq!(
        db.merkle_contract_state_insert_range(&contract, &max_key(), &vec![rep(1), rep(2)]),
        Err(VmError::KeyspaceOverflow)
    );
    assert_eq!(db.merkle_contract_state(&contract, &key(0)), Some(rep(5)));
}

#[test]
fn remove_at_the_end_of_the_keyspace_commits_then_fails() {
    // The cursor is advanced by a checked increment after each
    // deletion, so deleting the very last slot removes it and then
    // reports the overflow.
    let mut db = db_with(&[(max_key(), rep(1))]);
    let contract = U256::zero();
    assert_eq!(
        db.merkle_contract_state_remove_range(&contract, &max_key(), 1),
        Err(VmError::KeyspaceOverflow)
    );
    assert_eq!(db.merkle_contract_state(&contract, &max_key()), None);
}

#[test]
fn scan_is_ordered_by_contract_then_key() {
    // An entry of a lower contract at the highest key must not leak
    // into the next contract's range.
    let mut store = Database::new();
    let a = U256::zero();
    let b = U256::from_u64(1);
    store.state_insert(&a, &max_key(), rep(1));
    store.state_insert(&b, &key(1), rep(2));
    let db = VmDatabase::new(store, 0, 0, U256::zero());
    assert_eq!(
        db.merkle_contract_state_range(&b, &key(0), 2),
        Ok(vec![None, Some(rep(2))])
    );
    assert_eq!(
        db.merkle_contract_state_range(&a, &max_key(), 1),
        Ok(vec![Some(rep(1))])
    );
}

#[test]
fn contracts_do_not_share_slots() {
    let mut store = Database::new();
    let a = U256::from_u64(1);
    let b = U256::from_u64(2);
    store.state_insert(&a, &key(0), rep(1));
    let db = VmDatabase::new(store, 0, 0, U256::zero());
    assert_eq!(
        db.merkle_contract_state_range(&a, &key(0), 1),
        Ok(vec![Some(rep(1))])
    );
    assert_eq!(db.merkle_contract_state_range(&b, &key(0), 1), Ok(vec![None]));
}

#[test]
fn timestamp_follows_the_context_and_the_store() {
    let mut store = Database::new();
    store.push_block(3, 999, rep(3));
    let db = VmDatabase::new(store, 5, 1234, U256::zero());
    assert_eq!(db.timestamp(5), Ok(1234));
    assert_eq!(db.timestamp(6), Err(VmError::HeightOutOfRange));
    assert_eq!(db.timestamp(3), Ok(999));
    assert_eq!(db.timestamp(2), Err(VmError::NotFound));
}

#[test]
fn block_hash_edges_are_zero() {
    let mut store = Database::new();
    store.push_block(3, 999, rep(3));
    let db = VmDatabase::new(store, 5, 1234, U256::zero());
    assert_eq!(db.block_hash(0), Ok(U256::zero()));
    assert_eq!(db.block_hash(5), Ok(U256::zero()));
    assert_eq!(db.block_hash(7), Ok(U256::zero()));
    assert_eq!(db.block_hash(3), Ok(rep(3)));
    assert_eq!(db.block_hash(2), Err(VmError::NotFound));
}

#[test]
fn context_getters() {
    let db = VmDatabase::new(Database::new(), 42, 7, rep(9));
    assert_eq!(db.block_height(), 42);
    assert_eq!(db.coinbase(), rep(9));
}
