use sled_keygen::key::{key_bytes, key_from_bytes};
use sled_keygen::key_generating::{
    seed_from_last_key, Counter, CounterTree, KeyGenerating, KeyGeneratingTransactionalTree,
    OpenError,
};
use std::cell::{Cell, RefCell};

fn temporary_db() -> sled::Db {
    sled::Config::new().temporary(true).open().unwrap()
}

fn stored(tree: &CounterTree, key: u64) -> Option<Vec<u8>> {
    tree.tree().get(key_bytes(key)).unwrap().map(|v| v.to_vec())
}

#[test]
fn counter_tree_keys_start_at_zero() {
    let db = temporary_db();
    let mut tree = CounterTree::open(&db, "unique_id").unwrap();
    let (first_key, _) = tree.insert(&[5]).unwrap();
    let (second_key, _) = tree.insert(&[6]).unwrap();
    assert_eq!(first_key, 0);
    assert_eq!(second_key, 1);
    assert_eq!(stored(&tree, 0), Some(vec![5]));
    assert_eq!(stored(&tree, 1), Some(vec![6]));
}

#[test]
fn direct_inserts_return_keys_in_call_order() {
    let db = temporary_db();
    let mut tree = CounterTree::open(&db, "t").unwrap();
    for i in 0..20u64 {
        let (key, previous) = tree.insert(&[i as u8]).unwrap();
        assert_eq!(key, i);
        assert_eq!(previous, None);
    }
}

#[test]
fn reopened_tree_continues_after_greatest_key() {
    let db = temporary_db();
    {
        let tree = CounterTree::open(&db, "t").unwrap();
        for k in 0..=7u64 {
            tree.insert_with_key(k, &[1]).unwrap();
        }
    }
    let mut tree = CounterTree::open(&db, "t").unwrap();
    let (key, _) = tree.insert(&[2]).unwrap();
    assert_eq!(key, 8);
}

#[test]
fn reopened_tree_orders_keys_numerically() {
    let db = temporary_db();
    {
        let tree = CounterTree::open(&db, "t").unwrap();
        tree.insert_with_key(255, &[1]).unwrap();
        tree.insert_with_key(256, &[1]).unwrap();
        tree.insert_with_key(3, &[1]).unwrap();
    }
    let mut tree = CounterTree::open(&db, "t").unwrap();
    assert_eq!(tree.next_key(), 257);
}

#[test]
fn next_key_never_repeats() {
    let db = temporary_db();
    let mut tree = CounterTree::open(&db, "t").unwrap();
    let keys: Vec<u64> = (0..100).map(|_| tree.next_key()).collect();
    for (i, k) in keys.iter().enumerate() {
        assert_eq!(*k, i as u64);
    }
    let mut sorted = keys.clone();
    sorted.dedup();
    assert_eq!(sorted.len(), 100);
}

#[test]
fn batch_of_inserts_writes_distinct_keys() {
    let db = temporary_db();
    let mut tree = CounterTree::open(&db, "t").unwrap();
    let mut batch = tree.new_batch();
    for v in 10..15u8 {
        batch.insert(&mut tree, &[v]);
    }
    tree.apply_batch(batch).unwrap();
    for (i, v) in (10..15u8).enumerate() {
        assert_eq!(stored(&tree, i as u64), Some(vec![v]));
    }
    assert_eq!(tree.tree().len(), 5);
}

#[test]
fn unapplied_batch_writes_nothing() {
    let db = temporary_db();
    let mut tree = CounterTree::open(&db, "t").unwrap();
    let mut batch = tree.new_batch();
    batch.insert(&mut tree, &[1]);
    batch.insert(&mut tree, &[2]);
    drop(batch);
    assert!(tree.tree().is_empty());
    assert_eq!(tree.next_key(), 2);
}

#[test]
fn batch_remove_deletes_key() {
    let db = temporary_db();
    let mut tree = CounterTree::open(&db, "t").unwrap();
    let (key, _) = tree.insert(&[9]).unwrap();
    let mut batch = tree.new_batch();
    batch.remove(key);
    batch.insert(&mut tree, &[4]);
    tree.apply_batch(batch).unwrap();
    assert_eq!(stored(&tree, key), None);
    assert_eq!(stored(&tree, 1), Some(vec![4]));
}

#[test]
fn retried_transaction_mints_new_key() {
    let db = temporary_db();
    let mut tree = CounterTree::open(&db, "t").unwrap();
    let attempts = Cell::new(0u32);
    let minted = RefCell::new(Vec::new());
    let (key_generator, inner) = tree.parts_mut();
    let key_generator = RefCell::new(key_generator);
    let result: sled::transaction::TransactionResult<u64, ()> = inner.transaction(|tx| {
        let mut guard = key_generator.borrow_mut();
        let mut ctx = KeyGeneratingTransactionalTree::new(&mut **guard, tx);
        let (key, _) = ctx.insert(&[7])?;
        minted.borrow_mut().push(key);
        attempts.set(attempts.get() + 1);
        if attempts.get() == 1 {
            return Err(sled::transaction::ConflictableTransactionError::Conflict);
        }
        Ok(key)
    });
    let key = result.unwrap();
    assert_eq!(*minted.borrow(), vec![0, 1]);
    assert_eq!(key, 1);
    assert_eq!(stored(&tree, 0), None);
    assert_eq!(stored(&tree, 1), Some(vec![7]));
    assert_eq!(tree.next_key(), 2);
}

#[test]
fn transaction_replays_batch() {
    let db = temporary_db();
    let mut tree = CounterTree::open(&db, "t").unwrap();
    let mut batch = tree.new_batch();
    batch.insert(&mut tree, &[3]);
    let (key_generator, inner) = tree.parts_mut();
    let key_generator = RefCell::new(key_generator);
    let result: sled::transaction::TransactionResult<(), ()> = inner.transaction(|tx| {
        let mut guard = key_generator.borrow_mut();
        let ctx = KeyGeneratingTransactionalTree::new(&mut **guard, tx);
        ctx.apply_batch(&batch)?;
        assert_eq!(ctx.tree().get(key_bytes(0))?.map(|v| v.to_vec()), Some(vec![3]));
        Ok(())
    });
    result.unwrap();
    assert_eq!(stored(&tree, 0), Some(vec![3]));
}

#[test]
fn insert_fn_passes_key_to_value() {
    let db = temporary_db();
    let mut tree = CounterTree::open(&db, "t").unwrap();
    tree.next_key();
    let (key, _) = tree.insert_fn(|k| k.to_be_bytes().to_vec()).unwrap();
    assert_eq!(key, 1);
    let value = stored(&tree, key).unwrap();
    assert_eq!(u64::from_be_bytes(value.try_into().unwrap()), key);
}

#[test]
fn explicit_key_then_next_key() {
    let db = temporary_db();
    let mut tree = CounterTree::open(&db, "t").unwrap();
    assert_eq!(tree.insert_with_key(10, &[1]).unwrap(), None);
    assert_eq!(tree.next_key(), 0);
    assert_eq!(tree.insert_with_key(1, &[1]).unwrap(), None);
    assert_eq!(tree.next_key(), 1);
    assert_eq!(tree.insert_with_key(1, &[2]).unwrap(), Some(vec![1]));
}

#[test]
fn counter_initialize_seeds_above_last_key() {
    let mut empty = Counter::initialize(None);
    assert!(empty.has_next());
    assert_eq!(empty.next_key(), 0);
    assert_eq!(empty.next_key(), 1);
    let mut seeded = Counter::initialize(Some(41));
    assert_eq!(seeded.next_key(), 42);
}

#[test]
fn counter_at_largest_key_is_exhausted() {
    let full = Counter::initialize(Some(u64::MAX));
    assert!(!full.has_next());
    let mut last = Counter::initialize(Some(u64::MAX - 1));
    assert!(last.has_next());
    assert_eq!(last.next_key(), u64::MAX);
    assert!(!last.has_next());
}

#[test]
fn seed_from_last_key_reads_eight_bytes() {
    assert!(matches!(seed_from_last_key(None), Ok(None)));
    assert!(matches!(
        seed_from_last_key(Some(vec![0, 0, 0, 0, 0, 0, 1, 2])),
        Ok(Some(258))
    ));
    assert!(matches!(
        seed_from_last_key(Some(vec![1, 2, 3])),
        Err(OpenError::MalformedKey)
    ));
}

#[test]
fn open_refuses_partition_with_foreign_key() {
    let db = temporary_db();
    db.open_tree("t").unwrap().insert(b"abc", vec![1]).unwrap();
    assert!(matches!(
        CounterTree::open(&db, "t"),
        Err(OpenError::MalformedKey)
    ));
}

#[test]
fn key_bytes_are_big_endian() {
    assert_eq!(key_bytes(1), vec![0, 0, 0, 0, 0, 0, 0, 1]);
    assert_eq!(key_bytes(0x0102030405060708), vec![1, 2, 3, 4, 5, 6, 7, 8]);
    assert_eq!(key_from_bytes(&[1, 2, 3, 4, 5, 6, 7, 8]), Some(0x0102030405060708));
    assert_eq!(key_from_bytes(&[1, 2]), None);
}

#[test]
fn constructor_inserts_store_values_built_from_their_keys() {
    let db = temporary_db();
    let mut tree = CounterTree::open(&db, "f").unwrap();
    let first = tree.insert_fn(|k| (*k * 10).to_be_bytes().to_vec()).unwrap();
    let second = tree.insert_fn(|k| (*k * 10).to_be_bytes().to_vec()).unwrap();
    assert_eq!(first, (0, None));
    assert_eq!(second, (1, None));
    assert_eq!(stored(&tree, 0), Some(0u64.to_be_bytes().to_vec()));
    assert_eq!(stored(&tree, 1), Some(10u64.to_be_bytes().to_vec()));
}

#[test]
fn from_last_key_seeds_above_the_read_key() {
    let db = temporary_db();
    let inner = db.open_tree("t").unwrap();
    let mut tree = CounterTree::from_last_key(inner, Some(key_bytes(41))).unwrap();
    assert_eq!(tree.next_key(), 42);
    let inner = db.open_tree("u").unwrap();
    let mut empty = CounterTree::from_last_key(inner, None).unwrap();
    assert_eq!(empty.next_key(), 0);
    let inner = db.open_tree("v").unwrap();
    assert!(matches!(
        CounterTree::from_last_key(inner, Some(vec![1, 2, 3])),
        Err(OpenError::MalformedKey)
    ));
}
