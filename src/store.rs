//! The calls into sled that the key-generating handles make, each with the
//! contract that the library relies on.
use vstd::prelude::*;

verus! {

#[verifier::external_type_specification]
#[verifier::external_body]
pub struct ExDb(sled::Db);

#[verifier::external_type_specification]
#[verifier::external_body]
pub struct ExTree(sled::Tree);

#[verifier::external_type_specification]
#[verifier::external_body]
pub struct ExBatch(sled::Batch);

#[verifier::external_type_specification]
#[verifier::external_body]
pub struct ExError(sled::Error);

#[verifier::external_type_specification]
#[verifier::external_body]
pub struct ExTransactionalTree(sled::transaction::TransactionalTree);

#[verifier::external_type_specification]
#[verifier::external_body]
pub struct ExUnabortableTransactionError(sled::transaction::UnabortableTransactionError);

/// The pending writes of a sled batch: for each key, the value it will be set
/// to, or `None` where it will be removed.
pub uninterp spec fn batch_writes(b: sled::Batch) -> Map<Seq<u8>, Option<Seq<u8>>>;

/// Relies on `sled::Db::open_tree`: opens, or creates, the partition named `id`.
#[verifier::external_body]
pub(crate) fn open_tree(db: &sled::Db, id: &str) -> (r: Result<sled::Tree, sled::Error>) {
    db.open_tree(id)
}

/// Relies on `sled::Tree::last`: the key of the greatest entry of the
/// partition, if it holds any.
#[verifier::external_body]
pub(crate) fn tree_last_key(t: &sled::Tree) -> (r: Result<Option<Vec<u8>>, sled::Error>) {
    t.last().map(|entry| entry.map(|(k, _)| k.to_vec()))
}

/// Relies on `sled::Tree::insert`: writes `value` at `key` and hands back the
/// value that was there before.
#[verifier::external_body]
pub(crate) fn tree_insert(t: &sled::Tree, key: &[u8], value: &[u8]) -> (r: Result<
    Option<Vec<u8>>,
    sled::Error,
>) {
    t.insert(key, value).map(|old| old.map(|v| v.to_vec()))
}

/// Relies on `sled::Tree::apply_batch`: commits all writes of `b` atomically.
#[verifier::external_body]
pub(crate) fn tree_apply_batch(t: &sled::Tree, b: sled::Batch) -> (r: Result<(), sled::Error>) {
    t.apply_batch(b)
}

/// Relies on `sled::Batch::default`: a batch with no pending writes.
#[verifier::external_body]
pub(crate) fn empty_batch() -> (r: sled::Batch)
    ensures
        batch_writes(r).dom().is_empty(),
{
    sled::Batch::default()
}

/// Relies on `sled::Batch::insert`: the pending write at `key` becomes `value`.
#[verifier::external_body]
pub(crate) fn batch_insert(b: &mut sled::Batch, key: &[u8], value: &[u8])
    ensures
        batch_writes(*final(b)) == batch_writes(*old(b)).insert(key@, Some(value@)),
{
    b.insert(key, value)
}

/// Relies on `sled::Batch::remove`: the pending write at `key` becomes a removal.
#[verifier::external_body]
pub(crate) fn batch_remove(b: &mut sled::Batch, key: &[u8])
    ensures
        batch_writes(*final(b)) == batch_writes(*old(b)).insert(key@, None),
{
    b.remove(key)
}

/// Relies on `sled::transaction::TransactionalTree::insert`: writes `value` at
/// `key` within the running transaction and hands back the value seen there.
#[verifier::external_body]
pub(crate) fn tx_insert(
    t: &sled::transaction::TransactionalTree,
    key: &[u8],
    value: &[u8],
) -> (r: Result<Option<Vec<u8>>, sled::transaction::UnabortableTransactionError>) {
    t.insert(key, value).map(|old| old.map(|v| v.to_vec()))
}

/// Relies on `sled::transaction::TransactionalTree::apply_batch`: replays the
/// writes of `b` within the running transaction.
#[verifier::external_body]
pub(crate) fn tx_apply_batch(
    t: &sled::transaction::TransactionalTree,
    b: &sled::Batch,
) -> (r: Result<(), sled::transaction::UnabortableTransactionError>) {
    t.apply_batch(b)
}

} // verus!
