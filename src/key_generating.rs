//! Partitions of a sled database whose keys are generated.
//!
//! A `KeyGeneratingTree` owns one key generator and hands every key that it,
//! its batches and its transactions write from that one generator. Minting a
//! key takes the generator mutably, so two mints are never interleaved and no
//! key is handed out twice.
use vstd::prelude::*;
use crate::key::{key_bytes, key_from_bytes, key_seq};
use crate::store::{
    batch_insert,
    batch_remove,
    batch_writes,
    empty_batch,
    open_tree,
    tree_apply_batch,
    tree_insert,
    tree_last_key,
    tx_apply_batch,
    tx_insert,
};

verus! {

/// A strategy for minting keys that a partition does not hold yet.
pub trait KeyGenerating: Sized {
    /// `k` has not been handed out by this generator and is above every key
    /// the partition held when the generator was set up.
    spec fn is_fresh(&self, k: u64) -> bool;

    /// The generator can hand out one more key.
    spec fn can_mint(&self) -> bool;

    /// From this state, `next_key` may hand out `k` and leave `next` behind.
    spec fn mints(&self, k: u64, next: Self) -> bool;

    /// A minted key was fresh, and is fresh no longer, and no key becomes
    /// fresh again.
    proof fn lemma_mints_fresh(&self, k: u64, next: Self)
        requires
            self.mints(k, next),
        ensures
            self.is_fresh(k),
            !next.is_fresh(k),
            forall|j: u64| next.is_fresh(j) ==> self.is_fresh(j),
    ;

    /// This is a state that `initialize` may return for a partition whose
    /// greatest key is `last_key`.
    spec fn starts(&self, last_key: Option<u64>) -> bool;

    /// A starting state holds no key at or below the partition's greatest key
    /// fresh.
    proof fn lemma_starts_above(&self, last_key: Option<u64>, k: u64)
        requires
            self.starts(last_key),
            last_key matches Some(l) && k <= l,
        ensures
            !self.is_fresh(k),
    ;

    /// A generator for a partition whose greatest key is `last_key`.
    fn initialize(last_key: Option<u64>) -> (r: Self)
        ensures
            r.starts(last_key),
    ;

    /// Whether another key can be minted.
    fn has_next(&self) -> (r: bool)
        ensures
            r == self.can_mint(),
    ;

    /// Mints a key.
    fn next_key(&mut self) -> (k: u64)
        requires
            old(self).can_mint(),
        ensures
            old(self).mints(k, *final(self)),
    ;
}

/// Keys from a counter that starts just above the partition's greatest key
/// and goes up by one for each key minted.
pub struct Counter {
    next: u64,
    exhausted: bool,
}

impl View for Counter {
    /// The key that the counter mints next; `None` once it has minted `u64::MAX`.
    type V = Option<u64>;

    closed spec fn view(&self) -> Option<u64> {
        if self.exhausted {
            None
        } else {
            Some(self.next)
        }
    }
}

/// What a counter holds after minting `k`.
pub open spec fn counter_after(k: u64) -> Option<u64> {
    if k == u64::MAX {
        None
    } else {
        Some((k + 1) as u64)
    }
}

impl KeyGenerating for Counter {
    open spec fn is_fresh(&self, k: u64) -> bool {
        self@ matches Some(n) && n <= k
    }

    open spec fn can_mint(&self) -> bool {
        self@ is Some
    }

    open spec fn mints(&self, k: u64, next: Self) -> bool {
        self@ == Some(k) && next@ == counter_after(k)
    }

    proof fn lemma_mints_fresh(&self, k: u64, next: Self) {
    }

    open spec fn starts(&self, last_key: Option<u64>) -> bool {
        self@ == (match last_key {
            Some(l) => counter_after(l),
            None => Some(0u64),
        })
    }

    proof fn lemma_starts_above(&self, last_key: Option<u64>, k: u64) {
    }

    fn initialize(last_key: Option<u64>) -> (r: Self) {
        match last_key {
            Some(l) => {
                if l == u64::MAX {
                    Counter { next: 0, exhausted: true }
                } else {
                    Counter { next: l + 1, exhausted: false }
                }
            },
            None => Counter { next: 0, exhausted: false },
        }
    }

    fn has_next(&self) -> (r: bool) {
        !self.exhausted
    }

    fn next_key(&mut self) -> (k: u64) {
        let k = self.next;
        if k == u64::MAX {
            self.exhausted = true;
        } else {
            self.next = k + 1;
        }
        k
    }
}

/// Why a key-generating partition could not be opened.
#[derive(Debug)]
pub enum OpenError {
    /// The store failed to open the partition or to read its greatest key.
    Store(sled::Error),
    /// The partition's greatest key is not the eight bytes of a generated key,
    /// so no seed for the generator can be read from it.
    MalformedKey,
}

/// The key that a generator must stay above, read from the bytes of the
/// partition's greatest key (`None` for an empty partition).
pub fn seed_from_last_key(last: Option<Vec<u8>>) -> (r: Result<Option<u64>, OpenError>)
    ensures
        last is None ==> r matches Ok(None),
        last matches Some(b) ==> (b@.len() == 8 <==> r is Ok),
        last matches Some(b) ==> (r matches Ok(s) ==> (s matches Some(k) && key_seq(k) == b@)),
        last matches Some(b) ==> (r matches Err(e) ==> e is MalformedKey),
{
    match last {
        None => Ok(None),
        Some(b) => match key_from_bytes(b.as_slice()) {
            Some(k) => Ok(Some(k)),
            None => Err(OpenError::MalformedKey),
        },
    }
}

/// A partition of a sled database together with the generator that mints
/// its keys.
pub struct KeyGeneratingTree<KG: KeyGenerating> {
    key_generator: KG,
    inner: sled::Tree,
}

/// A partition whose keys are `0, 1, 2, ...`, continuing after the greatest
/// key it held when it was opened.
pub type CounterTree = KeyGeneratingTree<Counter>;

impl<KG: KeyGenerating> KeyGeneratingTree<KG> {
    /// The generator's state.
    pub closed spec fn generator(&self) -> KG {
        self.key_generator
    }

    /// The partition that the handle writes to.
    pub closed spec fn store(&self) -> sled::Tree {
        self.inner
    }

    /// A handle on `inner`, whose greatest key is `last_key`.
    pub fn with_last_key(inner: sled::Tree, last_key: Option<u64>) -> (r: Self)
        ensures
            r.store() == inner,
            r.generator().starts(last_key),
    {
        KeyGeneratingTree { key_generator: KG::initialize(last_key), inner }
    }

    /// Opens, or creates, the partition `id` of `db` and sets its generator
    /// above the greatest key it holds.
    pub fn open(db: &sled::Db, id: &str) -> (r: Result<Self, OpenError>)
        ensures
            r is Ok ==> exists|last_key: Option<u64>| r->Ok_0.generator().starts(last_key),
    {
        let inner = match open_tree(db, id) {
            Ok(t) => t,
            Err(e) => return Err(OpenError::Store(e)),
        };
        let last = match tree_last_key(&inner) {
            Ok(l) => l,
            Err(e) => return Err(OpenError::Store(e)),
        };
        Self::from_last_key(inner, last)
    }

    /// A handle on `inner`, whose greatest key has the bytes `last` (`None`
    /// where it holds no key), with its generator seeded above that key.
    pub fn from_last_key(inner: sled::Tree, last: Option<Vec<u8>>) -> (r: Result<Self, OpenError>)
        ensures
            last is None ==> r is Ok && r->Ok_0.store() == inner
                && r->Ok_0.generator().starts(None),
            last matches Some(b) ==> (b@.len() == 8 <==> r is Ok),
            last matches Some(b) ==> (r is Ok ==> r->Ok_0.store() == inner && exists|k: u64|
                key_seq(k) == b@ && r->Ok_0.generator().starts(Some(k))),
            r matches Err(e) ==> e is MalformedKey,
    {
        let seed = match seed_from_last_key(last) {
            Ok(s) => s,
            Err(e) => return Err(e),
        };
        let t = Self::with_last_key(inner, seed);
        let r = Ok(t);
        assert(r->Ok_0.generator().starts(seed));
        r
    }

    /// Whether the generator can mint another key.
    pub fn has_next(&self) -> (r: bool)
        ensures
            r == self.generator().can_mint(),
    {
        self.key_generator.has_next()
    }

    /// Mints a key without writing anything.
    pub fn next_key(&mut self) -> (k: u64)
        requires
            old(self).generator().can_mint(),
        ensures
            old(self).generator().mints(k, final(self).generator()),
            final(self).store() == old(self).store(),
    {
        self.key_generator.next_key()
    }

    /// Writes `value` at a freshly minted key and returns that key with the
    /// value that was there before. The key is spent even where the write fails.
    pub fn insert(&mut self, value: &[u8]) -> (r: Result<(u64, Option<Vec<u8>>), sled::Error>)
        requires
            old(self).generator().can_mint(),
        ensures
            final(self).store() == old(self).store(),
            exists|k: u64| old(self).generator().mints(k, final(self).generator()),
            r matches Ok((k, _)) ==> old(self).generator().mints(k, final(self).generator()),
    {
        let key = self.key_generator.next_key();
        assert(old(self).generator().mints(key, self.generator()));
        let bytes = key_bytes(key);
        match tree_insert(&self.inner, bytes.as_slice(), value) {
            Ok(previous) => Ok((key, previous)),
            Err(e) => Err(e),
        }
    }

    /// Writes `value` at `key`, bypassing the generator, and returns the value
    /// that was there before. Nothing keeps the generator from minting `key`
    /// later: callers choose keys that it will not mint.
    pub fn insert_with_key(&self, key: u64, value: &[u8]) -> (r: Result<
        Option<Vec<u8>>,
        sled::Error,
    >) {
        let bytes = key_bytes(key);
        tree_insert(&self.inner, bytes.as_slice(), value)
    }

    /// Mints a key, builds the value from it with `f`, and writes the value at
    /// that key; returns the key with the value that was there before.
    pub fn insert_fn<F: Fn(&u64) -> Vec<u8>>(&mut self, f: F) -> (r: Result<
        (u64, Option<Vec<u8>>),
        sled::Error,
    >)
        requires
            old(self).generator().can_mint(),
            forall|k: u64| f.requires((&k,)),
        ensures
            final(self).store() == old(self).store(),
            exists|k: u64, v: Vec<u8>|
                old(self).generator().mints(k, final(self).generator()) && f.ensures((&k,), v),
            r matches Ok((k, _)) ==> old(self).generator().mints(k, final(self).generator()),
            r matches Ok((k, _)) ==> exists|v: Vec<u8>| f.ensures((&k,), v),
    {
        let key = self.key_generator.next_key();
        assert(old(self).generator().mints(key, self.generator()));
        let value = f(&key);
        assert(f.ensures((&key,), value));
        match self.insert_with_key(key, value.as_slice()) {
            Ok(previous) => {
                let r = Ok((key, previous));
                assert(f.ensures((&r->Ok_0.0,), value));
                r
            },
            Err(e) => Err(e),
        }
    }

    /// The generator that mints this partition's keys.
    pub fn key_generator(&self) -> (r: &KG)
        ensures
            *r == self.generator(),
    {
        &self.key_generator
    }

    /// An empty batch for this partition.
    pub fn new_batch(&self) -> (r: KeyGeneratingBatch)
        ensures
            r@.dom().is_empty(),
    {
        KeyGeneratingBatch { inner: empty_batch() }
    }

    /// Commits all writes of `batch` to the partition at once.
    pub fn apply_batch(&self, batch: KeyGeneratingBatch) -> (r: Result<(), sled::Error>) {
        tree_apply_batch(&self.inner, batch.inner)
    }

    /// The partition, for the store's own operations (reads, transactions).
    pub fn tree(&self) -> (r: &sled::Tree)
        ensures
            *r == self.store(),
    {
        &self.inner
    }

    /// The generator and the partition at once, for a transaction context
    /// that mints from the one and writes to the other.
    pub fn parts_mut(&mut self) -> (r: (&mut KG, &sled::Tree))
        ensures
            *r.0 == old(self).generator(),
            *r.1 == old(self).store(),
            final(self).generator() == *final(r.0),
            final(self).store() == old(self).store(),
    {
        (&mut self.key_generator, &self.inner)
    }
}

/// Writes to a partition, gathered to be committed at once. Keys that it
/// inserts at are minted by the partition's own generator.
pub struct KeyGeneratingBatch {
    inner: sled::Batch,
}

impl View for KeyGeneratingBatch {
    /// The pending write at each key's bytes: a value, or `None` for a removal.
    type V = Map<Seq<u8>, Option<Seq<u8>>>;

    closed spec fn view(&self) -> Map<Seq<u8>, Option<Seq<u8>>> {
        batch_writes(self.inner)
    }
}

impl KeyGeneratingBatch {
    /// Mints a key from `tree`'s generator and adds a write of `value` there.
    pub fn insert<KG: KeyGenerating>(&mut self, tree: &mut KeyGeneratingTree<KG>, value: &[u8])
        requires
            old(tree).generator().can_mint(),
        ensures
            final(tree).store() == old(tree).store(),
            exists|k: u64|
                old(tree).generator().mints(k, final(tree).generator()) && final(self)@ == old(
                    self,
                )@.insert(key_seq(k), Some(value@)),
    {
        let key = tree.next_key();
        let bytes = key_bytes(key);
        batch_insert(&mut self.inner, bytes.as_slice(), value);
    }

    /// Adds a removal of `key`.
    pub fn remove(&mut self, key: u64)
        ensures
            final(self)@ == old(self)@.insert(key_seq(key), None),
    {
        let bytes = key_bytes(key);
        batch_remove(&mut self.inner, bytes.as_slice());
    }
}

/// A view of a partition inside one attempt of a transaction, minting keys
/// from the partition's generator. An attempt that is retried does not give
/// back the keys it minted.
pub struct KeyGeneratingTransactionalTree<'a, KG: KeyGenerating> {
    key_generator: &'a mut KG,
    inner: &'a sled::transaction::TransactionalTree,
}

impl<'a, KG: KeyGenerating> KeyGeneratingTransactionalTree<'a, KG> {
    /// The generator's state.
    pub closed spec fn generator(&self) -> KG {
        *self.key_generator
    }

    /// The transaction's view of the partition.
    pub closed spec fn store(&self) -> sled::transaction::TransactionalTree {
        *self.inner
    }

    /// A context that mints from `key_generator` and writes through `inner`.
    pub fn new(key_generator: &'a mut KG, inner: &'a sled::transaction::TransactionalTree) -> (r:
        Self)
        ensures
            r.generator() == *old(key_generator),
            r.store() == *inner,
    {
        KeyGeneratingTransactionalTree { key_generator, inner }
    }

    /// Whether the generator can mint another key.
    pub fn has_next(&self) -> (r: bool)
        ensures
            r == self.generator().can_mint(),
    {
        self.key_generator.has_next()
    }

    /// Writes `value` at a freshly minted key within the transaction and
    /// returns the key with the value seen there. The key is spent even where
    /// the write fails.
    pub fn insert(&mut self, value: &[u8]) -> (r: Result<
        (u64, Option<Vec<u8>>),
        sled::transaction::UnabortableTransactionError,
    >)
        requires
            old(self).generator().can_mint(),
        ensures
            final(self).store() == old(self).store(),
            exists|k: u64| old(self).generator().mints(k, final(self).generator()),
            r matches Ok((k, _)) ==> old(self).generator().mints(k, final(self).generator()),
    {
        let key = self.key_generator.next_key();
        assert(old(self).generator().mints(key, self.generator()));
        let bytes = key_bytes(key);
        match tx_insert(self.inner, bytes.as_slice(), value) {
            Ok(previous) => Ok((key, previous)),
            Err(e) => Err(e),
        }
    }

    /// The transaction's view of the partition, for reads within it.
    pub fn tree(&self) -> (r: &sled::transaction::TransactionalTree)
        ensures
            *r == self.store(),
    {
        self.inner
    }

    /// Replays the writes of `batch` within the transaction.
    pub fn apply_batch(&self, batch: &KeyGeneratingBatch) -> (r: Result<
        (),
        sled::transaction::UnabortableTransactionError,
    >) {
        tx_apply_batch(self.inner, &batch.inner)
    }
}

} // verus!
