//! What holds of the keys that a run of mints hands out.
use vstd::prelude::*;
use crate::key::{key_seq, lemma_key_seq_injective};
use crate::key_generating::{Counter, KeyGenerating, counter_after};

verus! {

/// `keys` are the keys that a generator handed out, one per step, passing
/// through `states`.
pub open spec fn is_mint_run<KG: KeyGenerating>(states: Seq<KG>, keys: Seq<u64>) -> bool {
    &&& states.len() == keys.len() + 1
    &&& forall|i: int| 0 <= i < keys.len() ==> states[i].mints(#[trigger] keys[i], states[i + 1])
}

/// Along a run of mints, no key becomes fresh again.
proof fn lemma_fresh_shrinks<KG: KeyGenerating>(states: Seq<KG>, keys: Seq<u64>, i: int, j: int, x: u64)
    requires
        is_mint_run(states, keys),
        0 <= i <= j < states.len(),
        states[j].is_fresh(x),
    ensures
        states[i].is_fresh(x),
    decreases j - i,
{
    if i < j {
        states[j - 1].lemma_mints_fresh(keys[j - 1], states[j]);
        lemma_fresh_shrinks(states, keys, i, j - 1, x);
    }
}

/// A generator never hands out the same key twice, however many keys it
/// mints.
pub proof fn lemma_minted_keys_distinct<KG: KeyGenerating>(states: Seq<KG>, keys: Seq<u64>)
    requires
        is_mint_run(states, keys),
    ensures
        forall|i: int, j: int| 0 <= i < j < keys.len() ==> keys[i] != keys[j],
{
    assert forall|i: int, j: int| 0 <= i < j < keys.len() implies keys[i] != keys[j] by {
        states[i].lemma_mints_fresh(keys[i], states[i + 1]);
        states[j].lemma_mints_fresh(keys[j], states[j + 1]);
        if keys[i] == keys[j] {
            lemma_fresh_shrinks(states, keys, i + 1, j, keys[j]);
        }
    }
}

/// Every key that a generator mints lies above the greatest key that the
/// partition held when the generator was set up.
pub proof fn lemma_minted_keys_above_seed<KG: KeyGenerating>(
    states: Seq<KG>,
    keys: Seq<u64>,
    last: u64,
)
    requires
        is_mint_run(states, keys),
        states[0].starts(Some(last)),
    ensures
        forall|i: int| 0 <= i < keys.len() ==> keys[i] > last,
{
    assert forall|i: int| 0 <= i < keys.len() implies keys[i] > last by {
        states[i].lemma_mints_fresh(keys[i], states[i + 1]);
        lemma_fresh_shrinks(states, keys, 0, i, keys[i]);
        if keys[i] <= last {
            states[0].lemma_starts_above(Some(last), keys[i]);
        }
    }
}

/// A counter that next mints `first` hands out `first, first + 1, ...`.
pub proof fn lemma_counter_consecutive(states: Seq<Counter>, keys: Seq<u64>, first: u64)
    requires
        is_mint_run(states, keys),
        states[0]@ == Some(first),
    ensures
        forall|i: int| 0 <= i < keys.len() ==> keys[i] == first + i,
{
    assert forall|i: int| 0 <= i < keys.len() implies keys[i] == first + i by {
        lemma_counter_state(states, keys, first, i);
    }
}

proof fn lemma_counter_state(states: Seq<Counter>, keys: Seq<u64>, first: u64, i: int)
    requires
        is_mint_run(states, keys),
        states[0]@ == Some(first),
        0 <= i < keys.len(),
    ensures
        first + i <= u64::MAX,
        states[i]@ == Some((first + i) as u64),
        keys[i] == first + i,
    decreases i,
{
    if i > 0 {
        lemma_counter_state(states, keys, first, i - 1);
        assert(states[i - 1].mints(keys[i - 1], states[i]));
        assert(states[i].mints(keys[i], states[i + 1]));
        assert(states[i]@ == counter_after(keys[i - 1]));
    } else {
        assert(states[0].mints(keys[0], states[1]));
    }
}

/// On a partition that held no key, a counter hands out `0, 1, ..., N - 1`
/// for its first `N` keys.
pub proof fn lemma_counter_from_empty(states: Seq<Counter>, keys: Seq<u64>)
    requires
        is_mint_run(states, keys),
        states[0].starts(None),
    ensures
        forall|i: int| 0 <= i < keys.len() ==> keys[i] == i,
{
    lemma_counter_consecutive(states, keys, 0);
}

/// On a partition whose greatest key is `last`, a counter's first key is
/// `last + 1`.
pub proof fn lemma_counter_after_reopen(c: Counter, last: u64, k: u64, next: Counter)
    requires
        c.starts(Some(last)),
        c.mints(k, next),
    ensures
        k == last + 1,
{
}

/// Keys minted later, as those of a transaction attempt run again after a
/// conflict, lie strictly above those minted before.
pub proof fn lemma_counter_increasing(states: Seq<Counter>, keys: Seq<u64>)
    requires
        is_mint_run(states, keys),
    ensures
        forall|i: int, j: int| 0 <= i < j < keys.len() ==> keys[i] < keys[j],
{
    if keys.len() > 0 {
        assert(states[0].mints(keys[0], states[1]));
        lemma_counter_consecutive(states, keys, keys[0]);
    }
}

/// A write at a key of the caller's choosing leaves the counter as it was, so
/// the next minted key is that same key exactly when the counter stood at it.
pub proof fn lemma_counter_explicit_key(c: Counter, explicit: u64, k: u64, next: Counter)
    requires
        c.mints(k, next),
    ensures
        k == explicit <==> c@ == Some(explicit),
{
}

/// The writes a batch holds after `keys.len()` generated inserts, starting
/// from an empty batch: `writes[i]` is the batch before the `i`-th insert.
pub open spec fn is_batch_run(writes: Seq<Map<Seq<u8>, Option<Seq<u8>>>>, keys: Seq<u64>, values: Seq<Seq<u8>>) -> bool {
    &&& writes.len() == keys.len() + 1
    &&& values.len() == keys.len()
    &&& writes[0].dom().is_empty()
    &&& forall|i: int| 0 <= i < keys.len() ==> writes[i + 1] == writes[i].insert(key_seq(#[trigger] keys[i]), Some(values[i]))
}

/// A batch filled by `M` generated inserts holds `M` writes, each value at
/// the key that was minted for it.
pub proof fn lemma_batch_of_inserts<KG: KeyGenerating>(
    states: Seq<KG>,
    keys: Seq<u64>,
    values: Seq<Seq<u8>>,
    writes: Seq<Map<Seq<u8>, Option<Seq<u8>>>>,
)
    requires
        is_mint_run(states, keys),
        is_batch_run(writes, keys, values),
    ensures
        writes.last().dom().len() == keys.len(),
        forall|i: int| 0 <= i < keys.len() ==> writes.last()[key_seq(#[trigger] keys[i])] == Some(values[i]),
{
    lemma_minted_keys_distinct(states, keys);
    lemma_batch_prefix(keys, values, writes, keys.len() as int);
}

proof fn lemma_batch_prefix(
    keys: Seq<u64>,
    values: Seq<Seq<u8>>,
    writes: Seq<Map<Seq<u8>, Option<Seq<u8>>>>,
    n: int,
)
    requires
        is_batch_run(writes, keys, values),
        forall|i: int, j: int| 0 <= i < j < keys.len() ==> keys[i] != keys[j],
        0 <= n <= keys.len(),
    ensures
        writes[n].dom().finite(),
        writes[n].dom().len() == n,
        forall|b: Seq<u8>| #[trigger] writes[n].dom().contains(b) ==> exists|i: int| 0 <= i < n && b == key_seq(keys[i]),
        forall|i: int| 0 <= i < n ==> writes[n][key_seq(#[trigger] keys[i])] == Some(values[i]),
    decreases n,
{
    if n == 0 {
        assert(writes[0].dom() =~= Set::empty());
    } else {
        lemma_batch_prefix(keys, values, writes, n - 1);
        let b = key_seq(keys[n - 1]);
        assert(writes[n] == writes[n - 1].insert(b, Some(values[n - 1])));
        if writes[n - 1].dom().contains(b) {
            let i = choose|i: int| 0 <= i < n - 1 && b == key_seq(keys[i]);
            lemma_key_seq_injective(keys[i], keys[n - 1]);
        }
        assert forall|i: int| 0 <= i < n implies writes[n][key_seq(#[trigger] keys[i])] == Some(values[i]) by {
            if i < n - 1 && key_seq(keys[i]) == b {
                lemma_key_seq_injective(keys[i], keys[n - 1]);
            }
        }
        assert forall|c: Seq<u8>| #[trigger] writes[n].dom().contains(c) implies exists|i: int| 0 <= i < n && c == key_seq(keys[i]) by {
            if c == b {
                assert(0 <= n - 1 < n && c == key_seq(keys[n - 1]));
            }
        }
    }
}

} // verus!
