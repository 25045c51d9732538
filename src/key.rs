//! The byte form of a generated key: eight bytes, most significant first, so
//! that sled's byte order on keys is the numeric order.
use vstd::prelude::*;

verus! {

/// The bytes that stand for `k` in the store.
pub open spec fn key_seq(k: u64) -> Seq<u8> {
    seq![
        (k >> 56u64) as u8,
        (k >> 48u64) as u8,
        (k >> 40u64) as u8,
        (k >> 32u64) as u8,
        (k >> 24u64) as u8,
        (k >> 16u64) as u8,
        (k >> 8u64) as u8,
        k as u8,
    ]
}

/// Two keys have the same bytes only if they are equal.
pub proof fn lemma_key_seq_injective(a: u64, b: u64)
    requires
        key_seq(a) == key_seq(b),
    ensures
        a == b,
{
    let sa = key_seq(a);
    let sb = key_seq(b);
    assert(sa[0] == sb[0] && sa[1] == sb[1] && sa[2] == sb[2] && sa[3] == sb[3]);
    assert(sa[4] == sb[4] && sa[5] == sb[5] && sa[6] == sb[6] && sa[7] == sb[7]);
    assert(a == b) by (bit_vector)
        requires
            (a >> 56u64) as u8 == (b >> 56u64) as u8,
            (a >> 48u64) as u8 == (b >> 48u64) as u8,
            (a >> 40u64) as u8 == (b >> 40u64) as u8,
            (a >> 32u64) as u8 == (b >> 32u64) as u8,
            (a >> 24u64) as u8 == (b >> 24u64) as u8,
            (a >> 16u64) as u8 == (b >> 16u64) as u8,
            (a >> 8u64) as u8 == (b >> 8u64) as u8,
            a as u8 == b as u8,
    ;
}

/// The store's bytes for key `k`.
pub fn key_bytes(k: u64) -> (r: Vec<u8>)
    ensures
        r@ == key_seq(k),
{
    let r = vec![
        (k >> 56u64) as u8,
        (k >> 48u64) as u8,
        (k >> 40u64) as u8,
        (k >> 32u64) as u8,
        (k >> 24u64) as u8,
        (k >> 16u64) as u8,
        (k >> 8u64) as u8,
        k as u8,
    ];
    assert(r@ =~= key_seq(k));
    r
}

/// The key whose bytes are `b`, or `None` where `b` is no key's bytes.
pub fn key_from_bytes(b: &[u8]) -> (r: Option<u64>)
    ensures
        r matches Some(k) ==> key_seq(k) == b@,
        r is None ==> b@.len() != 8,
{
    if b.len() != 8 {
        return None;
    }
    let b0 = b[0];
    let b1 = b[1];
    let b2 = b[2];
    let b3 = b[3];
    let b4 = b[4];
    let b5 = b[5];
    let b6 = b[6];
    let b7 = b[7];
    let k: u64 = ((b0 as u64) << 56u64) | ((b1 as u64) << 48u64) | ((b2 as u64) << 40u64) | ((
    b3 as u64) << 32u64) | ((b4 as u64) << 24u64) | ((b5 as u64) << 16u64) | ((b6 as u64)
        << 8u64) | (b7 as u64);
    assert((k >> 56u64) as u8 == b0 && (k >> 48u64) as u8 == b1 && (k >> 40u64) as u8 == b2
        && (k >> 32u64) as u8 == b3 && (k >> 24u64) as u8 == b4 && (k >> 16u64) as u8 == b5
        && (k >> 8u64) as u8 == b6 && k as u8 == b7) by (bit_vector)
        requires
            k == ((b0 as u64) << 56u64) | ((b1 as u64) << 48u64) | ((b2 as u64) << 40u64) | ((
            b3 as u64) << 32u64) | ((b4 as u64) << 24u64) | ((b5 as u64) << 16u64) | ((
            b6 as u64) << 8u64) | (b7 as u64),
    ;
    assert(key_seq(k) =~= b@);
    Some(k)
}

} // verus!
