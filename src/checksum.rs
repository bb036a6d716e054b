//! The XOR-fold integrity byte shared by command-queue entries and mailboxes.

use vstd::prelude::*;

verus! {

/// The XOR of every byte of `s`.
pub open spec fn xor_all(s: Seq<u8>) -> u8
    decreases s.len(),
{
    if s.len() == 0 {
        0u8
    } else {
        xor_all(s.drop_last()) ^ s.last()
    }
}

/// The fold of `s` with XOR, starting from an accumulator of `0xff`.
pub open spec fn fold(s: Seq<u8>) -> u8 {
    0xffu8 ^ xor_all(s)
}

/// Replacing the byte at `p` by `v` changes the XOR of all bytes by the old
/// byte and the new one.
pub proof fn lemma_xor_all_update(s: Seq<u8>, p: int, v: u8)
    requires
        0 <= p < s.len(),
    ensures
        xor_all(s.update(p, v)) == xor_all(s) ^ s[p] ^ v,
    decreases s.len(),
{
    let t = s.update(p, v);
    if p == s.len() - 1 {
        assert(t.drop_last() =~= s.drop_last());
        let x = xor_all(s.drop_last());
        let sp = s[p];
        assert(x ^ v == (x ^ sp) ^ sp ^ v) by (bit_vector);
    } else {
        assert(t.drop_last() =~= s.drop_last().update(p, v));
        lemma_xor_all_update(s.drop_last(), p, v);
        let x = xor_all(s.drop_last());
        let l = s.last();
        let sp = s[p];
        assert((x ^ sp ^ v) ^ l == (x ^ l) ^ sp ^ v) by (bit_vector);
    }
}

/// The XOR of a concatenation is the XOR of the XORs of its parts.
pub proof fn lemma_xor_all_concat(a: Seq<u8>, b: Seq<u8>)
    ensures
        xor_all(a + b) == xor_all(a) ^ xor_all(b),
    decreases b.len(),
{
    if b.len() == 0 {
        assert(a + b =~= a);
        let x = xor_all(a);
        assert(x == x ^ 0u8) by (bit_vector);
    } else {
        assert((a + b).drop_last() =~= a + b.drop_last());
        lemma_xor_all_concat(a, b.drop_last());
        let x = xor_all(a);
        let y = xor_all(b.drop_last());
        let l = b.last();
        assert((x ^ y) ^ l == x ^ (y ^ l)) by (bit_vector);
    }
}

/// Storing at `p` the fold of `s` with that byte zeroed makes the fold of
/// the whole structure zero: the stored byte verifies all the others.
pub proof fn lemma_signature_self_verifies(s: Seq<u8>, p: int)
    requires
        0 <= p < s.len(),
    ensures
        fold(s.update(p, 0).update(p, fold(s.update(p, 0)))) == 0,
{
    let z = s.update(p, 0);
    lemma_xor_all_update(z, p, fold(z));
    let x = xor_all(z);
    assert(0xffu8 ^ (x ^ 0u8 ^ (0xffu8 ^ x)) == 0u8) by (bit_vector);
}

/// Folds `bytes[lo..hi]` with XOR from `0xff`.
pub fn fold_range(bytes: &Vec<u8>, lo: usize, hi: usize) -> (r: u8)
    requires
        lo <= hi <= bytes@.len(),
    ensures
        r == fold(bytes@.subrange(lo as int, hi as int)),
{
    let mut acc: u8 = 0xff;
    let mut i: usize = lo;
    assert(bytes@.subrange(lo as int, lo as int) =~= Seq::<u8>::empty());
    assert(0xffu8 ^ 0u8 == 0xffu8) by (bit_vector);
    while i < hi
        invariant
            lo <= i <= hi <= bytes@.len(),
            acc == fold(bytes@.subrange(lo as int, i as int)),
        decreases hi - i,
    {
        let b = bytes[i];
        proof {
            let prev = bytes@.subrange(lo as int, i as int);
            assert(bytes@.subrange(lo as int, i + 1).drop_last() =~= prev);
            let x = xor_all(prev);
            assert((0xffu8 ^ x) ^ b == 0xffu8 ^ (x ^ b)) by (bit_vector);
        }
        acc = acc ^ b;
        i = i + 1;
    }
    acc
}

} // verus!
