//! Big-endian byte encodings of the fixed-width integers used on the wire.

use vstd::prelude::*;

verus! {

/// The two bytes of `x`, most significant first.
pub open spec fn be16(x: u16) -> Seq<u8> {
    seq![(x >> 8u16) as u8, x as u8]
}

/// The four bytes of `x`, most significant first.
pub open spec fn be32(x: u32) -> Seq<u8> {
    seq![(x >> 24u32) as u8, (x >> 16u32) as u8, (x >> 8u32) as u8, x as u8]
}

/// The eight bytes of `x`, most significant first.
pub open spec fn be64(x: u64) -> Seq<u8> {
    be32((x >> 32u64) as u32) + be32(x as u32)
}

/// The three low bytes of `x`, most significant first.
pub open spec fn be24(x: u32) -> Seq<u8> {
    seq![(x >> 16u32) as u8, (x >> 8u32) as u8, x as u8]
}

/// The number whose big-endian bytes are `s[0]`, `s[1]`.
pub open spec fn from_be16(s: Seq<u8>) -> u16 {
    ((s[0] as u16) << 8u16) | (s[1] as u16)
}

/// The number whose big-endian bytes are `s[0..4]`.
pub open spec fn from_be32(s: Seq<u8>) -> u32 {
    ((s[0] as u32) << 24u32) | ((s[1] as u32) << 16u32) | ((s[2] as u32) << 8u32) | (s[3] as u32)
}

/// The number whose big-endian bytes are `s[0..3]`.
pub open spec fn from_be24(s: Seq<u8>) -> u32 {
    ((s[0] as u32) << 16u32) | ((s[1] as u32) << 8u32) | (s[2] as u32)
}

/// The number whose big-endian bytes are `s[0..8]`.
pub open spec fn from_be64(s: Seq<u8>) -> u64 {
    ((from_be32(s.subrange(0, 4)) as u64) << 32u64) | (from_be32(s.subrange(4, 8)) as u64)
}

/// `n` zero bytes.
pub open spec fn zeros(n: nat) -> Seq<u8> {
    Seq::new(n, |i: int| 0u8)
}

pub proof fn lemma_be16_round_trip(x: u16)
    ensures
        from_be16(be16(x)) == x,
{
    let a = (x >> 8u16) as u8;
    let b = x as u8;
    assert((((a as u16) << 8u16) | (b as u16)) == x) by (bit_vector)
        requires
            a == (x >> 8u16) as u8,
            b == x as u8,
    ;
}

pub proof fn lemma_be32_round_trip(x: u32)
    ensures
        from_be32(be32(x)) == x,
{
    let a = (x >> 24u32) as u8;
    let b = (x >> 16u32) as u8;
    let c = (x >> 8u32) as u8;
    let d = x as u8;
    assert((((a as u32) << 24u32) | ((b as u32) << 16u32) | ((c as u32) << 8u32) | (d as u32))
        == x) by (bit_vector)
        requires
            a == (x >> 24u32) as u8,
            b == (x >> 16u32) as u8,
            c == (x >> 8u32) as u8,
            d == x as u8,
    ;
}

pub proof fn lemma_be24_round_trip(x: u32)
    requires
        x < 0x100_0000,
    ensures
        from_be24(be24(x)) == x,
{
    let a = (x >> 16u32) as u8;
    let b = (x >> 8u32) as u8;
    let c = x as u8;
    assert((((a as u32) << 16u32) | ((b as u32) << 8u32) | (c as u32)) == x) by (bit_vector)
        requires
            x < 0x100_0000,
            a == (x >> 16u32) as u8,
            b == (x >> 8u32) as u8,
            c == x as u8,
    ;
}

pub proof fn lemma_be64_round_trip(x: u64)
    ensures
        from_be64(be64(x)) == x,
{
    let hi = (x >> 32u64) as u32;
    let lo = x as u32;
    assert(be64(x).subrange(0, 4) =~= be32(hi));
    assert(be64(x).subrange(4, 8) =~= be32(lo));
    lemma_be32_round_trip(hi);
    lemma_be32_round_trip(lo);
    assert((((hi as u64) << 32u64) | (lo as u64)) == x) by (bit_vector)
        requires
            hi == (x >> 32u64) as u32,
            lo == x as u32,
    ;
}

/// Appends the big-endian bytes of `x`.
pub fn push_be16(v: &mut Vec<u8>, x: u16)
    ensures
        final(v)@ == old(v)@ + be16(x),
{
    v.push((x >> 8u16) as u8);
    v.push(x as u8);
    assert(final(v)@ =~= old(v)@ + be16(x));
}

/// Appends the big-endian bytes of `x`.
pub fn push_be32(v: &mut Vec<u8>, x: u32)
    ensures
        final(v)@ == old(v)@ + be32(x),
{
    v.push((x >> 24u32) as u8);
    v.push((x >> 16u32) as u8);
    v.push((x >> 8u32) as u8);
    v.push(x as u8);
    assert(final(v)@ =~= old(v)@ + be32(x));
}

/// Appends the three low bytes of `x`, big-endian.
pub fn push_be24(v: &mut Vec<u8>, x: u32)
    ensures
        final(v)@ == old(v)@ + be24(x),
{
    v.push((x >> 16u32) as u8);
    v.push((x >> 8u32) as u8);
    v.push(x as u8);
    assert(final(v)@ =~= old(v)@ + be24(x));
}

/// Appends the big-endian bytes of `x`.
pub fn push_be64(v: &mut Vec<u8>, x: u64)
    ensures
        final(v)@ == old(v)@ + be64(x),
{
    push_be32(v, (x >> 32u64) as u32);
    push_be32(v, x as u32);
    assert(final(v)@ =~= old(v)@ + be64(x));
}

/// Appends `n` zero bytes.
pub fn push_zeros(v: &mut Vec<u8>, n: usize)
    ensures
        final(v)@ == old(v)@ + zeros(n as nat),
{
    let ghost start = v@;
    let mut i: usize = 0;
    while i < n
        invariant
            i <= n,
            v@ == start + zeros(i as nat),
        decreases n - i,
    {
        v.push(0u8);
        i = i + 1;
        assert(v@ =~= start + zeros(i as nat));
    }
}

/// Reads a big-endian `u16` at `off`.
pub fn read_be16(b: &[u8], off: usize) -> (r: u16)
    requires
        off + 2 <= b@.len(),
    ensures
        r == from_be16(b@.subrange(off as int, off + 2)),
{
    ((b[off] as u16) << 8u16) | (b[off + 1] as u16)
}

/// Reads a big-endian 24-bit number at `off`.
pub fn read_be24(b: &[u8], off: usize) -> (r: u32)
    requires
        off + 3 <= b@.len(),
    ensures
        r == from_be24(b@.subrange(off as int, off + 3)),
        r < 0x100_0000,
{
    let x = b[off];
    let y = b[off + 1];
    let z = b[off + 2];
    assert((((x as u32) << 16u32) | ((y as u32) << 8u32) | (z as u32)) < 0x100_0000) by (bit_vector);
    ((x as u32) << 16u32) | ((y as u32) << 8u32) | (z as u32)
}

/// Reads a big-endian `u32` at `off`.
pub fn read_be32(b: &[u8], off: usize) -> (r: u32)
    requires
        off + 4 <= b@.len(),
    ensures
        r == from_be32(b@.subrange(off as int, off + 4)),
{
    ((b[off] as u32) << 24u32) | ((b[off + 1] as u32) << 16u32) | ((b[off + 2] as u32) << 8u32) | (
    b[off + 3] as u32)
}

/// Reads a big-endian `u64` at `off`.
pub fn read_be64(b: &[u8], off: usize) -> (r: u64)
    requires
        off + 8 <= b@.len(),
    ensures
        r == from_be64(b@.subrange(off as int, off + 8)),
{
    let _n = b.len();
    let hi = read_be32(b, off);
    let lo = read_be32(b, off + 4);
    assert(b@.subrange(off as int, off + 8).subrange(0, 4) =~= b@.subrange(off as int, off + 4));
    assert(b@.subrange(off as int, off + 8).subrange(4, 8) =~= b@.subrange(off + 4, off + 8));
    ((hi as u64) << 32u64) | (lo as u64)
}

/// `s` with the bytes from `off` on replaced by `t`.
pub open spec fn splice(s: Seq<u8>, off: int, t: Seq<u8>) -> Seq<u8> {
    s.subrange(0, off) + t + s.subrange(off + t.len(), s.len() as int)
}

/// Overwrites `v[off..off + src.len()]` with `src`.
pub fn write_bytes_at(v: &mut Vec<u8>, off: usize, src: &[u8])
    requires
        off + src@.len() <= old(v)@.len(),
    ensures
        final(v)@ == splice(old(v)@, off as int, src@),
{
    let ghost orig = v@;
    let _n = v.len();
    let mut i: usize = 0;
    while i < src.len()
        invariant
            i <= src@.len(),
            off + src@.len() <= orig.len(),
            orig.len() == _n,
            v@ == splice(orig, off as int, src@.subrange(0, i as int)),
        decreases src@.len() - i,
    {
        v.set(off + i, src[i]);
        i = i + 1;
        assert(v@ =~= splice(orig, off as int, src@.subrange(0, i as int)));
    }
    assert(src@.subrange(0, src@.len() as int) =~= src@);
}

/// Overwrites four bytes at `off` with the big-endian bytes of `x`.
pub fn write_be32_at(v: &mut Vec<u8>, off: usize, x: u32)
    requires
        off + 4 <= old(v)@.len(),
    ensures
        final(v)@ == splice(old(v)@, off as int, be32(x)),
{
    let ghost orig = v@;
    let _n = v.len();
    v.set(off, (x >> 24u32) as u8);
    v.set(off + 1, (x >> 16u32) as u8);
    v.set(off + 2, (x >> 8u32) as u8);
    v.set(off + 3, x as u8);
    assert(v@ =~= splice(orig, off as int, be32(x)));
}

/// Overwrites eight bytes at `off` with the big-endian bytes of `x`.
pub fn write_be64_at(v: &mut Vec<u8>, off: usize, x: u64)
    requires
        off + 8 <= old(v)@.len(),
    ensures
        final(v)@ == splice(old(v)@, off as int, be64(x)),
{
    let ghost orig = v@;
    let _n = v.len();
    write_be32_at(v, off, (x >> 32u64) as u32);
    write_be32_at(v, off + 4, x as u32);
    assert(v@ =~= splice(orig, off as int, be64(x)));
}

/// The big-endian bytes of each of `items`, in order.
pub open spec fn be64_seq(items: Seq<u64>) -> Seq<u8>
    decreases items.len(),
{
    if items.len() == 0 {
        Seq::empty()
    } else {
        be64_seq(items.drop_last()) + be64(items.last())
    }
}

/// The numbers read from `n` consecutive big-endian words of `b` at `off`.
pub open spec fn words64(b: Seq<u8>, off: int, n: nat) -> Seq<u64> {
    Seq::new(n, |i: int| from_be64(b.subrange(off + 8 * i, off + 8 * i + 8)))
}

pub proof fn lemma_be64_seq_len(items: Seq<u64>)
    ensures
        be64_seq(items).len() == 8 * items.len(),
    decreases items.len(),
{
    if items.len() > 0 {
        lemma_be64_seq_len(items.drop_last());
    }
}

/// Word `i` of the encoding is the encoding of item `i`.
pub proof fn lemma_be64_seq_index(items: Seq<u64>, i: int)
    requires
        0 <= i < items.len(),
    ensures
        be64_seq(items).subrange(8 * i, 8 * i + 8) == be64(items[i]),
    decreases items.len(),
{
    let p = items.drop_last();
    lemma_be64_seq_len(p);
    if i == items.len() - 1 {
        assert(be64_seq(items).subrange(8 * i, 8 * i + 8) =~= be64(items[i]));
    } else {
        lemma_be64_seq_index(p, i);
        assert(be64_seq(items).subrange(8 * i, 8 * i + 8) =~= be64_seq(p).subrange(8 * i, 8 * i + 8));
    }
}

/// Reading back the words of an encoding placed at `off` gives the items.
pub proof fn lemma_words64_round_trip(pre: Seq<u8>, items: Seq<u64>, post: Seq<u8>)
    ensures
        words64(pre + be64_seq(items) + post, pre.len() as int, items.len()) == items,
{
    let b = pre + be64_seq(items) + post;
    lemma_be64_seq_len(items);
    assert forall|i: int| 0 <= i < items.len() implies #[trigger] words64(
        b,
        pre.len() as int,
        items.len(),
    )[i] == items[i] by {
        lemma_be64_seq_index(items, i);
        let o = pre.len() + 8 * i;
        assert(b.subrange(o, o + 8) =~= be64_seq(items).subrange(8 * i, 8 * i + 8));
        lemma_be64_round_trip(items[i]);
    }
    assert(words64(b, pre.len() as int, items.len()) =~= items);
}

/// Appends the big-endian bytes of each of `items`.
pub fn push_be64_seq(v: &mut Vec<u8>, items: &[u64])
    ensures
        final(v)@ == old(v)@ + be64_seq(items@),
{
    let ghost start = v@;
    let mut i: usize = 0;
    while i < items.len()
        invariant
            i <= items@.len(),
            v@ == start + be64_seq(items@.subrange(0, i as int)),
        decreases items@.len() - i,
    {
        push_be64(v, items[i]);
        i = i + 1;
        assert(items@.subrange(0, i as int).drop_last() =~= items@.subrange(0, i - 1));
        assert(v@ =~= start + be64_seq(items@.subrange(0, i as int)));
    }
    assert(items@.subrange(0, items@.len() as int) =~= items@);
}

/// Reads `n` consecutive big-endian words at `off`.
pub fn read_be64_seq(b: &[u8], off: usize, n: usize) -> (r: Vec<u64>)
    requires
        off + 8 * n <= b@.len(),
    ensures
        r@ == words64(b@, off as int, n as nat),
{
    let mut r: Vec<u64> = Vec::new();
    let _len = b.len();
    let mut i: usize = 0;
    while i < n
        invariant
            i <= n,
            off + 8 * n <= b@.len(),
            b@.len() == _len,
            r@ == words64(b@, off as int, i as nat),
        decreases n - i,
    {
        assert(off + 8 * i + 8 <= off + 8 * n) by (nonlinear_arith)
            requires
                i < n,
        ;
        let x = read_be64(b, off + 8 * i);
        r.push(x);
        i = i + 1;
        assert(r@ =~= words64(b@, off as int, i as nat));
    }
    r
}

} // verus!
