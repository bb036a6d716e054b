//! Mailboxes: the auxiliary DMA blocks that carry the part of a command or
//! reply that does not fit inline in the command-queue entry.

use vstd::prelude::*;

use crate::checksum::{fold, fold_range, lemma_signature_self_verifies};
use crate::wire::{
    be32, be64, from_be64, lemma_be64_round_trip, splice, write_be32_at, write_be64_at,
    write_bytes_at, zeros,
};

verus! {

/// Bytes of a mailbox that the device reads and writes.
pub const MAILBOX_LEN: usize = 0x240;

/// Bytes of payload one mailbox carries.
pub const MAILBOX_DATA_LEN: usize = 0x200;

/// Spacing of mailboxes in DMA memory.
pub const MAILBOX_STRIDE: u64 = 0x400;

pub const MB_NEXT_POINTER: usize = 0x230;

pub const MB_BLOCK_NUMBER: usize = 0x238;

pub const MB_TOKEN: usize = 0x23d;

pub const MB_CTRL_SIGNATURE: usize = 0x23e;

pub const MB_SIGNATURE: usize = 0x23f;

/// Start and end of the bytes that the control signature covers.
pub const MB_CTRL_START: usize = 0x1c0;

pub const MB_CTRL_END: usize = 0x200;

/// An image of one mailbox, together with the device address it lives at.
pub struct Mailbox {
    pub addr: u64,
    pub bytes: Vec<u8>,
}

impl View for Mailbox {
    type V = Seq<u8>;

    open spec fn view(&self) -> Seq<u8> {
        self.bytes@
    }
}

/// `s` with both signature bytes recomputed: first the control signature
/// over its fixed range, then the signature over the whole block.
pub open spec fn signed(s: Seq<u8>) -> Seq<u8> {
    let z = s.update(MB_SIGNATURE as int, 0).update(MB_CTRL_SIGNATURE as int, 0);
    let c = z.update(
        MB_CTRL_SIGNATURE as int,
        fold(z.subrange(MB_CTRL_START as int, MB_CTRL_END as int)),
    );
    c.update(MB_SIGNATURE as int, fold(c.update(MB_SIGNATURE as int, 0)))
}

/// The unsigned image of a mailbox carrying `chunk`, linked to `next`,
/// numbered `number` and stamped with `token`.
pub open spec fn block_image(chunk: Seq<u8>, next: u64, number: u32, token: u8) -> Seq<u8> {
    splice(
        splice(splice(zeros(MAILBOX_LEN as nat), 0, chunk), MB_NEXT_POINTER as int, be64(next)),
        MB_BLOCK_NUMBER as int,
        be32(number),
    ).update(MB_TOKEN as int, token)
}

/// Number of mailboxes a payload of `len` bytes needs.
pub open spec fn chain_len(len: nat) -> nat {
    (len + MAILBOX_DATA_LEN as nat - 1) as nat / MAILBOX_DATA_LEN as nat
}

/// The part of a payload of `len` bytes that block `i` carries.
pub open spec fn chunk(data: Seq<u8>, i: int) -> Seq<u8> {
    let lo = i * MAILBOX_DATA_LEN;
    let hi = if lo + MAILBOX_DATA_LEN < data.len() {
        lo + MAILBOX_DATA_LEN
    } else {
        data.len() as int
    };
    data.subrange(lo, hi)
}

impl Mailbox {
    pub open spec fn wf(&self) -> bool {
        self@.len() == MAILBOX_LEN
    }

    /// An all-zero mailbox at device address `addr`.
    pub fn new(addr: u64) -> (r: Mailbox)
        ensures
            r.wf(),
            r.addr == addr,
            r@ == zeros(MAILBOX_LEN as nat),
    {
        let mut bytes: Vec<u8> = Vec::new();
        crate::wire::push_zeros(&mut bytes, MAILBOX_LEN);
        assert(bytes@ =~= Seq::<u8>::empty() + zeros(MAILBOX_LEN as nat));
        Mailbox { addr, bytes }
    }

    /// Writes `data` at the start of the payload area.
    pub fn set_data(&mut self, data: &[u8])
        requires
            old(self).wf(),
            data@.len() <= MAILBOX_DATA_LEN,
        ensures
            final(self).wf(),
            final(self).addr == old(self).addr,
            final(self)@ == splice(old(self)@, 0, data@),
    {
        write_bytes_at(&mut self.bytes, 0, data);
    }

    /// Links this block to the one at `ptr` (0 ends the chain), as two
    /// big-endian words, high word first.
    pub fn set_next(&mut self, ptr: u64)
        requires
            old(self).wf(),
        ensures
            final(self).wf(),
            final(self).addr == old(self).addr,
            final(self)@ == splice(old(self)@, MB_NEXT_POINTER as int, be64(ptr)),
    {
        write_be64_at(&mut self.bytes, MB_NEXT_POINTER, ptr);
    }

    /// Stores the block's position in its chain, big-endian.
    pub fn set_block_number(&mut self, n: u32)
        requires
            old(self).wf(),
        ensures
            final(self).wf(),
            final(self).addr == old(self).addr,
            final(self)@ == splice(old(self)@, MB_BLOCK_NUMBER as int, be32(n)),
    {
        write_be32_at(&mut self.bytes, MB_BLOCK_NUMBER, n);
    }

    pub fn set_token(&mut self, t: u8)
        requires
            old(self).wf(),
        ensures
            final(self).wf(),
            final(self).addr == old(self).addr,
            final(self)@ == old(self)@.update(MB_TOKEN as int, t),
    {
        self.bytes.set(MB_TOKEN, t);
    }

    /// The payload area of the block.
    pub fn data(&self) -> (r: Vec<u8>)
        requires
            self.wf(),
        ensures
            r@ == self@.subrange(0, MAILBOX_DATA_LEN as int),
    {
        let mut r: Vec<u8> = Vec::new();
        let mut i: usize = 0;
        while i < MAILBOX_DATA_LEN
            invariant
                self.wf(),
                i <= MAILBOX_DATA_LEN,
                r@ == self@.subrange(0, i as int),
            decreases MAILBOX_DATA_LEN - i,
        {
            r.push(self.bytes[i]);
            i = i + 1;
            assert(r@ =~= self@.subrange(0, i as int));
        }
        r
    }

    /// Recomputes the control signature over its fixed range and then the
    /// signature over the whole block, each with its own byte zeroed first.
    /// Afterwards the fold of the whole block is zero.
    pub fn update_signature(&mut self)
        requires
            old(self).wf(),
        ensures
            final(self).wf(),
            final(self).addr == old(self).addr,
            final(self)@ == signed(old(self)@),
            fold(final(self)@) == 0,
    {
        self.bytes.set(MB_SIGNATURE, 0);
        self.bytes.set(MB_CTRL_SIGNATURE, 0);
        let ctrl = fold_range(&self.bytes, MB_CTRL_START, MB_CTRL_END);
        self.bytes.set(MB_CTRL_SIGNATURE, ctrl);
        let ghost c = self.bytes@;
        self.bytes.set(MB_SIGNATURE, 0);
        let sig = fold_range(&self.bytes, 0, MAILBOX_LEN);
        assert(self.bytes@.subrange(0, MAILBOX_LEN as int) =~= self.bytes@);
        self.bytes.set(MB_SIGNATURE, sig);
        proof {
            lemma_signature_self_verifies(c, MB_SIGNATURE as int);
            assert(c.update(MB_SIGNATURE as int, 0).update(MB_SIGNATURE as int, 0) =~= c.update(
                MB_SIGNATURE as int,
                0,
            ));
        }
    }
}

/// Hands out consecutive mailbox slots from one region of DMA memory.
pub struct MailboxAllocator {
    pub base: u64,
    pub len: u64,
    pub allocation_offset: u64,
}

impl MailboxAllocator {
    pub open spec fn wf(&self) -> bool {
        &&& self.base + self.len <= u64::MAX
        &&& self.allocation_offset <= self.len
    }

    /// Device address of the next slot to be handed out.
    pub open spec fn next_addr(&self) -> int {
        self.base + self.allocation_offset
    }

    /// Number of slots still free.
    pub open spec fn room(&self) -> int {
        (self.len - self.allocation_offset) / MAILBOX_STRIDE as int
    }

    /// An allocator over the `len` bytes of DMA memory at device address
    /// `base`.
    pub fn new(base: u64, len: u64) -> (r: MailboxAllocator)
        requires
            base + len <= u64::MAX,
        ensures
            r.wf(),
            r.base == base,
            r.len == len,
            r.allocation_offset == 0,
    {
        MailboxAllocator { base, len, allocation_offset: 0 }
    }

    /// The next free slot as its offset in the region and an all-zero
    /// mailbox at its address; `None` once the region is used up.
    pub fn allocate_mailbox(&mut self) -> (r: Option<(u64, Mailbox)>)
        requires
            old(self).wf(),
        ensures
            final(self).wf(),
            final(self).base == old(self).base,
            final(self).len == old(self).len,
            r is Some <==> old(self).room() >= 1,
            r matches Some((off, mb)) ==> {
                &&& off == old(self).allocation_offset
                &&& mb.addr == old(self).next_addr()
                &&& mb.wf()
                &&& mb@ == zeros(MAILBOX_LEN as nat)
                &&& final(self).allocation_offset == old(self).allocation_offset + MAILBOX_STRIDE
            },
            r is None ==> *final(self) == *old(self),
    {
        if self.len - self.allocation_offset < MAILBOX_STRIDE {
            return None;
        }
        let off = self.allocation_offset;
        self.allocation_offset = off + MAILBOX_STRIDE;
        Some((off, Mailbox::new(self.base + off)))
    }

    /// Splits `data` into mailboxes of at most 0x200 bytes each, numbered
    /// from 0, each linked to the next (the last to 0), stamped with
    /// `token` and signed. An empty payload gives an empty chain. `None`
    /// when the region has no room for the whole chain.
    pub fn build_mailbox(&mut self, token: u8, data: &[u8]) -> (r: Option<Vec<Mailbox>>)
        requires
            old(self).wf(),
        ensures
            final(self).wf(),
            final(self).base == old(self).base,
            final(self).len == old(self).len,
            r is Some <==> old(self).room() >= chain_len(data@.len() as nat),
            r is None ==> *final(self) == *old(self),
            r matches Some(mbs) ==> {
                &&& is_chain(mbs@, old(self).next_addr(), data@, token)
                &&& final(self).allocation_offset == old(self).allocation_offset + chain_len(
                    data@.len() as nat,
                ) * MAILBOX_STRIDE
            },
    {
        let len = data.len();
        let n: usize = len / MAILBOX_DATA_LEN + if len % MAILBOX_DATA_LEN == 0 {
            0usize
        } else {
            1usize
        };
        assert(n == chain_len(len as nat)) by (nonlinear_arith)
            requires
                n == len / 512 + if len % 512 == 0 {
                    0usize
                } else {
                    1usize
                },
        ;
        if ((self.len - self.allocation_offset) / MAILBOX_STRIDE) < n as u64 {
            return None;
        }
        let ghost start = self.next_addr();
        let ghost off0 = self.allocation_offset;
        let mut mbs: Vec<Mailbox> = Vec::new();
        let mut i: usize = 0;
        while i < n
            invariant
                self.wf(),
                self.base == old(self).base,
                self.len == old(self).len,
                n == chain_len(len as nat),
                len == data@.len(),
                i <= n,
                mbs@.len() == i,
                self.allocation_offset == off0 + i * MAILBOX_STRIDE,
                start == self.base + off0,
                self.room() >= n - i,
                forall|j: int|
                    0 <= j < i ==> {
                        &&& (#[trigger] mbs@[j]).wf()
                        &&& mbs@[j].addr == start + j * MAILBOX_STRIDE
                        &&& mbs@[j]@ == signed(
                            block_image(
                                chunk(data@, j),
                                if j + 1 < n {
                                    (start + (j + 1) * MAILBOX_STRIDE) as u64
                                } else {
                                    0u64
                                },
                                j as u32,
                                token,
                            ),
                        )
                    },
            decreases n - i,
        {
            let got = self.allocate_mailbox();
            let (_, mut mb) = match got {
                Some(x) => x,
                None => {
                    return None;
                },
            };
            assert(i * 512 < len) by (nonlinear_arith)
                requires
                    i < n,
                    n == (len + 511) / 512,
            ;
            let lo = i * MAILBOX_DATA_LEN;
            let hi = if MAILBOX_DATA_LEN < len - lo {
                lo + MAILBOX_DATA_LEN
            } else {
                len
            };
            assert(lo <= hi <= len) by (nonlinear_arith)
                requires
                    lo == i * 512,
                    i < n,
                    n == (len + 511) / 512,
                    hi <= len,
                    hi == lo + 512 || hi == len,
            ;
            let next: u64 = if i + 1 < n {
                mb.addr + MAILBOX_STRIDE
            } else {
                0u64
            };
            mb.set_data(&data[lo..hi]);
            mb.set_next(next);
            mb.set_block_number(#[verifier::truncate] (i as u32));
            mb.set_token(token);
            mb.update_signature();
            mbs.push(mb);
            i = i + 1;
        }
        Some(mbs)
    }
}

/// What a chain at `start` carrying `data` stamped with `token` looks like:
/// one block per 0x200 bytes, each at the next slot, numbered in order,
/// linked to the next block (the last to 0) and signed.
pub open spec fn is_chain(mbs: Seq<Mailbox>, start: int, data: Seq<u8>, token: u8) -> bool {
    let n = chain_len(data.len());
    &&& mbs.len() == n
    &&& forall|i: int|
        0 <= i < n ==> {
            &&& (#[trigger] mbs[i]).wf()
            &&& mbs[i].addr == start + i * MAILBOX_STRIDE
            &&& mbs[i]@ == signed(
                block_image(
                    chunk(data, i),
                    if i + 1 < n {
                        (start + (i + 1) * MAILBOX_STRIDE) as u64
                    } else {
                        0u64
                    },
                    i as u32,
                    token,
                ),
            )
        }
}

/// Bytes of payload block `i` of a `len`-byte payload carries.
pub open spec fn chunk_len(len: nat, i: int) -> int {
    if (i + 1) * MAILBOX_DATA_LEN <= len {
        MAILBOX_DATA_LEN as int
    } else {
        len - i * MAILBOX_DATA_LEN
    }
}

/// The payload a chain for a `len`-byte payload carries: the first
/// `chunk_len` bytes of each block, one block after the other.
pub open spec fn chain_payload(blocks: Seq<Seq<u8>>, len: nat) -> Seq<u8>
    decreases blocks.len(),
{
    if blocks.len() == 0 {
        Seq::empty()
    } else {
        chain_payload(blocks.drop_last(), len) + blocks.last().subrange(
            0,
            chunk_len(len, blocks.len() - 1),
        )
    }
}

/// The images of a list of mailboxes.
pub open spec fn images(mbs: Seq<Mailbox>) -> Seq<Seq<u8>> {
    mbs.map_values(|m: Mailbox| m@)
}

/// Where the fields of a signed block image lie.
pub proof fn lemma_block_fields(c: Seq<u8>, next: u64, number: u32, token: u8)
    requires
        c.len() <= MAILBOX_DATA_LEN,
    ensures
        signed(block_image(c, next, number, token)).len() == MAILBOX_LEN,
        signed(block_image(c, next, number, token)).subrange(0, c.len() as int) == c,
        signed(block_image(c, next, number, token)).subrange(
            MB_NEXT_POINTER as int,
            MB_NEXT_POINTER + 8,
        ) == be64(next),
        signed(block_image(c, next, number, token)).subrange(
            MB_BLOCK_NUMBER as int,
            MB_BLOCK_NUMBER + 4,
        ) == be32(number),
        signed(block_image(c, next, number, token))[MB_TOKEN as int] == token,
{
    let s = signed(block_image(c, next, number, token));
    let a = splice(zeros(MAILBOX_LEN as nat), 0, c);
    let b = splice(a, MB_NEXT_POINTER as int, be64(next));
    let d = splice(b, MB_BLOCK_NUMBER as int, be32(number));
    assert(a.len() == MAILBOX_LEN);
    assert(b.len() == MAILBOX_LEN);
    assert(d.len() == MAILBOX_LEN);
    assert(s.subrange(0, c.len() as int) =~= c) by {
        assert forall|j: int| 0 <= j < c.len() implies s[j] == c[j] by {
            assert(a[j] == c[j]);
            assert(b[j] == a[j]);
            assert(d[j] == b[j]);
        }
    }
    assert(s.subrange(MB_NEXT_POINTER as int, MB_NEXT_POINTER + 8) =~= be64(next)) by {
        assert forall|j: int| 0 <= j < 8 implies s[MB_NEXT_POINTER + j] == be64(next)[j] by {
            assert(b[MB_NEXT_POINTER + j] == be64(next)[j]);
            assert(d[MB_NEXT_POINTER + j] == b[MB_NEXT_POINTER + j]);
        }
    }
    assert(s.subrange(MB_BLOCK_NUMBER as int, MB_BLOCK_NUMBER + 4) =~= be32(number)) by {
        assert forall|j: int| 0 <= j < 4 implies s[MB_BLOCK_NUMBER + j] == be32(number)[j] by {
            assert(d[MB_BLOCK_NUMBER + j] == be32(number)[j]);
        }
    }
}

/// A chain reassembles its payload exactly, and its next pointers lead
/// from each block to the one after it and end at 0.
pub proof fn lemma_chain_round_trip(mbs: Seq<Mailbox>, start: int, data: Seq<u8>, token: u8)
    requires
        is_chain(mbs, start, data, token),
    ensures
        mbs.len() == chain_len(data.len()),
        chain_payload(images(mbs), data.len()) == data,
        forall|i: int|
            0 <= i < mbs.len() ==> from_be64(
                (#[trigger] mbs[i])@.subrange(MB_NEXT_POINTER as int, MB_NEXT_POINTER + 8),
            ) == if i + 1 < mbs.len() {
                mbs[i + 1].addr
            } else {
                0u64
            },
{
    let n = chain_len(data.len());
    assert forall|i: int| 0 <= i < n implies #[trigger] chunk(data, i).len() == chunk_len(
        data.len(),
        i,
    ) && chunk_len(data.len(), i) <= MAILBOX_DATA_LEN by {
        assert(i * 512 < data.len()) by (nonlinear_arith)
            requires
                0 <= i < n,
                n == (data.len() + 511) / 512,
        ;
        assert((i + 1) * 512 == i * 512 + 512) by (nonlinear_arith);
    }
    lemma_payload_prefix(mbs, start, data, token, n as int);
    assert(images(mbs).subrange(0, n as int) =~= images(mbs));
    assert(data.len() <= n * 512 && (n == 0 || (n - 1) * 512 < data.len())) by (nonlinear_arith)
        requires
            n == (data.len() + 511) / 512,
    ;
    assert(data.subrange(0, data.len() as int) =~= data);
    assert forall|i: int| 0 <= i < mbs.len() implies from_be64(
        (#[trigger] mbs[i])@.subrange(MB_NEXT_POINTER as int, MB_NEXT_POINTER + 8),
    ) == if i + 1 < mbs.len() {
        mbs[i + 1].addr
    } else {
        0u64
    } by {
        let next = if i + 1 < n {
            (start + (i + 1) * MAILBOX_STRIDE) as u64
        } else {
            0u64
        };
        lemma_block_fields(chunk(data, i), next, i as u32, token);
        lemma_be64_round_trip(next);
        if i + 1 < n {
            assert(mbs[i + 1].addr == start + (i + 1) * MAILBOX_STRIDE);
        }
    }
}

/// The first `k` blocks of a chain carry the first `k` chunks of its
/// payload.
proof fn lemma_payload_prefix(mbs: Seq<Mailbox>, start: int, data: Seq<u8>, token: u8, k: int)
    requires
        is_chain(mbs, start, data, token),
        0 <= k <= mbs.len(),
        forall|i: int|
            0 <= i < mbs.len() ==> #[trigger] chunk(data, i).len() == chunk_len(data.len(), i)
                && chunk_len(data.len(), i) <= MAILBOX_DATA_LEN,
    ensures
        chain_payload(images(mbs).subrange(0, k), data.len()) == data.subrange(
            0,
            if k * 512 <= data.len() {
                k * 512
            } else {
                data.len() as int
            },
        ),
    decreases k,
{
    let n = mbs.len() as int;
    assert(n == chain_len(data.len()));
    if k == 0 {
        assert(images(mbs).subrange(0, 0) =~= Seq::<Seq<u8>>::empty());
        assert(data.subrange(0, 0) =~= Seq::<u8>::empty());
    } else {
        lemma_payload_prefix(mbs, start, data, token, k - 1);
        let i = k - 1;
        let prev = images(mbs).subrange(0, i);
        assert(images(mbs).subrange(0, k).drop_last() =~= prev);
        assert(images(mbs).subrange(0, k).last() == mbs[i]@);
        let next = if i + 1 < n {
            (start + (i + 1) * MAILBOX_STRIDE) as u64
        } else {
            0u64
        };
        assert(chunk(data, i).len() == chunk_len(data.len(), i));
        lemma_block_fields(chunk(data, i), next, i as u32, token);
        assert(i * 512 < data.len()) by (nonlinear_arith)
            requires
                0 <= i < n,
                n == (data.len() + 511) / 512,
        ;
        assert(k * 512 == i * 512 + 512) by (nonlinear_arith)
            requires
                k == i + 1,
        ;
        assert(data.subrange(0, if k * 512 <= data.len() {
            k * 512
        } else {
            data.len() as int
        }) =~= data.subrange(0, i * 512) + chunk(data, i));
    }
}

} // verus!
