//! The 64-byte command-queue entry: the single slot through which a command
//! and its reply travel.

use vstd::prelude::*;

use crate::checksum::{fold, fold_range, lemma_signature_self_verifies};
use crate::wire::{
    be32, be64, push_be32, push_be64, push_zeros, splice, write_be32_at, write_be64_at,
    write_bytes_at, zeros,
};

verus! {

/// Size of a command-queue entry in bytes.
pub const CQE_SIZE: usize = 0x40;

pub const CQE_CMD_TYPE: usize = 0x00;

pub const CQE_INPUT_LENGTH: usize = 0x04;

pub const CQE_INPUT_MB_PTR: usize = 0x08;

pub const CQE_INPUT_INLINE: usize = 0x10;

pub const CQE_OUTPUT_INLINE: usize = 0x20;

pub const CQE_OUTPUT_MB_PTR: usize = 0x30;

pub const CQE_OUTPUT_LENGTH: usize = 0x38;

pub const CQE_TOKEN: usize = 0x3c;

pub const CQE_SIGNATURE: usize = 0x3d;

pub const CQE_STATUS: usize = 0x3f;

/// Number of command bytes carried inline in the entry (and of reply bytes).
pub const INLINE_LEN: usize = 0x10;

/// An image of one command-queue entry, byte for byte as the device sees it.
pub struct CQE {
    pub bytes: Vec<u8>,
}

impl View for CQE {
    type V = Seq<u8>;

    open spec fn view(&self) -> Seq<u8> {
        self.bytes@
    }
}

impl CQE {
    /// Every entry is exactly 64 bytes long.
    pub open spec fn wf(&self) -> bool {
        self@.len() == CQE_SIZE
    }

    /// An all-zero entry.
    pub fn new() -> (r: CQE)
        ensures
            r.wf(),
            r@ == zeros(CQE_SIZE as nat),
    {
        let mut bytes: Vec<u8> = Vec::new();
        crate::wire::push_zeros(&mut bytes, CQE_SIZE);
        assert(bytes@ =~= Seq::<u8>::empty() + zeros(CQE_SIZE as nat));
        CQE { bytes }
    }

    /// The unsigned entry of a command of `input_length` bytes whose first
    /// 16 are `inline`, with its input chain at `in_ptr`, a reply of
    /// `output_length` bytes expected in a chain at `out_ptr` (0 for no
    /// chain), token 0, and the device as owner.
    pub open spec fn layout(
        input_length: u32,
        in_ptr: u64,
        inline: Seq<u8>,
        out_ptr: u64,
        output_length: u32,
        status: u8,
    ) -> Seq<u8> {
        seq![0x07u8, 0, 0, 0] + be32(input_length) + be64(in_ptr) + inline + zeros(INLINE_LEN as nat)
            + be64(out_ptr) + be32(output_length) + seq![0u8, 0, 0, status]
    }

    /// Lays out every field of an entry at once; see `layout`.
    pub fn from_fields(
        input_length: u32,
        in_ptr: u64,
        inline: &[u8],
        out_ptr: u64,
        output_length: u32,
        status: u8,
    ) -> (r: CQE)
        requires
            inline@.len() == INLINE_LEN,
        ensures
            r.wf(),
            r@ == Self::layout(input_length, in_ptr, inline@, out_ptr, output_length, status),
    {
        let mut v: Vec<u8> = Vec::new();
        v.push(0x07u8);
        push_zeros(&mut v, 3);
        push_be32(&mut v, input_length);
        push_be64(&mut v, in_ptr);
        let mut i: usize = 0;
        let ghost prefix = v@;
        while i < INLINE_LEN
            invariant
                i <= INLINE_LEN,
                inline@.len() == INLINE_LEN,
                v@ == prefix + inline@.subrange(0, i as int),
            decreases INLINE_LEN - i,
        {
            v.push(inline[i]);
            i = i + 1;
            assert(v@ =~= prefix + inline@.subrange(0, i as int));
        }
        assert(inline@.subrange(0, INLINE_LEN as int) =~= inline@);
        push_zeros(&mut v, INLINE_LEN);
        push_be64(&mut v, out_ptr);
        push_be32(&mut v, output_length);
        push_zeros(&mut v, 3);
        v.push(status);
        assert(v@ =~= Self::layout(input_length, in_ptr, inline@, out_ptr, output_length, status));
        CQE { bytes: v }
    }

    /// An entry read back from device memory; `None` unless it is 64 bytes.
    pub fn from_bytes(bytes: Vec<u8>) -> (r: Option<CQE>)
        ensures
            r is Some <==> bytes@.len() == CQE_SIZE,
            r matches Some(c) ==> c@ == bytes@ && c.wf(),
    {
        if bytes.len() == CQE_SIZE {
            Some(CQE { bytes })
        } else {
            None
        }
    }

    /// The bytes of the entry.
    pub fn as_bytes(&self) -> (r: &Vec<u8>)
        ensures
            r@ == self@,
    {
        &self.bytes
    }

    pub fn set_cmd_type(&mut self, t: u8)
        requires
            old(self).wf(),
        ensures
            final(self).wf(),
            final(self)@ == old(self)@.update(CQE_CMD_TYPE as int, t),
    {
        self.bytes.set(CQE_CMD_TYPE, t);
    }

    pub fn set_token(&mut self, t: u8)
        requires
            old(self).wf(),
        ensures
            final(self).wf(),
            final(self)@ == old(self)@.update(CQE_TOKEN as int, t),
    {
        self.bytes.set(CQE_TOKEN, t);
    }

    pub fn set_status(&mut self, s: u8)
        requires
            old(self).wf(),
        ensures
            final(self).wf(),
            final(self)@ == old(self)@.update(CQE_STATUS as int, s),
    {
        self.bytes.set(CQE_STATUS, s);
    }

    /// The status byte: bit 0 is set while the device owns the entry, bits
    /// 1 to 7 hold the transport error code.
    pub fn status(&self) -> (r: u8)
        requires
            self.wf(),
        ensures
            r == self@[CQE_STATUS as int],
    {
        self.bytes[CQE_STATUS]
    }

    /// Stores the input length, big-endian.
    pub fn set_input_length(&mut self, len: u32)
        requires
            old(self).wf(),
        ensures
            final(self).wf(),
            final(self)@ == splice(old(self)@, CQE_INPUT_LENGTH as int, be32(len)),
    {
        write_be32_at(&mut self.bytes, CQE_INPUT_LENGTH, len);
    }

    /// Stores the output length, big-endian.
    pub fn set_output_length(&mut self, len: u32)
        requires
            old(self).wf(),
        ensures
            final(self).wf(),
            final(self)@ == splice(old(self)@, CQE_OUTPUT_LENGTH as int, be32(len)),
    {
        write_be32_at(&mut self.bytes, CQE_OUTPUT_LENGTH, len);
    }

    /// Stores the first 16 bytes of the command.
    pub fn set_input_inline(&mut self, data: &[u8])
        requires
            old(self).wf(),
            data@.len() == INLINE_LEN,
        ensures
            final(self).wf(),
            final(self)@ == splice(old(self)@, CQE_INPUT_INLINE as int, data@),
    {
        write_bytes_at(&mut self.bytes, CQE_INPUT_INLINE, data);
    }

    /// Zeroes the 16 inline reply bytes.
    pub fn clear_output_inline(&mut self)
        requires
            old(self).wf(),
        ensures
            final(self).wf(),
            final(self)@ == splice(old(self)@, CQE_OUTPUT_INLINE as int, zeros(INLINE_LEN as nat)),
    {
        let z: [u8; 16] = [0u8; 16];
        assert(z@ =~= zeros(INLINE_LEN as nat));
        write_bytes_at(&mut self.bytes, CQE_OUTPUT_INLINE, &z);
    }

    /// The 16 inline reply bytes.
    pub fn output_inline(&self) -> (r: Vec<u8>)
        requires
            self.wf(),
        ensures
            r@ == self@.subrange(CQE_OUTPUT_INLINE as int, CQE_OUTPUT_INLINE + INLINE_LEN),
    {
        let mut r: Vec<u8> = Vec::new();
        let mut i: usize = CQE_OUTPUT_INLINE;
        while i < CQE_OUTPUT_INLINE + INLINE_LEN
            invariant
                self.wf(),
                CQE_OUTPUT_INLINE <= i <= CQE_OUTPUT_INLINE + INLINE_LEN,
                r@ == self@.subrange(CQE_OUTPUT_INLINE as int, i as int),
            decreases CQE_OUTPUT_INLINE + INLINE_LEN - i,
        {
            r.push(self.bytes[i]);
            i = i + 1;
            assert(r@ =~= self@.subrange(CQE_OUTPUT_INLINE as int, i as int));
        }
        r
    }

    /// Points the entry at the first input mailbox (0 for none), as two
    /// big-endian words, high word first.
    pub fn set_input_mb(&mut self, ptr: u64)
        requires
            old(self).wf(),
        ensures
            final(self).wf(),
            final(self)@ == splice(old(self)@, CQE_INPUT_MB_PTR as int, be64(ptr)),
    {
        write_be64_at(&mut self.bytes, CQE_INPUT_MB_PTR, ptr);
    }

    /// Points the entry at the first output mailbox (0 for none), as two
    /// big-endian words, high word first.
    pub fn set_output_mb(&mut self, ptr: u64)
        requires
            old(self).wf(),
        ensures
            final(self).wf(),
            final(self)@ == splice(old(self)@, CQE_OUTPUT_MB_PTR as int, be64(ptr)),
    {
        write_be64_at(&mut self.bytes, CQE_OUTPUT_MB_PTR, ptr);
    }

    /// Recomputes the signature byte: the XOR-fold from `0xff` of the whole
    /// entry with the signature byte zeroed. Afterwards the fold of the
    /// whole entry is zero.
    pub fn update_signature(&mut self)
        requires
            old(self).wf(),
        ensures
            final(self).wf(),
            final(self)@ == old(self)@.update(CQE_SIGNATURE as int, 0).update(
                CQE_SIGNATURE as int,
                fold(old(self)@.update(CQE_SIGNATURE as int, 0)),
            ),
            fold(final(self)@) == 0,
    {
        self.bytes.set(CQE_SIGNATURE, 0);
        let sig = fold_range(&self.bytes, 0, CQE_SIZE);
        assert(self.bytes@.subrange(0, CQE_SIZE as int) =~= self.bytes@);
        self.bytes.set(CQE_SIGNATURE, sig);
        proof {
            lemma_signature_self_verifies(old(self)@, CQE_SIGNATURE as int);
        }
    }
}

} // verus!
