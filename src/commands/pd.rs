//! Allocating a protection domain.

use vstd::prelude::*;

use super::hca::{decode_opcode_only, encode_opcode_only, is_opcode_only, opcode_only};
use super::{base_of, base_valid, encode_base, lemma_base_round_trip, push_base, read_base};
use super::{BaseOutput, Command, Wire};
use crate::wire::{be24, from_be24, lemma_be24_round_trip, push_be24, read_be24};

verus! {

pub const OP_ALLOC_PD: u16 = 0x0800;

#[derive(Clone, Copy, Debug)]
pub struct AllocPD {}

/// The reply carries the 24-bit index of the new protection domain.
#[derive(PartialEq, Eq, Structural, Clone, Copy, Debug)]
pub struct AllocPDOutput {
    pub base: BaseOutput,
    pub pd: u32,
}

impl View for AllocPD {
    type V = AllocPD;

    open spec fn view(&self) -> AllocPD {
        *self
    }
}

impl Wire for AllocPD {
    open spec fn valid(v: AllocPD) -> bool {
        true
    }

    open spec fn spec_encode(v: AllocPD) -> Seq<u8> {
        opcode_only(OP_ALLOC_PD)
    }

    open spec fn spec_decode(b: Seq<u8>) -> Option<AllocPD> {
        if is_opcode_only(b, OP_ALLOC_PD) {
            Some(AllocPD {  })
        } else {
            None
        }
    }

    proof fn lemma_round_trip(v: AllocPD) {
    }

    fn to_bytes(&self) -> (r: Vec<u8>) {
        encode_opcode_only(OP_ALLOC_PD)
    }

    fn from_bytes(b: &[u8]) -> (r: Option<Self>) {
        if decode_opcode_only(b, OP_ALLOC_PD) {
            Some(AllocPD {  })
        } else {
            None
        }
    }
}

impl Command for AllocPD {
    type Output = AllocPDOutput;

    open spec fn spec_outlen(v: AllocPD) -> nat {
        0x10
    }

    fn size(&self) -> (r: usize) {
        0x10
    }

    fn outlen(&self) -> (r: usize) {
        0x10
    }
}

impl View for AllocPDOutput {
    type V = AllocPDOutput;

    open spec fn view(&self) -> AllocPDOutput {
        *self
    }
}

impl Wire for AllocPDOutput {
    open spec fn valid(v: AllocPDOutput) -> bool {
        base_valid(v.base) && v.pd < 0x100_0000
    }

    open spec fn spec_encode(v: AllocPDOutput) -> Seq<u8> {
        encode_base(v.base) + seq![0u8] + be24(v.pd)
    }

    open spec fn spec_decode(b: Seq<u8>) -> Option<AllocPDOutput> {
        if b.len() >= 12 {
            Some(AllocPDOutput { base: base_of(b), pd: from_be24(b.subrange(9, 12)) })
        } else {
            None
        }
    }

    proof fn lemma_round_trip(v: AllocPDOutput) {
        let b = Self::spec_encode(v);
        lemma_base_round_trip(v.base, b.subrange(8, 12));
        assert(b =~= encode_base(v.base) + b.subrange(8, 12));
        assert(b.subrange(9, 12) =~= be24(v.pd));
        lemma_be24_round_trip(v.pd);
    }

    fn to_bytes(&self) -> (r: Vec<u8>) {
        let mut v: Vec<u8> = Vec::new();
        push_base(&mut v, &self.base);
        v.push(0u8);
        push_be24(&mut v, self.pd);
        assert(v@ =~= Self::spec_encode(self@));
        v
    }

    fn from_bytes(b: &[u8]) -> (r: Option<Self>) {
        if b.len() >= 12 {
            Some(AllocPDOutput { base: read_base(b), pd: read_be24(b, 9) })
        } else {
            None
        }
    }
}

pub const OP_DEALLOC_PD: u16 = 0x0801;

/// Releases protection domain `pd`: the opcode with fourteen zero bytes, then
/// the 24-bit index after one reserved byte.
#[derive(PartialEq, Eq, Structural, Clone, Copy, Debug)]
pub struct DeallocPD {
    pub pd: u32,
}

#[derive(PartialEq, Eq, Structural, Clone, Copy, Debug)]
pub struct DeallocPDOutput {
    pub base: BaseOutput,
}

impl View for DeallocPD {
    type V = DeallocPD;

    open spec fn view(&self) -> DeallocPD {
        *self
    }
}

impl Wire for DeallocPD {
    open spec fn valid(v: DeallocPD) -> bool {
        v.pd < 0x100_0000
    }

    open spec fn spec_encode(v: DeallocPD) -> Seq<u8> {
        opcode_only(OP_DEALLOC_PD) + seq![0u8] + be24(v.pd)
    }

    open spec fn spec_decode(b: Seq<u8>) -> Option<DeallocPD> {
        if b.len() >= 20 && is_opcode_only(b.subrange(0, 16), OP_DEALLOC_PD) {
            Some(DeallocPD { pd: from_be24(b.subrange(17, 20)) })
        } else {
            None
        }
    }

    proof fn lemma_round_trip(v: DeallocPD) {
        let b = Self::spec_encode(v);
        assert(b.subrange(0, 16) =~= opcode_only(OP_DEALLOC_PD));
        assert(b.subrange(17, 20) =~= be24(v.pd));
        lemma_be24_round_trip(v.pd);
    }

    fn to_bytes(&self) -> (r: Vec<u8>) {
        let mut v = encode_opcode_only(OP_DEALLOC_PD);
        v.push(0u8);
        push_be24(&mut v, self.pd);
        assert(v@ =~= Self::spec_encode(self@));
        v
    }

    fn from_bytes(b: &[u8]) -> (r: Option<Self>) {
        if b.len() < 20 {
            return None;
        }
        if decode_opcode_only(&b[0..16], OP_DEALLOC_PD) {
            Some(DeallocPD { pd: read_be24(b, 17) })
        } else {
            None
        }
    }
}

impl Command for DeallocPD {
    type Output = DeallocPDOutput;

    open spec fn spec_outlen(v: DeallocPD) -> nat {
        0x10
    }

    fn size(&self) -> (r: usize) {
        20
    }

    fn outlen(&self) -> (r: usize) {
        0x10
    }
}

impl View for DeallocPDOutput {
    type V = DeallocPDOutput;

    open spec fn view(&self) -> DeallocPDOutput {
        *self
    }
}

impl Wire for DeallocPDOutput {
    open spec fn valid(v: DeallocPDOutput) -> bool {
        base_valid(v.base)
    }

    open spec fn spec_encode(v: DeallocPDOutput) -> Seq<u8> {
        encode_base(v.base)
    }

    open spec fn spec_decode(b: Seq<u8>) -> Option<DeallocPDOutput> {
        if b.len() >= 8 {
            Some(DeallocPDOutput { base: base_of(b) })
        } else {
            None
        }
    }

    proof fn lemma_round_trip(v: DeallocPDOutput) {
        lemma_base_round_trip(v.base, Seq::empty());
        assert(encode_base(v.base) + Seq::<u8>::empty() =~= encode_base(v.base));
    }

    fn to_bytes(&self) -> (r: Vec<u8>) {
        let mut v: Vec<u8> = Vec::new();
        push_base(&mut v, &self.base);
        v
    }

    fn from_bytes(b: &[u8]) -> (r: Option<Self>) {
        if b.len() >= 8 {
            Some(DeallocPDOutput { base: read_base(b) })
        } else {
            None
        }
    }
}

} // verus!
