//! Allocating a user access region.

use vstd::prelude::*;

use super::hca::{decode_opcode_only, encode_opcode_only, is_opcode_only, opcode_only};
use super::{base_of, base_valid, encode_base, lemma_base_round_trip, push_base, read_base};
use super::{BaseOutput, Command, Wire};
use crate::wire::{be24, from_be24, lemma_be24_round_trip, push_be24, read_be24};

verus! {

pub const OP_ALLOC_UAR: u16 = 0x0802;

#[derive(Clone, Copy, Debug)]
pub struct AllocUAR {}

/// The reply carries the 24-bit index of the new user access region page.
#[derive(PartialEq, Eq, Structural, Clone, Copy, Debug)]
pub struct AllocUAROutput {
    pub base: BaseOutput,
    pub uar: u32,
}

impl View for AllocUAR {
    type V = AllocUAR;

    open spec fn view(&self) -> AllocUAR {
        *self
    }
}

impl Wire for AllocUAR {
    open spec fn valid(v: AllocUAR) -> bool {
        true
    }

    open spec fn spec_encode(v: AllocUAR) -> Seq<u8> {
        opcode_only(OP_ALLOC_UAR)
    }

    open spec fn spec_decode(b: Seq<u8>) -> Option<AllocUAR> {
        if is_opcode_only(b, OP_ALLOC_UAR) {
            Some(AllocUAR {  })
        } else {
            None
        }
    }

    proof fn lemma_round_trip(v: AllocUAR) {
    }

    fn to_bytes(&self) -> (r: Vec<u8>) {
        encode_opcode_only(OP_ALLOC_UAR)
    }

    fn from_bytes(b: &[u8]) -> (r: Option<Self>) {
        if decode_opcode_only(b, OP_ALLOC_UAR) {
            Some(AllocUAR {  })
        } else {
            None
        }
    }
}

impl Command for AllocUAR {
    type Output = AllocUAROutput;

    open spec fn spec_outlen(v: AllocUAR) -> nat {
        0x10
    }

    fn size(&self) -> (r: usize) {
        0x10
    }

    fn outlen(&self) -> (r: usize) {
        0x10
    }
}

impl View for AllocUAROutput {
    type V = AllocUAROutput;

    open spec fn view(&self) -> AllocUAROutput {
        *self
    }
}

impl Wire for AllocUAROutput {
    open spec fn valid(v: AllocUAROutput) -> bool {
        base_valid(v.base) && v.uar < 0x100_0000
    }

    open spec fn spec_encode(v: AllocUAROutput) -> Seq<u8> {
        encode_base(v.base) + seq![0u8] + be24(v.uar)
    }

    open spec fn spec_decode(b: Seq<u8>) -> Option<AllocUAROutput> {
        if b.len() >= 12 {
            Some(AllocUAROutput { base: base_of(b), uar: from_be24(b.subrange(9, 12)) })
        } else {
            None
        }
    }

    proof fn lemma_round_trip(v: AllocUAROutput) {
        let b = Self::spec_encode(v);
        lemma_base_round_trip(v.base, b.subrange(8, 12));
        assert(b =~= encode_base(v.base) + b.subrange(8, 12));
        assert(b.subrange(9, 12) =~= be24(v.uar));
        lemma_be24_round_trip(v.uar);
    }

    fn to_bytes(&self) -> (r: Vec<u8>) {
        let mut v: Vec<u8> = Vec::new();
        push_base(&mut v, &self.base);
        v.push(0u8);
        push_be24(&mut v, self.uar);
        assert(v@ =~= Self::spec_encode(self@));
        v
    }

    fn from_bytes(b: &[u8]) -> (r: Option<Self>) {
        if b.len() >= 12 {
            Some(AllocUAROutput { base: read_base(b), uar: read_be24(b, 9) })
        } else {
            None
        }
    }
}

pub const OP_DEALLOC_UAR: u16 = 0x0803;

/// Releases user access region `uar`: the opcode with fourteen zero bytes, then
/// the 24-bit index after one reserved byte.
#[derive(PartialEq, Eq, Structural, Clone, Copy, Debug)]
pub struct DeallocUAR {
    pub uar: u32,
}

#[derive(PartialEq, Eq, Structural, Clone, Copy, Debug)]
pub struct DeallocUAROutput {
    pub base: BaseOutput,
}

impl View for DeallocUAR {
    type V = DeallocUAR;

    open spec fn view(&self) -> DeallocUAR {
        *self
    }
}

impl Wire for DeallocUAR {
    open spec fn valid(v: DeallocUAR) -> bool {
        v.uar < 0x100_0000
    }

    open spec fn spec_encode(v: DeallocUAR) -> Seq<u8> {
        opcode_only(OP_DEALLOC_UAR) + seq![0u8] + be24(v.uar)
    }

    open spec fn spec_decode(b: Seq<u8>) -> Option<DeallocUAR> {
        if b.len() >= 20 && is_opcode_only(b.subrange(0, 16), OP_DEALLOC_UAR) {
            Some(DeallocUAR { uar: from_be24(b.subrange(17, 20)) })
        } else {
            None
        }
    }

    proof fn lemma_round_trip(v: DeallocUAR) {
        let b = Self::spec_encode(v);
        assert(b.subrange(0, 16) =~= opcode_only(OP_DEALLOC_UAR));
        assert(b.subrange(17, 20) =~= be24(v.uar));
        lemma_be24_round_trip(v.uar);
    }

    fn to_bytes(&self) -> (r: Vec<u8>) {
        let mut v = encode_opcode_only(OP_DEALLOC_UAR);
        v.push(0u8);
        push_be24(&mut v, self.uar);
        assert(v@ =~= Self::spec_encode(self@));
        v
    }

    fn from_bytes(b: &[u8]) -> (r: Option<Self>) {
        if b.len() < 20 {
            return None;
        }
        if decode_opcode_only(&b[0..16], OP_DEALLOC_UAR) {
            Some(DeallocUAR { uar: read_be24(b, 17) })
        } else {
            None
        }
    }
}

impl Command for DeallocUAR {
    type Output = DeallocUAROutput;

    open spec fn spec_outlen(v: DeallocUAR) -> nat {
        0x10
    }

    fn size(&self) -> (r: usize) {
        20
    }

    fn outlen(&self) -> (r: usize) {
        0x10
    }
}

impl View for DeallocUAROutput {
    type V = DeallocUAROutput;

    open spec fn view(&self) -> DeallocUAROutput {
        *self
    }
}

impl Wire for DeallocUAROutput {
    open spec fn valid(v: DeallocUAROutput) -> bool {
        base_valid(v.base)
    }

    open spec fn spec_encode(v: DeallocUAROutput) -> Seq<u8> {
        encode_base(v.base)
    }

    open spec fn spec_decode(b: Seq<u8>) -> Option<DeallocUAROutput> {
        if b.len() >= 8 {
            Some(DeallocUAROutput { base: base_of(b) })
        } else {
            None
        }
    }

    proof fn lemma_round_trip(v: DeallocUAROutput) {
        lemma_base_round_trip(v.base, Seq::empty());
        assert(encode_base(v.base) + Seq::<u8>::empty() =~= encode_base(v.base));
    }

    fn to_bytes(&self) -> (r: Vec<u8>) {
        let mut v: Vec<u8> = Vec::new();
        push_base(&mut v, &self.base);
        v
    }

    fn from_bytes(b: &[u8]) -> (r: Option<Self>) {
        if b.len() >= 8 {
            Some(DeallocUAROutput { base: read_base(b) })
        } else {
            None
        }
    }
}

} // verus!
