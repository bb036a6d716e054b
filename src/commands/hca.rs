//! Enabling, initialising and disabling the HCA.

use vstd::prelude::*;

use super::{
    base_of, base_valid, encode_base, lemma_base_round_trip, push_base, read_base, BaseOutput,
    Command, Wire,
};
use crate::wire::{be16, push_be16, push_zeros, zeros};

verus! {

/// A request that is its opcode followed by fourteen zero bytes.
pub open spec fn opcode_only(opcode: u16) -> Seq<u8> {
    be16(opcode) + zeros(14)
}

/// Whether `b` is exactly the request for `opcode`.
pub open spec fn is_opcode_only(b: Seq<u8>, opcode: u16) -> bool {
    b == opcode_only(opcode)
}

pub fn encode_opcode_only(opcode: u16) -> (r: Vec<u8>)
    ensures
        r@ == opcode_only(opcode),
{
    let mut v: Vec<u8> = Vec::new();
    push_be16(&mut v, opcode);
    push_zeros(&mut v, 14);
    assert(v@ =~= opcode_only(opcode));
    v
}

pub fn decode_opcode_only(b: &[u8], opcode: u16) -> (r: bool)
    ensures
        r == is_opcode_only(b@, opcode),
{
    let expected = encode_opcode_only(opcode);
    if b.len() != expected.len() {
        return false;
    }
    let mut i: usize = 0;
    while i < b.len()
        invariant
            b@.len() == expected@.len(),
            expected@ == opcode_only(opcode),
            i <= b@.len(),
            forall|j: int| 0 <= j < i ==> b@[j] == expected@[j],
        decreases b@.len() - i,
    {
        if b[i] != expected[i] {
            assert(b@[i as int] != opcode_only(opcode)[i as int]);
            assert(b@ != opcode_only(opcode));
            return false;
        }
        i = i + 1;
    }
    assert(b@ =~= expected@);
    true
}

/// A reply that is its header and four reserved bytes.
pub open spec fn header_reply(x: BaseOutput) -> Seq<u8> {
    encode_base(x) + zeros(4)
}

pub open spec fn decode_header_reply(b: Seq<u8>) -> Option<BaseOutput> {
    if b.len() >= 12 {
        Some(base_of(b))
    } else {
        None
    }
}

pub fn encode_header_reply(x: &BaseOutput) -> (r: Vec<u8>)
    ensures
        r@ == header_reply(*x),
{
    let mut v: Vec<u8> = Vec::new();
    push_base(&mut v, x);
    push_zeros(&mut v, 4);
    assert(v@ =~= header_reply(*x));
    v
}

pub const OP_INIT_HCA: u16 = 0x0102;

pub const OP_ENABLE_HCA: u16 = 0x0104;

pub const OP_DISABLE_HCA: u16 = 0x0105;

/// Completes bring-up.
#[derive(Clone, Copy, Debug)]
pub struct InitHCA(pub ());

/// Starts bring-up.
#[derive(Clone, Copy, Debug)]
pub struct EnableHCA(pub ());

/// Takes the HCA down.
#[derive(Clone, Copy, Debug)]
pub struct DisableHCA(pub ());

#[derive(PartialEq, Eq, Structural, Clone, Copy, Debug)]
pub struct InitHCAOutput {
    pub base: BaseOutput,
}

#[derive(PartialEq, Eq, Structural, Clone, Copy, Debug)]
pub struct EnableHCAOutput {
    pub base: BaseOutput,
}

#[derive(PartialEq, Eq, Structural, Clone, Copy, Debug)]
pub struct DisableHCAOutput {
    pub base: BaseOutput,
}


impl View for InitHCA {
    type V = InitHCA;

    open spec fn view(&self) -> InitHCA {
        *self
    }
}

impl Wire for InitHCA {
    open spec fn valid(v: InitHCA) -> bool {
        true
    }

    open spec fn spec_encode(v: InitHCA) -> Seq<u8> {
        opcode_only(OP_INIT_HCA)
    }

    open spec fn spec_decode(b: Seq<u8>) -> Option<InitHCA> {
        if is_opcode_only(b, OP_INIT_HCA) {
            Some(InitHCA(()))
        } else {
            None
        }
    }

    proof fn lemma_round_trip(v: InitHCA) {
    }

    fn to_bytes(&self) -> (r: Vec<u8>) {
        encode_opcode_only(OP_INIT_HCA)
    }

    fn from_bytes(b: &[u8]) -> (r: Option<Self>) {
        if decode_opcode_only(b, OP_INIT_HCA) {
            Some(InitHCA(()))
        } else {
            None
        }
    }
}

impl Command for InitHCA {
    type Output = InitHCAOutput;

    open spec fn spec_outlen(v: InitHCA) -> nat {
        0x10
    }

    fn size(&self) -> (r: usize) {
        0x10
    }

    fn outlen(&self) -> (r: usize) {
        0x10
    }
}

impl View for InitHCAOutput {
    type V = InitHCAOutput;

    open spec fn view(&self) -> InitHCAOutput {
        *self
    }
}

impl Wire for InitHCAOutput {
    open spec fn valid(v: InitHCAOutput) -> bool {
        base_valid(v.base)
    }

    open spec fn spec_encode(v: InitHCAOutput) -> Seq<u8> {
        header_reply(v.base)
    }

    open spec fn spec_decode(b: Seq<u8>) -> Option<InitHCAOutput> {
        match decode_header_reply(b) {
            Some(base) => Some(InitHCAOutput { base }),
            None => None,
        }
    }

    proof fn lemma_round_trip(v: InitHCAOutput) {
        lemma_base_round_trip(v.base, zeros(4));
    }

    fn to_bytes(&self) -> (r: Vec<u8>) {
        encode_header_reply(&self.base)
    }

    fn from_bytes(b: &[u8]) -> (r: Option<Self>) {
        if b.len() >= 12 {
            Some(InitHCAOutput { base: read_base(b) })
        } else {
            None
        }
    }
}

impl View for EnableHCA {
    type V = EnableHCA;

    open spec fn view(&self) -> EnableHCA {
        *self
    }
}

impl Wire for EnableHCA {
    open spec fn valid(v: EnableHCA) -> bool {
        true
    }

    open spec fn spec_encode(v: EnableHCA) -> Seq<u8> {
        opcode_only(OP_ENABLE_HCA)
    }

    open spec fn spec_decode(b: Seq<u8>) -> Option<EnableHCA> {
        if is_opcode_only(b, OP_ENABLE_HCA) {
            Some(EnableHCA(()))
        } else {
            None
        }
    }

    proof fn lemma_round_trip(v: EnableHCA) {
    }

    fn to_bytes(&self) -> (r: Vec<u8>) {
        encode_opcode_only(OP_ENABLE_HCA)
    }

    fn from_bytes(b: &[u8]) -> (r: Option<Self>) {
        if decode_opcode_only(b, OP_ENABLE_HCA) {
            Some(EnableHCA(()))
        } else {
            None
        }
    }
}

impl Command for EnableHCA {
    type Output = EnableHCAOutput;

    open spec fn spec_outlen(v: EnableHCA) -> nat {
        0x10
    }

    fn size(&self) -> (r: usize) {
        0x10
    }

    fn outlen(&self) -> (r: usize) {
        0x10
    }
}

impl View for EnableHCAOutput {
    type V = EnableHCAOutput;

    open spec fn view(&self) -> EnableHCAOutput {
        *self
    }
}

impl Wire for EnableHCAOutput {
    open spec fn valid(v: EnableHCAOutput) -> bool {
        base_valid(v.base)
    }

    open spec fn spec_encode(v: EnableHCAOutput) -> Seq<u8> {
        header_reply(v.base)
    }

    open spec fn spec_decode(b: Seq<u8>) -> Option<EnableHCAOutput> {
        match decode_header_reply(b) {
            Some(base) => Some(EnableHCAOutput { base }),
            None => None,
        }
    }

    proof fn lemma_round_trip(v: EnableHCAOutput) {
        lemma_base_round_trip(v.base, zeros(4));
    }

    fn to_bytes(&self) -> (r: Vec<u8>) {
        encode_header_reply(&self.base)
    }

    fn from_bytes(b: &[u8]) -> (r: Option<Self>) {
        if b.len() >= 12 {
            Some(EnableHCAOutput { base: read_base(b) })
        } else {
            None
        }
    }
}

impl View for DisableHCA {
    type V = DisableHCA;

    open spec fn view(&self) -> DisableHCA {
        *self
    }
}

impl Wire for DisableHCA {
    open spec fn valid(v: DisableHCA) -> bool {
        true
    }

    open spec fn spec_encode(v: DisableHCA) -> Seq<u8> {
        opcode_only(OP_DISABLE_HCA)
    }

    open spec fn spec_decode(b: Seq<u8>) -> Option<DisableHCA> {
        if is_opcode_only(b, OP_DISABLE_HCA) {
            Some(DisableHCA(()))
        } else {
            None
        }
    }

    proof fn lemma_round_trip(v: DisableHCA) {
    }

    fn to_bytes(&self) -> (r: Vec<u8>) {
        encode_opcode_only(OP_DISABLE_HCA)
    }

    fn from_bytes(b: &[u8]) -> (r: Option<Self>) {
        if decode_opcode_only(b, OP_DISABLE_HCA) {
            Some(DisableHCA(()))
        } else {
            None
        }
    }
}

impl Command for DisableHCA {
    type Output = DisableHCAOutput;

    open spec fn spec_outlen(v: DisableHCA) -> nat {
        0x10
    }

    fn size(&self) -> (r: usize) {
        0x10
    }

    fn outlen(&self) -> (r: usize) {
        0x10
    }
}

impl View for DisableHCAOutput {
    type V = DisableHCAOutput;

    open spec fn view(&self) -> DisableHCAOutput {
        *self
    }
}

impl Wire for DisableHCAOutput {
    open spec fn valid(v: DisableHCAOutput) -> bool {
        base_valid(v.base)
    }

    open spec fn spec_encode(v: DisableHCAOutput) -> Seq<u8> {
        header_reply(v.base)
    }

    open spec fn spec_decode(b: Seq<u8>) -> Option<DisableHCAOutput> {
        match decode_header_reply(b) {
            Some(base) => Some(DisableHCAOutput { base }),
            None => None,
        }
    }

    proof fn lemma_round_trip(v: DisableHCAOutput) {
        lemma_base_round_trip(v.base, zeros(4));
    }

    fn to_bytes(&self) -> (r: Vec<u8>) {
        encode_header_reply(&self.base)
    }

    fn from_bytes(b: &[u8]) -> (r: Option<Self>) {
        if b.len() >= 12 {
            Some(DisableHCAOutput { base: read_base(b) })
        } else {
            None
        }
    }
}

} // verus!
