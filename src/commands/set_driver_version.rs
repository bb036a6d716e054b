//! Telling the firmware which driver is talking to it.

use vstd::prelude::*;

use super::{base_of, base_valid, encode_base, lemma_base_round_trip, push_base, read_base};
use super::{BaseOutput, Command, Wire};
use crate::wire::{be16, from_be16, lemma_be16_round_trip, push_be16, push_zeros, read_be16, zeros};

verus! {

pub const OP_SET_DRIVER_VERSION: u16 = 0x010d;

/// Bytes of the version string.
pub const DRIVER_VERSION_LEN: usize = 64;

/// Carries a NUL-padded version string.
#[derive(PartialEq, Eq, Debug)]
pub struct SetDriverVersion {
    pub driver_version: [u8; 64],
}

pub struct SetDriverVersionView {
    pub driver_version: Seq<u8>,
}

#[derive(PartialEq, Eq, Structural, Clone, Copy, Debug)]
pub struct SetDriverVersionOutput {
    pub base: BaseOutput,
}

impl View for SetDriverVersion {
    type V = SetDriverVersionView;

    open spec fn view(&self) -> SetDriverVersionView {
        SetDriverVersionView { driver_version: self.driver_version@ }
    }
}

impl Wire for SetDriverVersion {
    open spec fn valid(v: SetDriverVersionView) -> bool {
        v.driver_version.len() == DRIVER_VERSION_LEN
    }

    open spec fn spec_encode(v: SetDriverVersionView) -> Seq<u8> {
        be16(OP_SET_DRIVER_VERSION) + zeros(14) + v.driver_version
    }

    open spec fn spec_decode(b: Seq<u8>) -> Option<SetDriverVersionView> {
        if b.len() >= 0x50 && from_be16(b.subrange(0, 2)) == OP_SET_DRIVER_VERSION {
            Some(SetDriverVersionView { driver_version: b.subrange(0x10, 0x50) })
        } else {
            None
        }
    }

    proof fn lemma_round_trip(v: SetDriverVersionView) {
        let b = Self::spec_encode(v);
        assert(b.subrange(0, 2) =~= be16(OP_SET_DRIVER_VERSION));
        assert(b.subrange(0x10, 0x50) =~= v.driver_version);
        lemma_be16_round_trip(OP_SET_DRIVER_VERSION);
    }

    fn to_bytes(&self) -> (r: Vec<u8>) {
        let mut v: Vec<u8> = Vec::new();
        push_be16(&mut v, OP_SET_DRIVER_VERSION);
        push_zeros(&mut v, 14);
        let ghost prefix = v@;
        let mut i: usize = 0;
        while i < DRIVER_VERSION_LEN
            invariant
                i <= DRIVER_VERSION_LEN,
                self.driver_version@.len() == DRIVER_VERSION_LEN,
                v@ == prefix + self.driver_version@.subrange(0, i as int),
            decreases DRIVER_VERSION_LEN - i,
        {
            v.push(self.driver_version[i]);
            i = i + 1;
            assert(v@ =~= prefix + self.driver_version@.subrange(0, i as int));
        }
        assert(self.driver_version@.subrange(0, DRIVER_VERSION_LEN as int) =~= self.driver_version@);
        v
    }

    fn from_bytes(b: &[u8]) -> (r: Option<Self>) {
        if b.len() < 0x50 || read_be16(b, 0) != OP_SET_DRIVER_VERSION {
            return None;
        }
        let mut driver_version = [0u8; 64];
        let mut i: usize = 0;
        while i < DRIVER_VERSION_LEN
            invariant
                i <= DRIVER_VERSION_LEN,
                b@.len() >= 0x50,
                driver_version@.len() == DRIVER_VERSION_LEN,
                forall|j: int| 0 <= j < i ==> driver_version@[j] == b@[0x10 + j],
            decreases DRIVER_VERSION_LEN - i,
        {
            driver_version[i] = b[0x10 + i];
            i = i + 1;
        }
        assert(driver_version@ =~= b@.subrange(0x10, 0x50));
        Some(SetDriverVersion { driver_version })
    }
}

impl Command for SetDriverVersion {
    type Output = SetDriverVersionOutput;

    open spec fn spec_outlen(v: SetDriverVersionView) -> nat {
        0x10
    }

    fn size(&self) -> (r: usize) {
        0x50
    }

    fn outlen(&self) -> (r: usize) {
        0x10
    }
}

impl View for SetDriverVersionOutput {
    type V = SetDriverVersionOutput;

    open spec fn view(&self) -> SetDriverVersionOutput {
        *self
    }
}

impl Wire for SetDriverVersionOutput {
    open spec fn valid(v: SetDriverVersionOutput) -> bool {
        base_valid(v.base)
    }

    open spec fn spec_encode(v: SetDriverVersionOutput) -> Seq<u8> {
        encode_base(v.base) + zeros(4)
    }

    open spec fn spec_decode(b: Seq<u8>) -> Option<SetDriverVersionOutput> {
        if b.len() >= 12 {
            Some(SetDriverVersionOutput { base: base_of(b) })
        } else {
            None
        }
    }

    proof fn lemma_round_trip(v: SetDriverVersionOutput) {
        lemma_base_round_trip(v.base, zeros(4));
    }

    fn to_bytes(&self) -> (r: Vec<u8>) {
        let mut v: Vec<u8> = Vec::new();
        push_base(&mut v, &self.base);
        push_zeros(&mut v, 4);
        assert(v@ =~= Self::spec_encode(self@));
        v
    }

    fn from_bytes(b: &[u8]) -> (r: Option<Self>) {
        if b.len() >= 12 {
            Some(SetDriverVersionOutput { base: read_base(b) })
        } else {
            None
        }
    }
}

} // verus!
