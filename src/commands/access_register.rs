//! The command that reads or writes a hardware register.

use vstd::prelude::*;

use super::{base_of, base_valid, encode_base, lemma_base_round_trip, push_base, read_base};
use super::{BaseOutput, Command, Wire};
use crate::wire::{
    be16, be32, from_be16, from_be32, lemma_be16_round_trip, lemma_be32_round_trip, push_be16,
    push_be32, push_zeros, read_be16, read_be32, zeros,
};

verus! {

pub const OP_ACCESS_REGISTER: u16 = 0x0805;

/// Bytes of register data in the reply.
pub const REGISTER_DATA_LEN: usize = 128;

#[derive(PartialEq, Eq, Structural, Clone, Copy, Debug)]
pub enum AccessRegisterOpMod {
    Write,
    Read,
}

pub open spec fn access_op_code(m: AccessRegisterOpMod) -> u16 {
    match m {
        AccessRegisterOpMod::Write => 0,
        AccessRegisterOpMod::Read => 1,
    }
}

pub open spec fn access_op_of(c: u16) -> Option<AccessRegisterOpMod> {
    if c == 0 {
        Some(AccessRegisterOpMod::Write)
    } else if c == 1 {
        Some(AccessRegisterOpMod::Read)
    } else {
        None
    }
}

impl AccessRegisterOpMod {
    pub fn code(&self) -> (r: u16)
        ensures
            r == access_op_code(*self),
    {
        match self {
            AccessRegisterOpMod::Write => 0,
            AccessRegisterOpMod::Read => 1,
        }
    }

    pub fn from_code(c: u16) -> (r: Option<AccessRegisterOpMod>)
        ensures
            r == access_op_of(c),
    {
        if c == 0 {
            Some(AccessRegisterOpMod::Write)
        } else if c == 1 {
            Some(AccessRegisterOpMod::Read)
        } else {
            None
        }
    }
}

/// Reads or writes register `register_id`; the register's own bytes make
/// up the rest of the request.
#[derive(PartialEq, Eq, Debug)]
pub struct AccessRegister {
    pub op_mod: AccessRegisterOpMod,
    pub register_id: u16,
    pub argument: u32,
    pub register_data: Vec<u8>,
}

pub struct AccessRegisterView {
    pub op_mod: AccessRegisterOpMod,
    pub register_id: u16,
    pub argument: u32,
    pub register_data: Seq<u8>,
}

#[derive(PartialEq, Eq, Debug)]
pub struct AccessRegisterOutput {
    pub base: BaseOutput,
    pub register_data: [u8; 128],
}

pub struct AccessRegisterOutputView {
    pub base: BaseOutput,
    pub register_data: Seq<u8>,
}

impl View for AccessRegister {
    type V = AccessRegisterView;

    open spec fn view(&self) -> AccessRegisterView {
        AccessRegisterView {
            op_mod: self.op_mod,
            register_id: self.register_id,
            argument: self.argument,
            register_data: self.register_data@,
        }
    }
}

impl Wire for AccessRegister {
    open spec fn valid(v: AccessRegisterView) -> bool {
        true
    }

    open spec fn spec_encode(v: AccessRegisterView) -> Seq<u8> {
        be16(OP_ACCESS_REGISTER) + zeros(4) + be16(access_op_code(v.op_mod)) + zeros(2) + be16(
            v.register_id,
        ) + be32(v.argument) + v.register_data
    }

    open spec fn spec_decode(b: Seq<u8>) -> Option<AccessRegisterView> {
        if b.len() >= 0x10 && from_be16(b.subrange(0, 2)) == OP_ACCESS_REGISTER {
            match access_op_of(from_be16(b.subrange(6, 8))) {
                Some(op_mod) => Some(
                    AccessRegisterView {
                        op_mod,
                        register_id: from_be16(b.subrange(10, 12)),
                        argument: from_be32(b.subrange(12, 16)),
                        register_data: b.subrange(16, b.len() as int),
                    },
                ),
                None => None,
            }
        } else {
            None
        }
    }

    proof fn lemma_round_trip(v: AccessRegisterView) {
        let b = Self::spec_encode(v);
        assert(b.subrange(0, 2) =~= be16(OP_ACCESS_REGISTER));
        assert(b.subrange(6, 8) =~= be16(access_op_code(v.op_mod)));
        assert(b.subrange(10, 12) =~= be16(v.register_id));
        assert(b.subrange(12, 16) =~= be32(v.argument));
        assert(b.subrange(16, b.len() as int) =~= v.register_data);
        lemma_be16_round_trip(OP_ACCESS_REGISTER);
        lemma_be16_round_trip(access_op_code(v.op_mod));
        lemma_be16_round_trip(v.register_id);
        lemma_be32_round_trip(v.argument);
    }

    fn to_bytes(&self) -> (r: Vec<u8>) {
        let mut v: Vec<u8> = Vec::new();
        push_be16(&mut v, OP_ACCESS_REGISTER);
        push_zeros(&mut v, 4);
        push_be16(&mut v, self.op_mod.code());
        push_zeros(&mut v, 2);
        push_be16(&mut v, self.register_id);
        push_be32(&mut v, self.argument);
        let ghost prefix = v@;
        let mut i: usize = 0;
        while i < self.register_data.len()
            invariant
                i <= self.register_data@.len(),
                v@ == prefix + self.register_data@.subrange(0, i as int),
            decreases self.register_data@.len() - i,
        {
            v.push(self.register_data[i]);
            i = i + 1;
            assert(v@ =~= prefix + self.register_data@.subrange(0, i as int));
        }
        assert(self.register_data@.subrange(0, self.register_data@.len() as int)
            =~= self.register_data@);
        assert(v@ =~= Self::spec_encode(self@));
        v
    }

    fn from_bytes(b: &[u8]) -> (r: Option<Self>) {
        if b.len() < 0x10 || read_be16(b, 0) != OP_ACCESS_REGISTER {
            return None;
        }
        let op_mod = match AccessRegisterOpMod::from_code(read_be16(b, 6)) {
            Some(m) => m,
            None => {
                return None;
            },
        };
        let mut register_data: Vec<u8> = Vec::new();
        let mut i: usize = 0x10;
        while i < b.len()
            invariant
                0x10 <= i <= b@.len(),
                register_data@ == b@.subrange(0x10, i as int),
            decreases b@.len() - i,
        {
            register_data.push(b[i]);
            i = i + 1;
            assert(register_data@ =~= b@.subrange(0x10, i as int));
        }
        Some(
            AccessRegister {
                op_mod,
                register_id: read_be16(b, 10),
                argument: read_be32(b, 12),
                register_data,
            },
        )
    }
}

impl Command for AccessRegister {
    type Output = AccessRegisterOutput;

    open spec fn spec_outlen(v: AccessRegisterView) -> nat {
        0x90
    }

    fn size(&self) -> (r: usize) {
        0x10 + self.register_data.len()
    }

    fn outlen(&self) -> (r: usize) {
        0x10 + REGISTER_DATA_LEN
    }
}

impl View for AccessRegisterOutput {
    type V = AccessRegisterOutputView;

    open spec fn view(&self) -> AccessRegisterOutputView {
        AccessRegisterOutputView { base: self.base, register_data: self.register_data@ }
    }
}

impl Wire for AccessRegisterOutput {
    open spec fn valid(v: AccessRegisterOutputView) -> bool {
        base_valid(v.base) && v.register_data.len() == REGISTER_DATA_LEN
    }

    open spec fn spec_encode(v: AccessRegisterOutputView) -> Seq<u8> {
        encode_base(v.base) + zeros(8) + v.register_data
    }

    open spec fn spec_decode(b: Seq<u8>) -> Option<AccessRegisterOutputView> {
        if b.len() >= 0x90 {
            Some(AccessRegisterOutputView { base: base_of(b), register_data: b.subrange(0x10, 0x90) })
        } else {
            None
        }
    }

    proof fn lemma_round_trip(v: AccessRegisterOutputView) {
        let b = Self::spec_encode(v);
        lemma_base_round_trip(v.base, b.subrange(8, b.len() as int));
        assert(b =~= encode_base(v.base) + b.subrange(8, b.len() as int));
        assert(b.subrange(0x10, 0x90) =~= v.register_data);
    }

    fn to_bytes(&self) -> (r: Vec<u8>) {
        let mut v: Vec<u8> = Vec::new();
        push_base(&mut v, &self.base);
        push_zeros(&mut v, 8);
        let ghost prefix = v@;
        let mut i: usize = 0;
        while i < REGISTER_DATA_LEN
            invariant
                i <= REGISTER_DATA_LEN,
                self.register_data@.len() == REGISTER_DATA_LEN,
                v@ == prefix + self.register_data@.subrange(0, i as int),
            decreases REGISTER_DATA_LEN - i,
        {
            v.push(self.register_data[i]);
            i = i + 1;
            assert(v@ =~= prefix + self.register_data@.subrange(0, i as int));
        }
        assert(self.register_data@.subrange(0, REGISTER_DATA_LEN as int) =~= self.register_data@);
        v
    }

    fn from_bytes(b: &[u8]) -> (r: Option<Self>) {
        if b.len() < 0x90 {
            return None;
        }
        let mut register_data = [0u8; 128];
        let mut i: usize = 0;
        while i < REGISTER_DATA_LEN
            invariant
                i <= REGISTER_DATA_LEN,
                b@.len() >= 0x90,
                register_data@.len() == REGISTER_DATA_LEN,
                forall|j: int| 0 <= j < i ==> register_data@[j] == b@[0x10 + j],
            decreases REGISTER_DATA_LEN - i,
        {
            register_data[i] = b[0x10 + i];
            i = i + 1;
        }
        assert(register_data@ =~= b@.subrange(0x10, 0x90));
        Some(AccessRegisterOutput { base: read_base(b), register_data })
    }
}

} // verus!
