//! Lending pages of DMA memory to the firmware and taking them back.

use vstd::prelude::*;

use super::{base_of, base_valid, encode_base, lemma_base_round_trip, push_base, read_base};
use super::{BaseOutput, Command, Wire};
use crate::wire::{
    be16, be32, be64_seq, from_be16, from_be32, lemma_be16_round_trip, lemma_be32_round_trip,
    lemma_be64_seq_len, lemma_words64_round_trip, push_be16, push_be32, push_be64_seq, push_zeros,
    read_be16, read_be32, read_be64_seq, words64, zeros,
};

verus! {

pub const OP_MANAGE_PAGES: u16 = 0x0108;

#[derive(PartialEq, Eq, Structural, Clone, Copy, Debug)]
pub enum ManagePagesOpMod {
    AllocationFail,
    AllocationSuccess,
    HCAReturnPages,
}

pub open spec fn manage_op_code(m: ManagePagesOpMod) -> u16 {
    match m {
        ManagePagesOpMod::AllocationFail => 0,
        ManagePagesOpMod::AllocationSuccess => 1,
        ManagePagesOpMod::HCAReturnPages => 2,
    }
}

pub open spec fn manage_op_of(c: u16) -> Option<ManagePagesOpMod> {
    if c == 0 {
        Some(ManagePagesOpMod::AllocationFail)
    } else if c == 1 {
        Some(ManagePagesOpMod::AllocationSuccess)
    } else if c == 2 {
        Some(ManagePagesOpMod::HCAReturnPages)
    } else {
        None
    }
}

impl ManagePagesOpMod {
    pub fn code(&self) -> (r: u16)
        ensures
            r == manage_op_code(*self),
    {
        match self {
            ManagePagesOpMod::AllocationFail => 0,
            ManagePagesOpMod::AllocationSuccess => 1,
            ManagePagesOpMod::HCAReturnPages => 2,
        }
    }

    pub fn from_code(c: u16) -> (r: Option<ManagePagesOpMod>)
        ensures
            r == manage_op_of(c),
    {
        if c == 0 {
            Some(ManagePagesOpMod::AllocationFail)
        } else if c == 1 {
            Some(ManagePagesOpMod::AllocationSuccess)
        } else if c == 2 {
            Some(ManagePagesOpMod::HCAReturnPages)
        } else {
            None
        }
    }
}

/// Reports pages given to the firmware, or asks for `input_num_entries`
/// pages back.
#[derive(PartialEq, Eq, Debug)]
pub struct ManagePages {
    pub op_mod: ManagePagesOpMod,
    pub input_num_entries: u32,
    pub items: Vec<u64>,
}

pub struct ManagePagesView {
    pub op_mod: ManagePagesOpMod,
    pub input_num_entries: u32,
    pub items: Seq<u64>,
}

/// The reply lists the addresses of the pages the firmware gives back.
#[derive(PartialEq, Eq, Debug)]
pub struct ManagePagesOutput {
    pub base: BaseOutput,
    pub output_num_entries: u32,
    pub items: Vec<u64>,
}

pub struct ManagePagesOutputView {
    pub base: BaseOutput,
    pub output_num_entries: u32,
    pub items: Seq<u64>,
}

impl View for ManagePages {
    type V = ManagePagesView;

    open spec fn view(&self) -> ManagePagesView {
        ManagePagesView {
            op_mod: self.op_mod,
            input_num_entries: self.input_num_entries,
            items: self.items@,
        }
    }
}

impl Wire for ManagePages {
    open spec fn valid(v: ManagePagesView) -> bool {
        v.items.len() == v.input_num_entries
    }

    open spec fn spec_encode(v: ManagePagesView) -> Seq<u8> {
        be16(OP_MANAGE_PAGES) + zeros(4) + be16(manage_op_code(v.op_mod)) + zeros(4) + be32(
            v.input_num_entries,
        ) + be64_seq(v.items)
    }

    open spec fn spec_decode(b: Seq<u8>) -> Option<ManagePagesView> {
        if b.len() >= 0x10 && from_be16(b.subrange(0, 2)) == OP_MANAGE_PAGES {
            let n = from_be32(b.subrange(12, 16));
            match manage_op_of(from_be16(b.subrange(6, 8))) {
                Some(op_mod) => if b.len() >= 0x10 + 8 * n {
                    Some(
                        ManagePagesView {
                            op_mod,
                            input_num_entries: n,
                            items: words64(b, 0x10, n as nat),
                        },
                    )
                } else {
                    None
                },
                None => None,
            }
        } else {
            None
        }
    }

    proof fn lemma_round_trip(v: ManagePagesView) {
        let head = be16(OP_MANAGE_PAGES) + zeros(4) + be16(manage_op_code(v.op_mod)) + zeros(4)
            + be32(v.input_num_entries);
        let b = Self::spec_encode(v);
        assert(b == head + be64_seq(v.items));
        assert(b.subrange(0, 2) =~= be16(OP_MANAGE_PAGES));
        assert(b.subrange(6, 8) =~= be16(manage_op_code(v.op_mod)));
        assert(b.subrange(12, 16) =~= be32(v.input_num_entries));
        lemma_be16_round_trip(OP_MANAGE_PAGES);
        lemma_be16_round_trip(manage_op_code(v.op_mod));
        lemma_be32_round_trip(v.input_num_entries);
        lemma_be64_seq_len(v.items);
        lemma_words64_round_trip(head, v.items, Seq::empty());
        assert(head + be64_seq(v.items) + Seq::<u8>::empty() =~= b);
    }

    fn to_bytes(&self) -> (r: Vec<u8>) {
        let mut v: Vec<u8> = Vec::new();
        push_be16(&mut v, OP_MANAGE_PAGES);
        push_zeros(&mut v, 4);
        push_be16(&mut v, self.op_mod.code());
        push_zeros(&mut v, 4);
        push_be32(&mut v, self.input_num_entries);
        push_be64_seq(&mut v, self.items.as_slice());
        assert(v@ =~= Self::spec_encode(self@));
        v
    }

    fn from_bytes(b: &[u8]) -> (r: Option<Self>) {
        if b.len() < 0x10 || read_be16(b, 0) != OP_MANAGE_PAGES {
            return None;
        }
        let n = read_be32(b, 12);
        let op_mod = match ManagePagesOpMod::from_code(read_be16(b, 6)) {
            Some(m) => m,
            None => {
                return None;
            },
        };
        if (n as usize) > (b.len() - 0x10) / 8 {
            return None;
        }
        let items = read_be64_seq(b, 0x10, n as usize);
        Some(ManagePages { op_mod, input_num_entries: n, items })
    }
}

/// Reply length: the header alone, except when pages come back, where one
/// word per requested page follows it.
pub open spec fn manage_pages_outlen(v: ManagePagesView) -> nat {
    match v.op_mod {
        ManagePagesOpMod::HCAReturnPages => (0x10 + 8 * v.input_num_entries) as nat,
        _ => 0x10,
    }
}

impl Command for ManagePages {
    type Output = ManagePagesOutput;

    open spec fn spec_outlen(v: ManagePagesView) -> nat {
        manage_pages_outlen(v)
    }

    fn size(&self) -> (r: usize) {
        proof {
            lemma_be64_seq_len(self.items@);
        }
        0x10 + self.items.len() * 8
    }

    fn outlen(&self) -> (r: usize) {
        match self.op_mod {
            ManagePagesOpMod::AllocationFail => 0x10,
            ManagePagesOpMod::AllocationSuccess => 0x10,
            ManagePagesOpMod::HCAReturnPages => 0x10 + (self.input_num_entries as usize) * 8,
        }
    }
}

impl View for ManagePagesOutput {
    type V = ManagePagesOutputView;

    open spec fn view(&self) -> ManagePagesOutputView {
        ManagePagesOutputView {
            base: self.base,
            output_num_entries: self.output_num_entries,
            items: self.items@,
        }
    }
}

impl Wire for ManagePagesOutput {
    open spec fn valid(v: ManagePagesOutputView) -> bool {
        base_valid(v.base) && v.items.len() == v.output_num_entries
    }

    open spec fn spec_encode(v: ManagePagesOutputView) -> Seq<u8> {
        encode_base(v.base) + be32(v.output_num_entries) + zeros(4) + be64_seq(v.items)
    }

    open spec fn spec_decode(b: Seq<u8>) -> Option<ManagePagesOutputView> {
        if b.len() >= 0x10 {
            let n = from_be32(b.subrange(8, 12));
            if b.len() >= 0x10 + 8 * n {
                Some(
                    ManagePagesOutputView {
                        base: base_of(b),
                        output_num_entries: n,
                        items: words64(b, 0x10, n as nat),
                    },
                )
            } else {
                None
            }
        } else {
            None
        }
    }

    proof fn lemma_round_trip(v: ManagePagesOutputView) {
        let head = encode_base(v.base) + be32(v.output_num_entries) + zeros(4);
        let rest = be32(v.output_num_entries) + zeros(4) + be64_seq(v.items);
        let b = Self::spec_encode(v);
        assert(b =~= head + be64_seq(v.items));
        assert(b =~= encode_base(v.base) + rest);
        lemma_be64_seq_len(v.items);
        lemma_base_round_trip(v.base, rest);
        assert(b.subrange(8, 12) =~= be32(v.output_num_entries));
        lemma_be32_round_trip(v.output_num_entries);
        lemma_words64_round_trip(head, v.items, Seq::empty());
        assert(head + be64_seq(v.items) + Seq::<u8>::empty() =~= b);
    }

    fn to_bytes(&self) -> (r: Vec<u8>) {
        let mut v: Vec<u8> = Vec::new();
        push_base(&mut v, &self.base);
        push_be32(&mut v, self.output_num_entries);
        push_zeros(&mut v, 4);
        push_be64_seq(&mut v, self.items.as_slice());
        assert(v@ =~= Self::spec_encode(self@));
        v
    }

    fn from_bytes(b: &[u8]) -> (r: Option<Self>) {
        if b.len() < 0x10 {
            return None;
        }
        let n = read_be32(b, 8);
        if (n as usize) > (b.len() - 0x10) / 8 {
            return None;
        }
        let items = read_be64_seq(b, 0x10, n as usize);
        Some(ManagePagesOutput { base: read_base(b), output_num_entries: n, items })
    }
}

} // verus!
