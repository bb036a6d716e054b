//! Probing the HCA's capabilities.

use vstd::prelude::*;

use super::{base_of, base_valid, encode_base, lemma_base_round_trip, push_base, read_base};
use super::{BaseOutput, Command, Wire};
use crate::wire::{be16, from_be16, lemma_be16_round_trip, push_be16, push_zeros, read_be16, zeros};

verus! {

pub const OP_QUERY_HCA_CAP: u16 = 0x0100;

/// Bytes of capability data in the reply.
pub const HCA_CAP_LEN: usize = 0x1000;

#[derive(PartialEq, Eq, Structural, Clone, Copy, Debug)]
pub struct QueryHCACap {
    pub op_mod: u16,
}

#[derive(PartialEq, Eq, Debug)]
pub struct QueryHCACapOutput {
    pub base: BaseOutput,
    pub capabilities: [u8; 0x1000],
}

pub struct QueryHCACapOutputView {
    pub base: BaseOutput,
    pub capabilities: Seq<u8>,
}

impl View for QueryHCACap {
    type V = QueryHCACap;

    open spec fn view(&self) -> QueryHCACap {
        *self
    }
}

impl Wire for QueryHCACap {
    open spec fn valid(v: QueryHCACap) -> bool {
        true
    }

    open spec fn spec_encode(v: QueryHCACap) -> Seq<u8> {
        be16(OP_QUERY_HCA_CAP) + zeros(4) + be16(v.op_mod) + zeros(8)
    }

    open spec fn spec_decode(b: Seq<u8>) -> Option<QueryHCACap> {
        if b.len() >= 0x10 && from_be16(b.subrange(0, 2)) == OP_QUERY_HCA_CAP {
            Some(QueryHCACap { op_mod: from_be16(b.subrange(6, 8)) })
        } else {
            None
        }
    }

    proof fn lemma_round_trip(v: QueryHCACap) {
        let b = Self::spec_encode(v);
        assert(b.subrange(0, 2) =~= be16(OP_QUERY_HCA_CAP));
        assert(b.subrange(6, 8) =~= be16(v.op_mod));
        lemma_be16_round_trip(OP_QUERY_HCA_CAP);
        lemma_be16_round_trip(v.op_mod);
    }

    fn to_bytes(&self) -> (r: Vec<u8>) {
        let mut v: Vec<u8> = Vec::new();
        push_be16(&mut v, OP_QUERY_HCA_CAP);
        push_zeros(&mut v, 4);
        push_be16(&mut v, self.op_mod);
        push_zeros(&mut v, 8);
        assert(v@ =~= Self::spec_encode(self@));
        v
    }

    fn from_bytes(b: &[u8]) -> (r: Option<Self>) {
        if b.len() >= 0x10 && read_be16(b, 0) == OP_QUERY_HCA_CAP {
            Some(QueryHCACap { op_mod: read_be16(b, 6) })
        } else {
            None
        }
    }
}

impl Command for QueryHCACap {
    type Output = QueryHCACapOutput;

    open spec fn spec_outlen(v: QueryHCACap) -> nat {
        0x1010
    }

    fn size(&self) -> (r: usize) {
        0x10
    }

    fn outlen(&self) -> (r: usize) {
        0x1010
    }
}

impl View for QueryHCACapOutput {
    type V = QueryHCACapOutputView;

    open spec fn view(&self) -> QueryHCACapOutputView {
        QueryHCACapOutputView { base: self.base, capabilities: self.capabilities@ }
    }
}

impl Wire for QueryHCACapOutput {
    open spec fn valid(v: QueryHCACapOutputView) -> bool {
        base_valid(v.base) && v.capabilities.len() == HCA_CAP_LEN
    }

    open spec fn spec_encode(v: QueryHCACapOutputView) -> Seq<u8> {
        encode_base(v.base) + zeros(8) + v.capabilities
    }

    open spec fn spec_decode(b: Seq<u8>) -> Option<QueryHCACapOutputView> {
        if b.len() >= 0x1010 {
            Some(
                QueryHCACapOutputView { base: base_of(b), capabilities: b.subrange(0x10, 0x1010) },
            )
        } else {
            None
        }
    }

    proof fn lemma_round_trip(v: QueryHCACapOutputView) {
        let b = Self::spec_encode(v);
        lemma_base_round_trip(v.base, b.subrange(8, b.len() as int));
        assert(b =~= encode_base(v.base) + b.subrange(8, b.len() as int));
        assert(b.subrange(0x10, 0x1010) =~= v.capabilities);
    }

    fn to_bytes(&self) -> (r: Vec<u8>) {
        let mut v: Vec<u8> = Vec::new();
        push_base(&mut v, &self.base);
        push_zeros(&mut v, 8);
        let ghost prefix = v@;
        let mut i: usize = 0;
        while i < HCA_CAP_LEN
            invariant
                i <= HCA_CAP_LEN,
                self.capabilities@.len() == HCA_CAP_LEN,
                v@ == prefix + self.capabilities@.subrange(0, i as int),
            decreases HCA_CAP_LEN - i,
        {
            v.push(self.capabilities[i]);
            i = i + 1;
            assert(v@ =~= prefix + self.capabilities@.subrange(0, i as int));
        }
        assert(self.capabilities@.subrange(0, HCA_CAP_LEN as int) =~= self.capabilities@);
        v
    }

    fn from_bytes(b: &[u8]) -> (r: Option<Self>) {
        if b.len() < 0x1010 {
            return None;
        }
        let mut capabilities = [0u8; 0x1000];
        let mut i: usize = 0;
        while i < HCA_CAP_LEN
            invariant
                i <= HCA_CAP_LEN,
                b@.len() >= 0x1010,
                capabilities@.len() == HCA_CAP_LEN,
                forall|j: int| 0 <= j < i ==> capabilities@[j] == b@[0x10 + j],
            decreases HCA_CAP_LEN - i,
        {
            capabilities[i] = b[0x10 + i];
            i = i + 1;
        }
        assert(capabilities@ =~= b@.subrange(0x10, 0x1010));
        Some(QueryHCACapOutput { base: read_base(b), capabilities })
    }
}

} // verus!
