//! Querying and pinning the command interface's protocol version.

use vstd::prelude::*;

use super::hca::{decode_opcode_only, encode_opcode_only, is_opcode_only, opcode_only};
use super::{base_of, base_valid, encode_base, lemma_base_round_trip, push_base, read_base};
use super::{BaseOutput, Command, Wire};
use crate::wire::{
    be16, from_be16, lemma_be16_round_trip, push_be16, push_zeros, read_be16, zeros,
};

verus! {

pub const OP_QUERY_ISSI: u16 = 0x010a;

pub const OP_SET_ISSI: u16 = 0x010b;

/// Asks which interface versions the firmware supports.
#[derive(Clone, Copy, Debug)]
pub struct QueryISSI(pub ());

#[derive(PartialEq, Eq, Debug)]
pub struct QueryISSIOutput {
    pub base: BaseOutput,
    pub current_issi: u16,
    pub supported_issi: [u8; 0x50],
}

/// What a `QueryISSIOutput` holds.
pub struct QueryISSIOutputView {
    pub base: BaseOutput,
    pub current_issi: u16,
    pub supported_issi: Seq<u8>,
}

/// Selects the interface version.
#[derive(PartialEq, Eq, Structural, Clone, Copy, Debug)]
pub struct SetISSI {
    pub current_issi: u16,
}

#[derive(PartialEq, Eq, Structural, Clone, Copy, Debug)]
pub struct SetISSIOutput {
    pub base: BaseOutput,
}

impl View for QueryISSI {
    type V = QueryISSI;

    open spec fn view(&self) -> QueryISSI {
        *self
    }
}

impl Wire for QueryISSI {
    open spec fn valid(v: QueryISSI) -> bool {
        true
    }

    open spec fn spec_encode(v: QueryISSI) -> Seq<u8> {
        opcode_only(OP_QUERY_ISSI)
    }

    open spec fn spec_decode(b: Seq<u8>) -> Option<QueryISSI> {
        if is_opcode_only(b, OP_QUERY_ISSI) {
            Some(QueryISSI(()))
        } else {
            None
        }
    }

    proof fn lemma_round_trip(v: QueryISSI) {
    }

    fn to_bytes(&self) -> (r: Vec<u8>) {
        encode_opcode_only(OP_QUERY_ISSI)
    }

    fn from_bytes(b: &[u8]) -> (r: Option<Self>) {
        if decode_opcode_only(b, OP_QUERY_ISSI) {
            Some(QueryISSI(()))
        } else {
            None
        }
    }
}

impl Command for QueryISSI {
    type Output = QueryISSIOutput;

    open spec fn spec_outlen(v: QueryISSI) -> nat {
        0x70
    }

    fn size(&self) -> (r: usize) {
        0x10
    }

    fn outlen(&self) -> (r: usize) {
        0x70
    }
}

impl View for QueryISSIOutput {
    type V = QueryISSIOutputView;

    open spec fn view(&self) -> QueryISSIOutputView {
        QueryISSIOutputView {
            base: self.base,
            current_issi: self.current_issi,
            supported_issi: self.supported_issi@,
        }
    }
}

impl Wire for QueryISSIOutput {
    open spec fn valid(v: QueryISSIOutputView) -> bool {
        base_valid(v.base) && v.supported_issi.len() == 0x50
    }

    open spec fn spec_encode(v: QueryISSIOutputView) -> Seq<u8> {
        encode_base(v.base) + zeros(2) + be16(v.current_issi) + zeros(20) + v.supported_issi
    }

    open spec fn spec_decode(b: Seq<u8>) -> Option<QueryISSIOutputView> {
        if b.len() >= 0x70 {
            Some(
                QueryISSIOutputView {
                    base: base_of(b),
                    current_issi: from_be16(b.subrange(10, 12)),
                    supported_issi: b.subrange(32, 112),
                },
            )
        } else {
            None
        }
    }

    proof fn lemma_round_trip(v: QueryISSIOutputView) {
        let b = Self::spec_encode(v);
        lemma_base_round_trip(v.base, b.subrange(8, b.len() as int));
        assert(b =~= encode_base(v.base) + b.subrange(8, b.len() as int));
        assert(b.subrange(10, 12) =~= be16(v.current_issi));
        lemma_be16_round_trip(v.current_issi);
        assert(b.subrange(32, 112) =~= v.supported_issi);
    }

    fn to_bytes(&self) -> (r: Vec<u8>) {
        let mut v: Vec<u8> = Vec::new();
        push_base(&mut v, &self.base);
        push_zeros(&mut v, 2);
        push_be16(&mut v, self.current_issi);
        push_zeros(&mut v, 20);
        let ghost prefix = v@;
        let mut i: usize = 0;
        while i < 0x50
            invariant
                i <= 0x50,
                self.supported_issi@.len() == 0x50,
                v@ == prefix + self.supported_issi@.subrange(0, i as int),
            decreases 0x50 - i,
        {
            v.push(self.supported_issi[i]);
            i = i + 1;
            assert(v@ =~= prefix + self.supported_issi@.subrange(0, i as int));
        }
        assert(self.supported_issi@.subrange(0, 0x50) =~= self.supported_issi@);
        v
    }

    fn from_bytes(b: &[u8]) -> (r: Option<Self>) {
        if b.len() < 0x70 {
            return None;
        }
        let mut supported_issi = [0u8; 0x50];
        let mut i: usize = 0;
        while i < 0x50
            invariant
                i <= 0x50,
                b@.len() >= 0x70,
                supported_issi@.len() == 0x50,
                forall|j: int| 0 <= j < i ==> supported_issi@[j] == b@[32 + j],
            decreases 0x50 - i,
        {
            supported_issi[i] = b[32 + i];
            i = i + 1;
        }
        assert(supported_issi@ =~= b@.subrange(32, 112));
        Some(
            QueryISSIOutput {
                base: read_base(b),
                current_issi: read_be16(b, 10),
                supported_issi,
            },
        )
    }
}

impl View for SetISSI {
    type V = SetISSI;

    open spec fn view(&self) -> SetISSI {
        *self
    }
}

impl Wire for SetISSI {
    open spec fn valid(v: SetISSI) -> bool {
        true
    }

    open spec fn spec_encode(v: SetISSI) -> Seq<u8> {
        be16(OP_SET_ISSI) + zeros(8) + be16(v.current_issi) + zeros(4)
    }

    open spec fn spec_decode(b: Seq<u8>) -> Option<SetISSI> {
        if b.len() >= 0x10 && from_be16(b.subrange(0, 2)) == OP_SET_ISSI {
            Some(SetISSI { current_issi: from_be16(b.subrange(10, 12)) })
        } else {
            None
        }
    }

    proof fn lemma_round_trip(v: SetISSI) {
        let b = Self::spec_encode(v);
        assert(b.subrange(0, 2) =~= be16(OP_SET_ISSI));
        assert(b.subrange(10, 12) =~= be16(v.current_issi));
        lemma_be16_round_trip(OP_SET_ISSI);
        lemma_be16_round_trip(v.current_issi);
    }

    fn to_bytes(&self) -> (r: Vec<u8>) {
        let mut v: Vec<u8> = Vec::new();
        push_be16(&mut v, OP_SET_ISSI);
        push_zeros(&mut v, 8);
        push_be16(&mut v, self.current_issi);
        push_zeros(&mut v, 4);
        assert(v@ =~= Self::spec_encode(self@));
        v
    }

    fn from_bytes(b: &[u8]) -> (r: Option<Self>) {
        if b.len() >= 0x10 && read_be16(b, 0) == OP_SET_ISSI {
            Some(SetISSI { current_issi: read_be16(b, 10) })
        } else {
            None
        }
    }
}

impl Command for SetISSI {
    type Output = SetISSIOutput;

    open spec fn spec_outlen(v: SetISSI) -> nat {
        0x10
    }

    fn size(&self) -> (r: usize) {
        0x10
    }

    fn outlen(&self) -> (r: usize) {
        0x10
    }
}

impl View for SetISSIOutput {
    type V = SetISSIOutput;

    open spec fn view(&self) -> SetISSIOutput {
        *self
    }
}

impl Wire for SetISSIOutput {
    open spec fn valid(v: SetISSIOutput) -> bool {
        base_valid(v.base)
    }

    open spec fn spec_encode(v: SetISSIOutput) -> Seq<u8> {
        encode_base(v.base) + zeros(8)
    }

    open spec fn spec_decode(b: Seq<u8>) -> Option<SetISSIOutput> {
        if b.len() >= 0x10 {
            Some(SetISSIOutput { base: base_of(b) })
        } else {
            None
        }
    }

    proof fn lemma_round_trip(v: SetISSIOutput) {
        lemma_base_round_trip(v.base, zeros(8));
    }

    fn to_bytes(&self) -> (r: Vec<u8>) {
        let mut v: Vec<u8> = Vec::new();
        push_base(&mut v, &self.base);
        push_zeros(&mut v, 8);
        assert(v@ =~= Self::spec_encode(self@));
        v
    }

    fn from_bytes(b: &[u8]) -> (r: Option<Self>) {
        if b.len() >= 0x10 {
            Some(SetISSIOutput { base: read_base(b) })
        } else {
            None
        }
    }
}

} // verus!
