//! Asking the firmware how many pages of DMA memory it wants.

use vstd::prelude::*;

use super::{base_of, base_valid, encode_base, lemma_base_round_trip, push_base, read_base};
use super::{BaseOutput, Command, Wire};
use crate::wire::{
    be16, be32, from_be16, from_be32, lemma_be16_round_trip, lemma_be32_round_trip, push_be16,
    push_be32, push_zeros, read_be16, read_be32, zeros,
};

verus! {

pub const OP_QUERY_PAGES: u16 = 0x0107;

/// Which stage of bring-up the pages are for.
#[derive(PartialEq, Eq, Structural, Clone, Copy, Debug)]
pub enum QueryPagesOpMod {
    BootPages,
    InitPages,
    RegularPages,
}

pub open spec fn query_op_code(m: QueryPagesOpMod) -> u16 {
    match m {
        QueryPagesOpMod::BootPages => 1,
        QueryPagesOpMod::InitPages => 2,
        QueryPagesOpMod::RegularPages => 3,
    }
}

pub open spec fn query_op_of(c: u16) -> Option<QueryPagesOpMod> {
    if c == 1 {
        Some(QueryPagesOpMod::BootPages)
    } else if c == 2 {
        Some(QueryPagesOpMod::InitPages)
    } else if c == 3 {
        Some(QueryPagesOpMod::RegularPages)
    } else {
        None
    }
}

impl QueryPagesOpMod {
    pub fn code(&self) -> (r: u16)
        ensures
            r == query_op_code(*self),
    {
        match self {
            QueryPagesOpMod::BootPages => 1,
            QueryPagesOpMod::InitPages => 2,
            QueryPagesOpMod::RegularPages => 3,
        }
    }

    pub fn from_code(c: u16) -> (r: Option<QueryPagesOpMod>)
        ensures
            r == query_op_of(c),
    {
        if c == 1 {
            Some(QueryPagesOpMod::BootPages)
        } else if c == 2 {
            Some(QueryPagesOpMod::InitPages)
        } else if c == 3 {
            Some(QueryPagesOpMod::RegularPages)
        } else {
            None
        }
    }
}

/// Asks how many pages the firmware wants (positive) or gives back
/// (negative) for one stage.
#[derive(PartialEq, Eq, Structural, Clone, Copy, Debug)]
pub struct QueryPages {
    pub op_mod: QueryPagesOpMod,
}

#[derive(PartialEq, Eq, Structural, Clone, Copy, Debug)]
pub struct QueryPagesOutput {
    pub base: BaseOutput,
    pub num_pages: i32,
}

impl View for QueryPages {
    type V = QueryPages;

    open spec fn view(&self) -> QueryPages {
        *self
    }
}

impl Wire for QueryPages {
    open spec fn valid(v: QueryPages) -> bool {
        true
    }

    open spec fn spec_encode(v: QueryPages) -> Seq<u8> {
        be16(OP_QUERY_PAGES) + zeros(4) + be16(query_op_code(v.op_mod)) + zeros(8)
    }

    open spec fn spec_decode(b: Seq<u8>) -> Option<QueryPages> {
        if b.len() >= 0x10 && from_be16(b.subrange(0, 2)) == OP_QUERY_PAGES {
            match query_op_of(from_be16(b.subrange(6, 8))) {
                Some(op_mod) => Some(QueryPages { op_mod }),
                None => None,
            }
        } else {
            None
        }
    }

    proof fn lemma_round_trip(v: QueryPages) {
        let b = Self::spec_encode(v);
        assert(b.subrange(0, 2) =~= be16(OP_QUERY_PAGES));
        assert(b.subrange(6, 8) =~= be16(query_op_code(v.op_mod)));
        lemma_be16_round_trip(OP_QUERY_PAGES);
        lemma_be16_round_trip(query_op_code(v.op_mod));
    }

    fn to_bytes(&self) -> (r: Vec<u8>) {
        let mut v: Vec<u8> = Vec::new();
        push_be16(&mut v, OP_QUERY_PAGES);
        push_zeros(&mut v, 4);
        push_be16(&mut v, self.op_mod.code());
        push_zeros(&mut v, 8);
        assert(v@ =~= Self::spec_encode(self@));
        v
    }

    fn from_bytes(b: &[u8]) -> (r: Option<Self>) {
        if b.len() >= 0x10 && read_be16(b, 0) == OP_QUERY_PAGES {
            match QueryPagesOpMod::from_code(read_be16(b, 6)) {
                Some(op_mod) => Some(QueryPages { op_mod }),
                None => None,
            }
        } else {
            None
        }
    }
}

impl Command for QueryPages {
    type Output = QueryPagesOutput;

    open spec fn spec_outlen(v: QueryPages) -> nat {
        0x10
    }

    fn size(&self) -> (r: usize) {
        0x10
    }

    fn outlen(&self) -> (r: usize) {
        0x10
    }
}

impl View for QueryPagesOutput {
    type V = QueryPagesOutput;

    open spec fn view(&self) -> QueryPagesOutput {
        *self
    }
}

impl Wire for QueryPagesOutput {
    open spec fn valid(v: QueryPagesOutput) -> bool {
        base_valid(v.base)
    }

    open spec fn spec_encode(v: QueryPagesOutput) -> Seq<u8> {
        encode_base(v.base) + zeros(4) + be32(v.num_pages as u32)
    }

    open spec fn spec_decode(b: Seq<u8>) -> Option<QueryPagesOutput> {
        if b.len() >= 0x10 {
            Some(
                QueryPagesOutput {
                    base: base_of(b),
                    num_pages: from_be32(b.subrange(12, 16)) as i32,
                },
            )
        } else {
            None
        }
    }

    proof fn lemma_round_trip(v: QueryPagesOutput) {
        let b = Self::spec_encode(v);
        lemma_base_round_trip(v.base, b.subrange(8, 16));
        assert(b =~= encode_base(v.base) + b.subrange(8, 16));
        assert(b.subrange(12, 16) =~= be32(v.num_pages as u32));
        lemma_be32_round_trip(v.num_pages as u32);
        let n = v.num_pages;
        assert(n as u32 as i32 == n) by (bit_vector);
    }

    fn to_bytes(&self) -> (r: Vec<u8>) {
        let mut v: Vec<u8> = Vec::new();
        push_base(&mut v, &self.base);
        push_zeros(&mut v, 4);
        push_be32(&mut v, self.num_pages as u32);
        assert(v@ =~= Self::spec_encode(self@));
        v
    }

    fn from_bytes(b: &[u8]) -> (r: Option<Self>) {
        if b.len() >= 0x10 {
            Some(QueryPagesOutput { base: read_base(b), num_pages: read_be32(b, 12) as i32 })
        } else {
            None
        }
    }
}

} // verus!
