//! Event queue commands.

use vstd::prelude::*;

use super::{base_of, base_valid, encode_base, lemma_base_round_trip, push_base, read_base};
use super::{BaseOutput, Command, Wire};
use super::create_mkey::{flag, has_bit};
use crate::wire::{
    be16, be24, be64, be64_seq, from_be16, from_be24, from_be64, lemma_be16_round_trip,
    lemma_be24_round_trip, lemma_be64_round_trip, lemma_be64_seq_len, lemma_words64_round_trip,
    push_be16, push_be24, push_be64, push_be64_seq, push_zeros, read_be16, read_be24, read_be64,
    read_be64_seq, words64, zeros,
};

verus! {

pub const OP_CREATE_EQ: u16 = 0x0301;

pub const OP_DESTROY_EQ: u16 = 0x0302;

pub const OP_QUERY_EQ: u16 = 0x0303;

pub const OP_GEN_EQE: u16 = 0x0304;

/// Bytes of an encoded event queue context.
pub const EQ_CONTEXT_LEN: usize = 60;

/// The event queue context.
#[derive(PartialEq, Eq, Structural, Clone, Copy, Debug)]
pub struct EQContext {
    /// Four bits.
    pub status: u8,
    pub ec: bool,
    pub oi: bool,
    /// Four bits.
    pub st: u8,
    /// Five bits.
    pub log_eq_size: u8,
    /// Twenty-four bits.
    pub uar_page: u32,
    pub intr: u8,
    /// Five bits.
    pub log_page_size: u8,
    /// Twenty-four bits.
    pub consumer_counter: u32,
    /// Twenty-four bits.
    pub producer_counter: u32,
}

pub open spec fn eq_context_valid(c: EQContext) -> bool {
    &&& c.status < 16
    &&& c.st < 16
    &&& c.log_eq_size < 32
    &&& c.uar_page < 0x100_0000
    &&& c.log_page_size < 32
    &&& c.consumer_counter < 0x100_0000
    &&& c.producer_counter < 0x100_0000
}

/// The first 16 bytes of an encoded context.
pub open spec fn eq_head(c: EQContext) -> Seq<u8> {
    seq![c.status << 4u8, flag(c.ec, 0x04) | flag(c.oi, 0x02), c.st, 0u8] + zeros(8)
        + seq![c.log_eq_size] + be24(c.uar_page)
}

/// The last 44 bytes of an encoded context.
pub open spec fn eq_tail(c: EQContext) -> Seq<u8> {
    zeros(7) + seq![c.intr, c.log_page_size] + zeros(3) + zeros(8) + seq![0u8] + be24(
        c.consumer_counter,
    ) + seq![0u8] + be24(c.producer_counter) + zeros(16)
}

pub open spec fn encode_eq_context(c: EQContext) -> Seq<u8> {
    eq_head(c) + eq_tail(c)
}

/// The context at the start of `b`, which holds at least 60 bytes.
pub open spec fn decode_eq_context(b: Seq<u8>) -> EQContext {
    EQContext {
        status: b[0] >> 4u8,
        ec: has_bit(b[1], 0x04),
        oi: has_bit(b[1], 0x02),
        st: b[2] & 0x0fu8,
        log_eq_size: b[12] & 0x1fu8,
        uar_page: from_be24(b.subrange(13, 16)),
        intr: b[23],
        log_page_size: b[24] & 0x1fu8,
        consumer_counter: from_be24(b.subrange(37, 40)),
        producer_counter: from_be24(b.subrange(41, 44)),
    }
}

/// Decoding an encoded valid context gives it back.
pub proof fn lemma_eq_context_round_trip(c: EQContext)
    requires
        eq_context_valid(c),
    ensures
        encode_eq_context(c).len() == EQ_CONTEXT_LEN,
        decode_eq_context(encode_eq_context(c)) == c,
{
    let b = encode_eq_context(c);
    let h = eq_head(c);
    let t = eq_tail(c);
    assert(h.len() == 16);
    assert(t.len() == 44);
    let s = c.status;
    assert(s < 16 ==> (s << 4u8) >> 4u8 == s) by (bit_vector);
    let f1 = flag(c.ec, 0x04);
    let f2 = flag(c.oi, 0x02);
    assert(((f1 | f2) & 0x04 != 0) == (f1 != 0) && ((f1 | f2) & 0x02 != 0) == (f2 != 0))
        by (bit_vector)
        requires
            f1 == 0 || f1 == 0x04,
            f2 == 0 || f2 == 0x02,
    ;
    let st = c.st;
    assert(st < 16 ==> st & 0x0fu8 == st) by (bit_vector);
    let l1 = c.log_eq_size;
    assert(l1 < 32 ==> l1 & 0x1fu8 == l1) by (bit_vector);
    let l2 = c.log_page_size;
    assert(l2 < 32 ==> l2 & 0x1fu8 == l2) by (bit_vector);
    assert(b[0] == h[0]);
    assert(b[1] == h[1]);
    assert(b[2] == h[2]);
    assert(b[12] == h[12]);
    assert(b[23] == t[7]);
    assert(b[24] == t[8]);
    assert(b.subrange(13, 16) =~= be24(c.uar_page));
    assert(b.subrange(37, 40) =~= be24(c.consumer_counter));
    assert(b.subrange(41, 44) =~= be24(c.producer_counter));
    lemma_be24_round_trip(c.uar_page);
    lemma_be24_round_trip(c.consumer_counter);
    lemma_be24_round_trip(c.producer_counter);
}

impl EQContext {
    fn push_head(&self, v: &mut Vec<u8>)
        ensures
            final(v)@ == old(v)@ + eq_head(*self),
    {
        let ghost start = v@;
        v.push(self.status << 4u8);
        let f1: u8 = if self.ec {
            0x04
        } else {
            0
        };
        let f2: u8 = if self.oi {
            0x02
        } else {
            0
        };
        v.push(f1 | f2);
        v.push(self.st);
        v.push(0u8);
        push_zeros(v, 8);
        v.push(self.log_eq_size);
        push_be24(v, self.uar_page);
        assert(v@ =~= start + eq_head(*self));
    }

    fn push_tail(&self, v: &mut Vec<u8>)
        ensures
            final(v)@ == old(v)@ + eq_tail(*self),
    {
        let ghost start = v@;
        push_zeros(v, 7);
        v.push(self.intr);
        v.push(self.log_page_size);
        push_zeros(v, 3);
        push_zeros(v, 8);
        v.push(0u8);
        push_be24(v, self.consumer_counter);
        v.push(0u8);
        push_be24(v, self.producer_counter);
        push_zeros(v, 16);
        assert(v@ =~= start + eq_tail(*self));
    }

    /// Appends the encoded context.
    pub fn push_bytes(&self, v: &mut Vec<u8>)
        ensures
            final(v)@ == old(v)@ + encode_eq_context(*self),
    {
        let ghost start = v@;
        self.push_head(v);
        self.push_tail(v);
        assert(v@ =~= start + encode_eq_context(*self));
    }

    /// The context at the start of `b`.
    pub fn read(b: &[u8]) -> (r: EQContext)
        requires
            b@.len() >= EQ_CONTEXT_LEN,
        ensures
            r == decode_eq_context(b@),
    {
        EQContext {
            status: b[0] >> 4u8,
            ec: b[1] & 0x04 != 0,
            oi: b[1] & 0x02 != 0,
            st: b[2] & 0x0fu8,
            log_eq_size: b[12] & 0x1fu8,
            uar_page: read_be24(b, 13),
            intr: b[23],
            log_page_size: b[24] & 0x1fu8,
            consumer_counter: read_be24(b, 37),
            producer_counter: read_be24(b, 41),
        }
    }
}

impl View for EQContext {
    type V = EQContext;

    open spec fn view(&self) -> EQContext {
        *self
    }
}

impl Wire for EQContext {
    open spec fn valid(v: EQContext) -> bool {
        eq_context_valid(v)
    }

    open spec fn spec_encode(v: EQContext) -> Seq<u8> {
        encode_eq_context(v)
    }

    open spec fn spec_decode(b: Seq<u8>) -> Option<EQContext> {
        if b.len() >= EQ_CONTEXT_LEN {
            Some(decode_eq_context(b))
        } else {
            None
        }
    }

    proof fn lemma_round_trip(v: EQContext) {
        lemma_eq_context_round_trip(v);
    }

    fn to_bytes(&self) -> (r: Vec<u8>) {
        let mut v: Vec<u8> = Vec::new();
        self.push_bytes(&mut v);
        assert(v@ =~= encode_eq_context(*self));
        v
    }

    fn from_bytes(b: &[u8]) -> (r: Option<Self>) {
        if b.len() >= EQ_CONTEXT_LEN {
            Some(EQContext::read(b))
        } else {
            None
        }
    }
}

/// Creates an event queue over the pages at `pas`.
#[derive(PartialEq, Eq, Debug)]
pub struct CreateEQ {
    pub ctx: EQContext,
    pub event_bitmask: u64,
    pub pas: Vec<u64>,
}

pub struct CreateEQView {
    pub ctx: EQContext,
    pub event_bitmask: u64,
    pub pas: Seq<u64>,
}

/// The reply carries the number of the new event queue.
#[derive(PartialEq, Eq, Structural, Clone, Copy, Debug)]
pub struct CreateEQOutput {
    pub base: BaseOutput,
    pub eq: u8,
}

/// Everything of a `CreateEQ` request before its page addresses.
pub open spec fn create_eq_prefix(v: CreateEQView) -> Seq<u8> {
    be16(OP_CREATE_EQ) + zeros(14) + encode_eq_context(v.ctx) + zeros(12) + be64(v.event_bitmask)
        + zeros(176)
}

impl View for CreateEQ {
    type V = CreateEQView;

    open spec fn view(&self) -> CreateEQView {
        CreateEQView { ctx: self.ctx, event_bitmask: self.event_bitmask, pas: self.pas@ }
    }
}

impl Wire for CreateEQ {
    open spec fn valid(v: CreateEQView) -> bool {
        eq_context_valid(v.ctx)
    }

    open spec fn spec_encode(v: CreateEQView) -> Seq<u8> {
        create_eq_prefix(v) + be64_seq(v.pas)
    }

    open spec fn spec_decode(b: Seq<u8>) -> Option<CreateEQView> {
        if b.len() >= 0x110 && from_be16(b.subrange(0, 2)) == OP_CREATE_EQ {
            Some(
                CreateEQView {
                    ctx: decode_eq_context(b.subrange(16, 76)),
                    event_bitmask: from_be64(b.subrange(0x58, 0x60)),
                    pas: words64(b, 0x110, ((b.len() - 0x110) / 8) as nat),
                },
            )
        } else {
            None
        }
    }

    proof fn lemma_round_trip(v: CreateEQView) {
        let p = create_eq_prefix(v);
        let b = Self::spec_encode(v);
        lemma_eq_context_round_trip(v.ctx);
        lemma_be64_seq_len(v.pas);
        assert(p.len() == 0x110);
        assert(b.subrange(0, 2) =~= be16(OP_CREATE_EQ));
        assert(b.subrange(16, 76) =~= encode_eq_context(v.ctx));
        assert(b.subrange(0x58, 0x60) =~= be64(v.event_bitmask));
        lemma_be16_round_trip(OP_CREATE_EQ);
        lemma_be64_round_trip(v.event_bitmask);
        assert((b.len() - 0x110) / 8 == v.pas.len());
        lemma_words64_round_trip(p, v.pas, Seq::empty());
        assert(p + be64_seq(v.pas) + Seq::<u8>::empty() =~= b);
    }

    fn to_bytes(&self) -> (r: Vec<u8>) {
        let mut v: Vec<u8> = Vec::new();
        push_be16(&mut v, OP_CREATE_EQ);
        push_zeros(&mut v, 14);
        self.ctx.push_bytes(&mut v);
        push_zeros(&mut v, 12);
        push_be64(&mut v, self.event_bitmask);
        push_zeros(&mut v, 176);
        assert(v@ =~= create_eq_prefix(self@));
        push_be64_seq(&mut v, self.pas.as_slice());
        v
    }

    fn from_bytes(b: &[u8]) -> (r: Option<Self>) {
        if b.len() < 0x110 || read_be16(b, 0) != OP_CREATE_EQ {
            return None;
        }
        let ctx = EQContext::read(&b[16..76]);
        let n = (b.len() - 0x110) / 8;
        let pas = read_be64_seq(b, 0x110, n);
        Some(CreateEQ { ctx, event_bitmask: read_be64(b, 0x58), pas })
    }
}

impl Command for CreateEQ {
    type Output = CreateEQOutput;

    open spec fn spec_outlen(v: CreateEQView) -> nat {
        0x10
    }

    fn size(&self) -> (r: usize) {
        proof {
            lemma_be64_seq_len(self.pas@);
        }
        0x110 + 8 * self.pas.len()
    }

    fn outlen(&self) -> (r: usize) {
        0x10
    }
}

impl View for CreateEQOutput {
    type V = CreateEQOutput;

    open spec fn view(&self) -> CreateEQOutput {
        *self
    }
}

impl Wire for CreateEQOutput {
    open spec fn valid(v: CreateEQOutput) -> bool {
        base_valid(v.base)
    }

    open spec fn spec_encode(v: CreateEQOutput) -> Seq<u8> {
        encode_base(v.base) + zeros(3) + seq![v.eq] + zeros(4)
    }

    open spec fn spec_decode(b: Seq<u8>) -> Option<CreateEQOutput> {
        if b.len() >= 0x10 {
            Some(CreateEQOutput { base: base_of(b), eq: b[11] })
        } else {
            None
        }
    }

    proof fn lemma_round_trip(v: CreateEQOutput) {
        let b = Self::spec_encode(v);
        lemma_base_round_trip(v.base, b.subrange(8, 16));
        assert(b =~= encode_base(v.base) + b.subrange(8, 16));
    }

    fn to_bytes(&self) -> (r: Vec<u8>) {
        let mut v: Vec<u8> = Vec::new();
        push_base(&mut v, &self.base);
        push_zeros(&mut v, 3);
        v.push(self.eq);
        push_zeros(&mut v, 4);
        assert(v@ =~= Self::spec_encode(self@));
        v
    }

    fn from_bytes(b: &[u8]) -> (r: Option<Self>) {
        if b.len() >= 0x10 {
            Some(CreateEQOutput { base: read_base(b), eq: b[11] })
        } else {
            None
        }
    }
}

/// Destroys event queue `eq`.
#[derive(PartialEq, Eq, Structural, Clone, Copy, Debug)]
pub struct DestroyEQ {
    pub eq: u8,
}

#[derive(PartialEq, Eq, Structural, Clone, Copy, Debug)]
pub struct DestroyEQOutput {
    pub base: BaseOutput,
}

impl View for DestroyEQ {
    type V = DestroyEQ;

    open spec fn view(&self) -> DestroyEQ {
        *self
    }
}

impl Wire for DestroyEQ {
    open spec fn valid(v: DestroyEQ) -> bool {
        true
    }

    open spec fn spec_encode(v: DestroyEQ) -> Seq<u8> {
        be16(OP_DESTROY_EQ) + zeros(9) + seq![v.eq] + zeros(4)
    }

    open spec fn spec_decode(b: Seq<u8>) -> Option<DestroyEQ> {
        if b.len() >= 0x10 && from_be16(b.subrange(0, 2)) == OP_DESTROY_EQ {
            Some(DestroyEQ { eq: b[11] })
        } else {
            None
        }
    }

    proof fn lemma_round_trip(v: DestroyEQ) {
        let b = Self::spec_encode(v);
        assert(b.subrange(0, 2) =~= be16(OP_DESTROY_EQ));
        lemma_be16_round_trip(OP_DESTROY_EQ);
    }

    fn to_bytes(&self) -> (r: Vec<u8>) {
        let mut v: Vec<u8> = Vec::new();
        push_be16(&mut v, OP_DESTROY_EQ);
        push_zeros(&mut v, 9);
        v.push(self.eq);
        push_zeros(&mut v, 4);
        assert(v@ =~= Self::spec_encode(self@));
        v
    }

    fn from_bytes(b: &[u8]) -> (r: Option<Self>) {
        if b.len() >= 0x10 && read_be16(b, 0) == OP_DESTROY_EQ {
            Some(DestroyEQ { eq: b[11] })
        } else {
            None
        }
    }
}

impl Command for DestroyEQ {
    type Output = DestroyEQOutput;

    open spec fn spec_outlen(v: DestroyEQ) -> nat {
        0x10
    }

    fn size(&self) -> (r: usize) {
        0x10
    }

    fn outlen(&self) -> (r: usize) {
        0x10
    }
}

impl View for DestroyEQOutput {
    type V = DestroyEQOutput;

    open spec fn view(&self) -> DestroyEQOutput {
        *self
    }
}

impl Wire for DestroyEQOutput {
    open spec fn valid(v: DestroyEQOutput) -> bool {
        base_valid(v.base)
    }

    open spec fn spec_encode(v: DestroyEQOutput) -> Seq<u8> {
        encode_base(v.base)
    }

    open spec fn spec_decode(b: Seq<u8>) -> Option<DestroyEQOutput> {
        if b.len() >= 8 {
            Some(DestroyEQOutput { base: base_of(b) })
        } else {
            None
        }
    }

    proof fn lemma_round_trip(v: DestroyEQOutput) {
        lemma_base_round_trip(v.base, Seq::empty());
        assert(encode_base(v.base) + Seq::<u8>::empty() =~= encode_base(v.base));
    }

    fn to_bytes(&self) -> (r: Vec<u8>) {
        let mut v: Vec<u8> = Vec::new();
        push_base(&mut v, &self.base);
        v
    }

    fn from_bytes(b: &[u8]) -> (r: Option<Self>) {
        if b.len() >= 8 {
            Some(DestroyEQOutput { base: read_base(b) })
        } else {
            None
        }
    }
}


/// The request for a command that names one event queue: its opcode, the
/// queue number in byte 11, and zeros elsewhere.
pub open spec fn eq_request(opcode: u16, eq: u8) -> Seq<u8> {
    be16(opcode) + zeros(9) + seq![eq] + zeros(4)
}

/// Reads the state of event queue `eq`.
#[derive(PartialEq, Eq, Structural, Clone, Copy, Debug)]
pub struct QueryEQ {
    pub eq: u8,
}

#[derive(PartialEq, Eq, Structural, Clone, Copy, Debug)]
pub struct QueryEQOutput {
    pub base: BaseOutput,
    pub ctx: EQContext,
    pub event_mask: u64,
}

impl View for QueryEQ {
    type V = QueryEQ;

    open spec fn view(&self) -> QueryEQ {
        *self
    }
}

impl Wire for QueryEQ {
    open spec fn valid(v: QueryEQ) -> bool {
        true
    }

    open spec fn spec_encode(v: QueryEQ) -> Seq<u8> {
        eq_request(OP_QUERY_EQ, v.eq)
    }

    open spec fn spec_decode(b: Seq<u8>) -> Option<QueryEQ> {
        if b.len() >= 0x10 && from_be16(b.subrange(0, 2)) == OP_QUERY_EQ {
            Some(QueryEQ { eq: b[11] })
        } else {
            None
        }
    }

    proof fn lemma_round_trip(v: QueryEQ) {
        let b = Self::spec_encode(v);
        assert(b.subrange(0, 2) =~= be16(OP_QUERY_EQ));
        lemma_be16_round_trip(OP_QUERY_EQ);
    }

    fn to_bytes(&self) -> (r: Vec<u8>) {
        let mut v: Vec<u8> = Vec::new();
        push_be16(&mut v, OP_QUERY_EQ);
        push_zeros(&mut v, 9);
        v.push(self.eq);
        push_zeros(&mut v, 4);
        assert(v@ =~= Self::spec_encode(self@));
        v
    }

    fn from_bytes(b: &[u8]) -> (r: Option<Self>) {
        if b.len() >= 0x10 && read_be16(b, 0) == OP_QUERY_EQ {
            Some(QueryEQ { eq: b[11] })
        } else {
            None
        }
    }
}

impl Command for QueryEQ {
    type Output = QueryEQOutput;

    open spec fn spec_outlen(v: QueryEQ) -> nat {
        0x110
    }

    fn size(&self) -> (r: usize) {
        0x10
    }

    fn outlen(&self) -> (r: usize) {
        0x110
    }
}

impl View for QueryEQOutput {
    type V = QueryEQOutput;

    open spec fn view(&self) -> QueryEQOutput {
        *self
    }
}

impl Wire for QueryEQOutput {
    open spec fn valid(v: QueryEQOutput) -> bool {
        base_valid(v.base) && eq_context_valid(v.ctx)
    }

    open spec fn spec_encode(v: QueryEQOutput) -> Seq<u8> {
        encode_base(v.base) + zeros(8) + encode_eq_context(v.ctx) + zeros(12) + be64(v.event_mask)
    }

    open spec fn spec_decode(b: Seq<u8>) -> Option<QueryEQOutput> {
        if b.len() >= 0x60 {
            Some(
                QueryEQOutput {
                    base: base_of(b),
                    ctx: decode_eq_context(b.subrange(16, 76)),
                    event_mask: from_be64(b.subrange(0x58, 0x60)),
                },
            )
        } else {
            None
        }
    }

    proof fn lemma_round_trip(v: QueryEQOutput) {
        let b = Self::spec_encode(v);
        lemma_eq_context_round_trip(v.ctx);
        lemma_base_round_trip(v.base, b.subrange(8, b.len() as int));
        assert(b =~= encode_base(v.base) + b.subrange(8, b.len() as int));
        assert(b.subrange(16, 76) =~= encode_eq_context(v.ctx));
        assert(b.subrange(0x58, 0x60) =~= be64(v.event_mask));
        lemma_be64_round_trip(v.event_mask);
    }

    fn to_bytes(&self) -> (r: Vec<u8>) {
        let mut v: Vec<u8> = Vec::new();
        push_base(&mut v, &self.base);
        push_zeros(&mut v, 8);
        self.ctx.push_bytes(&mut v);
        push_zeros(&mut v, 12);
        push_be64(&mut v, self.event_mask);
        assert(v@ =~= Self::spec_encode(self@));
        v
    }

    fn from_bytes(b: &[u8]) -> (r: Option<Self>) {
        if b.len() < 0x60 {
            return None;
        }
        Some(
            QueryEQOutput {
                base: read_base(b),
                ctx: EQContext::read(&b[16..76]),
                event_mask: read_be64(b, 0x58),
            },
        )
    }
}

/// Makes the device post the event `eqe` on queue `eq`.
#[derive(PartialEq, Eq, Debug)]
pub struct GenEQE {
    pub eq: u8,
    pub eqe: [u8; 0x40],
}

pub struct GenEQEView {
    pub eq: u8,
    pub eqe: Seq<u8>,
}

#[derive(PartialEq, Eq, Structural, Clone, Copy, Debug)]
pub struct GenEQEOutput {
    pub base: BaseOutput,
}

impl View for GenEQE {
    type V = GenEQEView;

    open spec fn view(&self) -> GenEQEView {
        GenEQEView { eq: self.eq, eqe: self.eqe@ }
    }
}

impl Wire for GenEQE {
    open spec fn valid(v: GenEQEView) -> bool {
        v.eqe.len() == 0x40
    }

    open spec fn spec_encode(v: GenEQEView) -> Seq<u8> {
        eq_request(OP_GEN_EQE, v.eq) + v.eqe
    }

    open spec fn spec_decode(b: Seq<u8>) -> Option<GenEQEView> {
        if b.len() >= 0x50 && from_be16(b.subrange(0, 2)) == OP_GEN_EQE {
            Some(GenEQEView { eq: b[11], eqe: b.subrange(0x10, 0x50) })
        } else {
            None
        }
    }

    proof fn lemma_round_trip(v: GenEQEView) {
        let b = Self::spec_encode(v);
        assert(b.subrange(0, 2) =~= be16(OP_GEN_EQE));
        assert(b.subrange(0x10, 0x50) =~= v.eqe);
        lemma_be16_round_trip(OP_GEN_EQE);
    }

    fn to_bytes(&self) -> (r: Vec<u8>) {
        let mut v: Vec<u8> = Vec::new();
        push_be16(&mut v, OP_GEN_EQE);
        push_zeros(&mut v, 9);
        v.push(self.eq);
        push_zeros(&mut v, 4);
        let ghost prefix = v@;
        let mut i: usize = 0;
        while i < 0x40
            invariant
                i <= 0x40,
                self.eqe@.len() == 0x40,
                v@ == prefix + self.eqe@.subrange(0, i as int),
            decreases 0x40 - i,
        {
            v.push(self.eqe[i]);
            i = i + 1;
            assert(v@ =~= prefix + self.eqe@.subrange(0, i as int));
        }
        assert(self.eqe@.subrange(0, 0x40) =~= self.eqe@);
        assert(v@ =~= Self::spec_encode(self@));
        v
    }

    fn from_bytes(b: &[u8]) -> (r: Option<Self>) {
        if b.len() < 0x50 || read_be16(b, 0) != OP_GEN_EQE {
            return None;
        }
        let mut eqe = [0u8; 0x40];
        let mut i: usize = 0;
        while i < 0x40
            invariant
                i <= 0x40,
                b@.len() >= 0x50,
                eqe@.len() == 0x40,
                forall|j: int| 0 <= j < i ==> eqe@[j] == b@[0x10 + j],
            decreases 0x40 - i,
        {
            eqe[i] = b[0x10 + i];
            i = i + 1;
        }
        assert(eqe@ =~= b@.subrange(0x10, 0x50));
        Some(GenEQE { eq: b[11], eqe })
    }
}

impl Command for GenEQE {
    type Output = GenEQEOutput;

    open spec fn spec_outlen(v: GenEQEView) -> nat {
        0x10
    }

    fn size(&self) -> (r: usize) {
        0x50
    }

    fn outlen(&self) -> (r: usize) {
        0x10
    }
}

impl View for GenEQEOutput {
    type V = GenEQEOutput;

    open spec fn view(&self) -> GenEQEOutput {
        *self
    }
}

impl Wire for GenEQEOutput {
    open spec fn valid(v: GenEQEOutput) -> bool {
        base_valid(v.base)
    }

    open spec fn spec_encode(v: GenEQEOutput) -> Seq<u8> {
        encode_base(v.base)
    }

    open spec fn spec_decode(b: Seq<u8>) -> Option<GenEQEOutput> {
        if b.len() >= 8 {
            Some(GenEQEOutput { base: base_of(b) })
        } else {
            None
        }
    }

    proof fn lemma_round_trip(v: GenEQEOutput) {
        lemma_base_round_trip(v.base, Seq::empty());
        assert(encode_base(v.base) + Seq::<u8>::empty() =~= encode_base(v.base));
    }

    fn to_bytes(&self) -> (r: Vec<u8>) {
        let mut v: Vec<u8> = Vec::new();
        push_base(&mut v, &self.base);
        v
    }

    fn from_bytes(b: &[u8]) -> (r: Option<Self>) {
        if b.len() >= 8 {
            Some(GenEQEOutput { base: read_base(b) })
        } else {
            None
        }
    }
}

} // verus!
