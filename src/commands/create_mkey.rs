//! Creating a memory key: a bit-packed context with a 2-bit access mode and
//! a 24-bit protection domain.

use vstd::prelude::*;

use super::{base_of, base_valid, encode_base, lemma_base_round_trip, push_base, read_base};
use super::{BaseOutput, Command, Wire};
use crate::wire::{
    be16, be24, be32, be64, be64_seq, from_be16, from_be24, from_be32, from_be64,
    lemma_be16_round_trip, lemma_be24_round_trip, lemma_be32_round_trip, lemma_be64_round_trip,
    lemma_be64_seq_len, lemma_words64_round_trip, push_be16, push_be24, push_be32, push_be64,
    push_be64_seq, push_zeros, read_be16, read_be24, read_be32, read_be64, read_be64_seq, words64,
    zeros,
};

verus! {

pub const OP_CREATE_MKEY: u16 = 0x0200;

/// Bytes of an encoded context.
pub const MKEY_CONTEXT_LEN: usize = 64;

/// How the key translates addresses.
#[derive(PartialEq, Eq, Structural, Clone, Copy, Debug)]
pub enum AccessMode {
    PA,
    MTT,
    KLMs,
}

pub open spec fn access_mode_code(m: AccessMode) -> u8 {
    match m {
        AccessMode::PA => 0,
        AccessMode::MTT => 1,
        AccessMode::KLMs => 2,
    }
}

pub open spec fn access_mode_of(c: u8) -> Option<AccessMode> {
    if c == 0 {
        Some(AccessMode::PA)
    } else if c == 1 {
        Some(AccessMode::MTT)
    } else if c == 2 {
        Some(AccessMode::KLMs)
    } else {
        None
    }
}

impl AccessMode {
    pub fn code(&self) -> (r: u8)
        ensures
            r == access_mode_code(*self),
    {
        match self {
            AccessMode::PA => 0,
            AccessMode::MTT => 1,
            AccessMode::KLMs => 2,
        }
    }

    pub fn from_code(c: u8) -> (r: Option<AccessMode>)
        ensures
            r == access_mode_of(c),
    {
        if c == 0 {
            Some(AccessMode::PA)
        } else if c == 1 {
            Some(AccessMode::MTT)
        } else if c == 2 {
            Some(AccessMode::KLMs)
        } else {
            None
        }
    }
}

/// The memory key context.
#[derive(PartialEq, Eq, Structural, Clone, Copy, Debug)]
pub struct MKeyContext {
    pub free: bool,
    pub umr_en: bool,
    pub a: bool,
    pub rw: bool,
    pub rr: bool,
    pub lw: bool,
    pub lr: bool,
    pub access_mode: AccessMode,
    /// Twenty-four bits.
    pub qpn: u32,
    pub mkey: u8,
    pub length64: bool,
    /// Twenty-four bits.
    pub pd: u32,
    pub start_addr: u64,
    pub len: u64,
    pub bsf_octword_size: u32,
    pub translation_octword_size: u32,
    /// Five bits.
    pub log_entry_size: u8,
}

/// `mask` when `v` holds, else 0.
pub open spec fn flag(v: bool, mask: u8) -> u8 {
    if v {
        mask
    } else {
        0u8
    }
}

/// Whether any bit of `mask` is set in `b`.
pub open spec fn has_bit(b: u8, mask: u8) -> bool {
    b & mask != 0
}

/// The byte holding the access flags and, in its low two bits, the mode.
pub open spec fn access_byte(c: MKeyContext) -> u8 {
    flag(c.umr_en, 0x80) | flag(c.a, 0x40) | flag(c.rw, 0x20) | flag(c.rr, 0x10) | flag(c.lw, 0x08)
        | flag(c.lr, 0x04) | access_mode_code(c.access_mode)
}

/// The first 16 bytes of an encoded context.
pub open spec fn mkey_head(c: MKeyContext) -> Seq<u8> {
    seq![flag(c.free, 0x40), 0u8, access_byte(c), 0u8] + be24(c.qpn) + seq![c.mkey] + zeros(4)
        + seq![flag(c.length64, 0x80)] + be24(c.pd)
}

/// The last 48 bytes of an encoded context.
pub open spec fn mkey_tail(c: MKeyContext) -> Seq<u8> {
    be64(c.start_addr) + be64(c.len) + be32(c.bsf_octword_size) + zeros(16) + be32(
        c.translation_octword_size,
    ) + zeros(3) + seq![c.log_entry_size] + zeros(4)
}

pub open spec fn encode_mkey_context(c: MKeyContext) -> Seq<u8> {
    mkey_head(c) + mkey_tail(c)
}

/// The context at the start of `b`, which holds at least 64 bytes.
pub open spec fn decode_mkey_context(b: Seq<u8>) -> Option<MKeyContext> {
    match access_mode_of(b[2] & 3u8) {
        Some(access_mode) => Some(
            MKeyContext {
                free: has_bit(b[0], 0x40),
                umr_en: has_bit(b[2], 0x80),
                a: has_bit(b[2], 0x40),
                rw: has_bit(b[2], 0x20),
                rr: has_bit(b[2], 0x10),
                lw: has_bit(b[2], 0x08),
                lr: has_bit(b[2], 0x04),
                access_mode,
                qpn: from_be24(b.subrange(4, 7)),
                mkey: b[7],
                length64: has_bit(b[12], 0x80),
                pd: from_be24(b.subrange(13, 16)),
                start_addr: from_be64(b.subrange(16, 24)),
                len: from_be64(b.subrange(24, 32)),
                bsf_octword_size: from_be32(b.subrange(32, 36)),
                translation_octword_size: from_be32(b.subrange(52, 56)),
                log_entry_size: b[59] & 0x1fu8,
            },
        ),
        None => None,
    }
}

pub open spec fn mkey_context_valid(c: MKeyContext) -> bool {
    c.qpn < 0x100_0000 && c.pd < 0x100_0000 && c.log_entry_size < 32
}

proof fn lemma_access_byte(c: MKeyContext)
    ensures
        has_bit(access_byte(c), 0x80) == c.umr_en,
        has_bit(access_byte(c), 0x40) == c.a,
        has_bit(access_byte(c), 0x20) == c.rw,
        has_bit(access_byte(c), 0x10) == c.rr,
        has_bit(access_byte(c), 0x08) == c.lw,
        has_bit(access_byte(c), 0x04) == c.lr,
        access_byte(c) & 3u8 == access_mode_code(c.access_mode),
{
    let fu = flag(c.umr_en, 0x80);
    let fa = flag(c.a, 0x40);
    let f5 = flag(c.rw, 0x20);
    let f4 = flag(c.rr, 0x10);
    let f3 = flag(c.lw, 0x08);
    let f2 = flag(c.lr, 0x04);
    let m = access_mode_code(c.access_mode);
    let b = access_byte(c);
    assert((b & 0x80 != 0) == (fu != 0) && (b & 0x40 != 0) == (fa != 0) && (b & 0x20 != 0) == (f5
        != 0) && (b & 0x10 != 0) == (f4 != 0) && (b & 0x08 != 0) == (f3 != 0) && (b & 0x04 != 0)
        == (f2 != 0) && b & 3u8 == m) by (bit_vector)
        requires
            fu == 0 || fu == 0x80,
            fa == 0 || fa == 0x40,
            f5 == 0 || f5 == 0x20,
            f4 == 0 || f4 == 0x10,
            f3 == 0 || f3 == 0x08,
            f2 == 0 || f2 == 0x04,
            m < 3,
            b == fu | fa | f5 | f4 | f3 | f2 | m,
    ;
}

/// Decoding an encoded valid context gives it back.
pub proof fn lemma_mkey_context_round_trip(c: MKeyContext)
    requires
        mkey_context_valid(c),
    ensures
        decode_mkey_context(encode_mkey_context(c)) == Some(c),
        encode_mkey_context(c).len() == MKEY_CONTEXT_LEN,
{
    let h = mkey_head(c);
    let t = mkey_tail(c);
    let b = encode_mkey_context(c);
    assert(h.len() == 16);
    assert(t.len() == 48);
    lemma_access_byte(c);
    let f0 = flag(c.free, 0x40);
    assert((f0 & 0x40 != 0) == (f0 != 0)) by (bit_vector)
        requires
            f0 == 0 || f0 == 0x40,
    ;
    let f12 = flag(c.length64, 0x80);
    assert((f12 & 0x80 != 0) == (f12 != 0)) by (bit_vector)
        requires
            f12 == 0 || f12 == 0x80,
    ;
    assert(b[0] == h[0]);
    assert(b[2] == h[2]);
    assert(b[7] == h[7]);
    assert(b[12] == h[12]);
    assert(b.subrange(4, 7) =~= be24(c.qpn));
    assert(b.subrange(13, 16) =~= be24(c.pd));
    assert(b[59] == t[43]);
    assert(b.subrange(16, 24) =~= be64(c.start_addr));
    assert(b.subrange(24, 32) =~= be64(c.len));
    assert(b.subrange(32, 36) =~= be32(c.bsf_octword_size));
    assert(b.subrange(52, 56) =~= be32(c.translation_octword_size));
    lemma_be24_round_trip(c.qpn);
    lemma_be24_round_trip(c.pd);
    lemma_be64_round_trip(c.start_addr);
    lemma_be64_round_trip(c.len);
    lemma_be32_round_trip(c.bsf_octword_size);
    lemma_be32_round_trip(c.translation_octword_size);
    let l = c.log_entry_size;
    assert(l < 32 ==> l & 0x1fu8 == l) by (bit_vector);
}

fn flag_exec(v: bool, mask: u8) -> (r: u8)
    ensures
        r == flag(v, mask),
{
    if v {
        mask
    } else {
        0u8
    }
}

impl MKeyContext {
    fn push_head(&self, v: &mut Vec<u8>)
        ensures
            final(v)@ == old(v)@ + mkey_head(*self),
    {
        let ghost start = v@;
        let ab = flag_exec(self.umr_en, 0x80) | flag_exec(self.a, 0x40) | flag_exec(self.rw, 0x20)
            | flag_exec(self.rr, 0x10) | flag_exec(self.lw, 0x08) | flag_exec(self.lr, 0x04)
            | self.access_mode.code();
        v.push(flag_exec(self.free, 0x40));
        v.push(0u8);
        v.push(ab);
        v.push(0u8);
        push_be24(v, self.qpn);
        v.push(self.mkey);
        push_zeros(v, 4);
        v.push(flag_exec(self.length64, 0x80));
        push_be24(v, self.pd);
        assert(v@ =~= start + mkey_head(*self));
    }

    fn push_tail(&self, v: &mut Vec<u8>)
        ensures
            final(v)@ == old(v)@ + mkey_tail(*self),
    {
        let ghost start = v@;
        push_be64(v, self.start_addr);
        push_be64(v, self.len);
        push_be32(v, self.bsf_octword_size);
        push_zeros(v, 16);
        push_be32(v, self.translation_octword_size);
        push_zeros(v, 3);
        v.push(self.log_entry_size);
        push_zeros(v, 4);
        assert(v@ =~= start + mkey_tail(*self));
    }

    pub fn push_bytes(&self, v: &mut Vec<u8>)
        ensures
            final(v)@ == old(v)@ + encode_mkey_context(*self),
    {
        let ghost start = v@;
        self.push_head(v);
        self.push_tail(v);
        assert(v@ =~= start + encode_mkey_context(*self));
    }

    /// The context at the start of `b`; `None` for an unknown access mode.
    pub fn read(b: &[u8]) -> (r: Option<MKeyContext>)
        requires
            b@.len() >= MKEY_CONTEXT_LEN,
        ensures
            r == decode_mkey_context(b@),
    {
        let access_mode = match AccessMode::from_code(b[2] & 3u8) {
            Some(m) => m,
            None => {
                return None;
            },
        };
        Some(
            MKeyContext {
                free: b[0] & 0x40 != 0,
                umr_en: b[2] & 0x80 != 0,
                a: b[2] & 0x40 != 0,
                rw: b[2] & 0x20 != 0,
                rr: b[2] & 0x10 != 0,
                lw: b[2] & 0x08 != 0,
                lr: b[2] & 0x04 != 0,
                access_mode,
                qpn: read_be24(b, 4),
                mkey: b[7],
                length64: b[12] & 0x80 != 0,
                pd: read_be24(b, 13),
                start_addr: read_be64(b, 16),
                len: read_be64(b, 24),
                bsf_octword_size: read_be32(b, 32),
                translation_octword_size: read_be32(b, 52),
                log_entry_size: b[59] & 0x1fu8,
            },
        )
    }
}

impl View for MKeyContext {
    type V = MKeyContext;

    open spec fn view(&self) -> MKeyContext {
        *self
    }
}

impl Wire for MKeyContext {
    open spec fn valid(v: MKeyContext) -> bool {
        mkey_context_valid(v)
    }

    open spec fn spec_encode(v: MKeyContext) -> Seq<u8> {
        encode_mkey_context(v)
    }

    open spec fn spec_decode(b: Seq<u8>) -> Option<MKeyContext> {
        if b.len() >= MKEY_CONTEXT_LEN {
            decode_mkey_context(b)
        } else {
            None
        }
    }

    proof fn lemma_round_trip(v: MKeyContext) {
        lemma_mkey_context_round_trip(v);
    }

    fn to_bytes(&self) -> (r: Vec<u8>) {
        let mut v: Vec<u8> = Vec::new();
        self.push_bytes(&mut v);
        assert(v@ =~= encode_mkey_context(*self));
        v
    }

    fn from_bytes(b: &[u8]) -> (r: Option<Self>) {
        if b.len() >= MKEY_CONTEXT_LEN {
            MKeyContext::read(b)
        } else {
            None
        }
    }
}

/// Creates a memory key with `context`, followed by its translation entries.
#[derive(PartialEq, Eq, Debug)]
pub struct CreateMKey {
    pub pg_access: bool,
    pub umem_valid: bool,
    pub context: MKeyContext,
    pub translation_octwords_actual_size: u32,
    pub translation_entries: Vec<u64>,
}

pub struct CreateMKeyView {
    pub pg_access: bool,
    pub umem_valid: bool,
    pub context: MKeyContext,
    pub translation_octwords_actual_size: u32,
    pub translation_entries: Seq<u64>,
}

/// The reply carries the 24-bit index of the new key.
#[derive(PartialEq, Eq, Structural, Clone, Copy, Debug)]
pub struct CreateMKeyOutput {
    pub base: BaseOutput,
    pub mkey_index: u32,
}

/// Everything of a `CreateMKey` request before its translation entries.
pub open spec fn create_mkey_prefix(v: CreateMKeyView) -> Seq<u8> {
    be16(OP_CREATE_MKEY) + zeros(10) + seq![flag(v.pg_access, 0x80) | flag(v.umem_valid, 0x40)]
        + zeros(3) + encode_mkey_context(v.context) + zeros(16) + be32(
        v.translation_octwords_actual_size,
    ) + zeros(172)
}

impl View for CreateMKey {
    type V = CreateMKeyView;

    open spec fn view(&self) -> CreateMKeyView {
        CreateMKeyView {
            pg_access: self.pg_access,
            umem_valid: self.umem_valid,
            context: self.context,
            translation_octwords_actual_size: self.translation_octwords_actual_size,
            translation_entries: self.translation_entries@,
        }
    }
}

impl Wire for CreateMKey {
    open spec fn valid(v: CreateMKeyView) -> bool {
        mkey_context_valid(v.context) && v.translation_entries.len()
            == v.translation_octwords_actual_size
    }

    open spec fn spec_encode(v: CreateMKeyView) -> Seq<u8> {
        create_mkey_prefix(v) + be64_seq(v.translation_entries)
    }

    open spec fn spec_decode(b: Seq<u8>) -> Option<CreateMKeyView> {
        if b.len() >= 0x110 && from_be16(b.subrange(0, 2)) == OP_CREATE_MKEY {
            let n = from_be32(b.subrange(96, 100));
            match decode_mkey_context(b.subrange(16, 80)) {
                Some(context) => if b.len() >= 0x110 + 8 * n {
                    Some(
                        CreateMKeyView {
                            pg_access: has_bit(b[12], 0x80),
                            umem_valid: has_bit(b[12], 0x40),
                            context,
                            translation_octwords_actual_size: n,
                            translation_entries: words64(b, 0x110, n as nat),
                        },
                    )
                } else {
                    None
                },
                None => None,
            }
        } else {
            None
        }
    }

    proof fn lemma_round_trip(v: CreateMKeyView) {
        let p = create_mkey_prefix(v);
        let b = Self::spec_encode(v);
        lemma_mkey_context_round_trip(v.context);
        lemma_be64_seq_len(v.translation_entries);
        assert(p.len() == 0x110);
        assert(b.subrange(0, 2) =~= be16(OP_CREATE_MKEY));
        assert(b.subrange(16, 80) =~= encode_mkey_context(v.context));
        assert(b.subrange(96, 100) =~= be32(v.translation_octwords_actual_size));
        lemma_be16_round_trip(OP_CREATE_MKEY);
        lemma_be32_round_trip(v.translation_octwords_actual_size);
        let f1 = flag(v.pg_access, 0x80);
        let f2 = flag(v.umem_valid, 0x40);
        assert(((f1 | f2) & 0x80 != 0) == (f1 != 0) && ((f1 | f2) & 0x40 != 0) == (f2 != 0))
            by (bit_vector)
            requires
                f1 == 0 || f1 == 0x80,
                f2 == 0 || f2 == 0x40,
        ;
        assert(b[12] == f1 | f2);
        lemma_words64_round_trip(p, v.translation_entries, Seq::empty());
        assert(p + be64_seq(v.translation_entries) + Seq::<u8>::empty() =~= b);
    }

    fn to_bytes(&self) -> (r: Vec<u8>) {
        let mut v: Vec<u8> = Vec::new();
        push_be16(&mut v, OP_CREATE_MKEY);
        push_zeros(&mut v, 10);
        v.push(flag_exec(self.pg_access, 0x80) | flag_exec(self.umem_valid, 0x40));
        push_zeros(&mut v, 3);
        self.context.push_bytes(&mut v);
        push_zeros(&mut v, 16);
        push_be32(&mut v, self.translation_octwords_actual_size);
        push_zeros(&mut v, 172);
        assert(v@ =~= create_mkey_prefix(self@));
        push_be64_seq(&mut v, self.translation_entries.as_slice());
        v
    }

    fn from_bytes(b: &[u8]) -> (r: Option<Self>) {
        if b.len() < 0x110 || read_be16(b, 0) != OP_CREATE_MKEY {
            return None;
        }
        let n = read_be32(b, 96);
        let context = match MKeyContext::read(&b[16..80]) {
            Some(c) => c,
            None => {
                return None;
            },
        };
        if (n as usize) > (b.len() - 0x110) / 8 {
            return None;
        }
        let translation_entries = read_be64_seq(b, 0x110, n as usize);
        Some(
            CreateMKey {
                pg_access: b[12] & 0x80 != 0,
                umem_valid: b[12] & 0x40 != 0,
                context,
                translation_octwords_actual_size: n,
                translation_entries,
            },
        )
    }
}

impl Command for CreateMKey {
    type Output = CreateMKeyOutput;

    open spec fn spec_outlen(v: CreateMKeyView) -> nat {
        0x10
    }

    fn size(&self) -> (r: usize) {
        proof {
            lemma_be64_seq_len(self.translation_entries@);
        }
        0x110 + 8 * self.translation_entries.len()
    }

    fn outlen(&self) -> (r: usize) {
        0x10
    }
}

impl View for CreateMKeyOutput {
    type V = CreateMKeyOutput;

    open spec fn view(&self) -> CreateMKeyOutput {
        *self
    }
}

impl Wire for CreateMKeyOutput {
    open spec fn valid(v: CreateMKeyOutput) -> bool {
        base_valid(v.base) && v.mkey_index < 0x100_0000
    }

    open spec fn spec_encode(v: CreateMKeyOutput) -> Seq<u8> {
        encode_base(v.base) + seq![0u8] + be24(v.mkey_index)
    }

    open spec fn spec_decode(b: Seq<u8>) -> Option<CreateMKeyOutput> {
        if b.len() >= 12 {
            Some(CreateMKeyOutput { base: base_of(b), mkey_index: from_be24(b.subrange(9, 12)) })
        } else {
            None
        }
    }

    proof fn lemma_round_trip(v: CreateMKeyOutput) {
        let b = Self::spec_encode(v);
        lemma_base_round_trip(v.base, b.subrange(8, 12));
        assert(b =~= encode_base(v.base) + b.subrange(8, 12));
        assert(b.subrange(9, 12) =~= be24(v.mkey_index));
        lemma_be24_round_trip(v.mkey_index);
    }

    fn to_bytes(&self) -> (r: Vec<u8>) {
        let mut v: Vec<u8> = Vec::new();
        push_base(&mut v, &self.base);
        v.push(0u8);
        push_be24(&mut v, self.mkey_index);
        assert(v@ =~= Self::spec_encode(self@));
        v
    }

    fn from_bytes(b: &[u8]) -> (r: Option<Self>) {
        if b.len() >= 12 {
            Some(CreateMKeyOutput { base: read_base(b), mkey_index: read_be24(b, 9) })
        } else {
            None
        }
    }
}

} // verus!
