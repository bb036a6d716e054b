//! Registers of the firmware tracer.

use vstd::prelude::*;

use super::Register;
use crate::commands::Wire;
use crate::wire::{
    be16, be24, be32, be64_seq, from_be16, from_be24, from_be32, lemma_be16_round_trip,
    lemma_be24_round_trip, lemma_be32_round_trip, lemma_be64_round_trip, lemma_be64_seq_len,
    lemma_words64_round_trip, push_be16, push_be24, push_be32, push_be64_seq, push_zeros,
    read_be16, read_be24, read_be32, read_be64_seq, words64, zeros,
};

verus! {

/// Tracer configuration.
#[derive(PartialEq, Eq, Structural, Clone, Copy, Debug)]
pub struct MtrcConfReg {
    /// Four bits.
    pub trace_mode: u8,
    pub log_trace_buffer_size: u8,
    pub trace_mkey: u32,
}

impl View for MtrcConfReg {
    type V = MtrcConfReg;

    open spec fn view(&self) -> MtrcConfReg {
        *self
    }
}

impl Wire for MtrcConfReg {
    open spec fn valid(v: MtrcConfReg) -> bool {
        v.trace_mode < 16
    }

    open spec fn spec_encode(v: MtrcConfReg) -> Seq<u8> {
        zeros(3) + seq![v.trace_mode] + zeros(3) + seq![v.log_trace_buffer_size] + be32(
            v.trace_mkey,
        )
    }

    open spec fn spec_decode(b: Seq<u8>) -> Option<MtrcConfReg> {
        if b.len() >= 12 {
            Some(
                MtrcConfReg {
                    trace_mode: b[3] & 0x0fu8,
                    log_trace_buffer_size: b[7],
                    trace_mkey: from_be32(b.subrange(8, 12)),
                },
            )
        } else {
            None
        }
    }

    proof fn lemma_round_trip(v: MtrcConfReg) {
        let b = Self::spec_encode(v);
        assert(b.subrange(8, 12) =~= be32(v.trace_mkey));
        lemma_be32_round_trip(v.trace_mkey);
        let m = v.trace_mode;
        assert(m < 16 ==> m & 0x0fu8 == m) by (bit_vector);
    }

    fn to_bytes(&self) -> (r: Vec<u8>) {
        let mut v: Vec<u8> = Vec::new();
        push_zeros(&mut v, 3);
        v.push(self.trace_mode);
        push_zeros(&mut v, 3);
        v.push(self.log_trace_buffer_size);
        push_be32(&mut v, self.trace_mkey);
        assert(v@ =~= Self::spec_encode(self@));
        v
    }

    fn from_bytes(b: &[u8]) -> (r: Option<Self>) {
        if b.len() >= 12 {
            Some(
                MtrcConfReg {
                    trace_mode: b[3] & 0x0fu8,
                    log_trace_buffer_size: b[7],
                    trace_mkey: read_be32(b, 8),
                },
            )
        } else {
            None
        }
    }
}

impl Register for MtrcConfReg {
    open spec fn spec_register_id() -> u16 {
        0x9041
    }

    fn register_id() -> (r: u16) {
        0x9041
    }

    fn size(&self) -> (r: usize) {
        12
    }
}

/// One window of the tracer's string database.
#[derive(PartialEq, Eq, Debug)]
pub struct MtrcStdbReg {
    /// Four bits.
    pub index: u8,
    /// Twenty-four bits.
    pub size: u32,
    pub offset: u32,
    pub data: [u8; 64],
}

pub struct MtrcStdbRegView {
    pub index: u8,
    pub size: u32,
    pub offset: u32,
    pub data: Seq<u8>,
}

impl View for MtrcStdbReg {
    type V = MtrcStdbRegView;

    open spec fn view(&self) -> MtrcStdbRegView {
        MtrcStdbRegView { index: self.index, size: self.size, offset: self.offset, data: self.data@ }
    }
}

impl Default for MtrcStdbReg {
    /// An all-zero window.
    fn default() -> (r: MtrcStdbReg)
        ensures
            r@.index == 0,
            r@.size == 0,
            r@.offset == 0,
            r@.data == zeros(64),
    {
        let r = MtrcStdbReg { index: 0, size: 0, offset: 0, data: [0u8; 64] };
        assert(r.data@ =~= zeros(64));
        r
    }
}

impl Wire for MtrcStdbReg {
    open spec fn valid(v: MtrcStdbRegView) -> bool {
        v.index < 16 && v.size < 0x100_0000 && v.data.len() == 64
    }

    open spec fn spec_encode(v: MtrcStdbRegView) -> Seq<u8> {
        seq![(v.index << 4u8) as u8] + be24(v.size) + be32(v.offset) + v.data
    }

    open spec fn spec_decode(b: Seq<u8>) -> Option<MtrcStdbRegView> {
        if b.len() >= 72 {
            Some(
                MtrcStdbRegView {
                    index: b[0] >> 4u8,
                    size: from_be24(b.subrange(1, 4)),
                    offset: from_be32(b.subrange(4, 8)),
                    data: b.subrange(8, 72),
                },
            )
        } else {
            None
        }
    }

    proof fn lemma_round_trip(v: MtrcStdbRegView) {
        let b = Self::spec_encode(v);
        assert(b.subrange(1, 4) =~= be24(v.size));
        assert(b.subrange(4, 8) =~= be32(v.offset));
        assert(b.subrange(8, 72) =~= v.data);
        lemma_be24_round_trip(v.size);
        lemma_be32_round_trip(v.offset);
        let i = v.index;
        assert(i < 16 ==> ((i << 4u8) as u8) >> 4u8 == i) by (bit_vector);
    }

    fn to_bytes(&self) -> (r: Vec<u8>) {
        let mut v: Vec<u8> = Vec::new();
        v.push((self.index << 4u8) as u8);
        push_be24(&mut v, self.size);
        push_be32(&mut v, self.offset);
        let ghost prefix = v@;
        let mut i: usize = 0;
        while i < 64
            invariant
                i <= 64,
                self.data@.len() == 64,
                v@ == prefix + self.data@.subrange(0, i as int),
            decreases 64 - i,
        {
            v.push(self.data[i]);
            i = i + 1;
            assert(v@ =~= prefix + self.data@.subrange(0, i as int));
        }
        assert(self.data@.subrange(0, 64) =~= self.data@);
        v
    }

    fn from_bytes(b: &[u8]) -> (r: Option<Self>) {
        if b.len() < 72 {
            return None;
        }
        let mut data = [0u8; 64];
        let mut i: usize = 0;
        while i < 64
            invariant
                i <= 64,
                b@.len() >= 72,
                data@.len() == 64,
                forall|j: int| 0 <= j < i ==> data@[j] == b@[8 + j],
            decreases 64 - i,
        {
            data[i] = b[8 + i];
            i = i + 1;
        }
        assert(data@ =~= b@.subrange(8, 72));
        Some(
            MtrcStdbReg {
                index: b[0] >> 4u8,
                size: read_be24(b, 1),
                offset: read_be32(b, 4),
                data,
            },
        )
    }
}

impl Register for MtrcStdbReg {
    open spec fn spec_register_id() -> u16 {
        0x9042
    }

    fn register_id() -> (r: u16) {
        0x9042
    }

    fn size(&self) -> (r: usize) {
        72
    }
}

/// Tracer control.
#[derive(PartialEq, Eq, Structural, Clone, Copy, Debug, Default)]
pub struct MtrcCtrlReg {
    /// Two bits.
    pub trace_status: u8,
    pub arm_event: bool,
    pub modify_field_select: u16,
    pub timestamp_hi: u32,
    pub timestamp_lo: u32,
}

/// The first byte of a tracer control register.
pub open spec fn ctrl_byte(r: MtrcCtrlReg) -> u8 {
    (r.trace_status << 6u8) | if r.arm_event {
        0x08u8
    } else {
        0u8
    }
}

impl View for MtrcCtrlReg {
    type V = MtrcCtrlReg;

    open spec fn view(&self) -> MtrcCtrlReg {
        *self
    }
}

impl Wire for MtrcCtrlReg {
    open spec fn valid(v: MtrcCtrlReg) -> bool {
        v.trace_status < 4
    }

    open spec fn spec_encode(v: MtrcCtrlReg) -> Seq<u8> {
        seq![ctrl_byte(v), 0u8] + be16(v.modify_field_select) + zeros(4) + be32(v.timestamp_hi)
            + be32(v.timestamp_lo)
    }

    open spec fn spec_decode(b: Seq<u8>) -> Option<MtrcCtrlReg> {
        if b.len() >= 16 {
            Some(
                MtrcCtrlReg {
                    trace_status: b[0] >> 6u8,
                    arm_event: b[0] & 0x08u8 != 0,
                    modify_field_select: from_be16(b.subrange(2, 4)),
                    timestamp_hi: from_be32(b.subrange(8, 12)),
                    timestamp_lo: from_be32(b.subrange(12, 16)),
                },
            )
        } else {
            None
        }
    }

    proof fn lemma_round_trip(v: MtrcCtrlReg) {
        let b = Self::spec_encode(v);
        let t = v.trace_status;
        let f: u8 = if v.arm_event {
            0x08u8
        } else {
            0u8
        };
        assert(((t << 6u8) | f) >> 6u8 == t && ((((t << 6u8) | f) & 0x08u8 != 0) == (f != 0)))
            by (bit_vector)
            requires
                t < 4,
                f == 0 || f == 0x08,
        ;
        assert(b.subrange(2, 4) =~= be16(v.modify_field_select));
        assert(b.subrange(8, 12) =~= be32(v.timestamp_hi));
        assert(b.subrange(12, 16) =~= be32(v.timestamp_lo));
        lemma_be16_round_trip(v.modify_field_select);
        lemma_be32_round_trip(v.timestamp_hi);
        lemma_be32_round_trip(v.timestamp_lo);
    }

    fn to_bytes(&self) -> (r: Vec<u8>) {
        let mut v: Vec<u8> = Vec::new();
        let f: u8 = if self.arm_event {
            0x08
        } else {
            0
        };
        v.push((self.trace_status << 6u8) | f);
        v.push(0u8);
        push_be16(&mut v, self.modify_field_select);
        push_zeros(&mut v, 4);
        push_be32(&mut v, self.timestamp_hi);
        push_be32(&mut v, self.timestamp_lo);
        assert(v@ =~= Self::spec_encode(self@));
        v
    }

    fn from_bytes(b: &[u8]) -> (r: Option<Self>) {
        if b.len() >= 16 {
            Some(
                MtrcCtrlReg {
                    trace_status: b[0] >> 6u8,
                    arm_event: b[0] & 0x08u8 != 0,
                    modify_field_select: read_be16(b, 2),
                    timestamp_hi: read_be32(b, 8),
                    timestamp_lo: read_be32(b, 12),
                },
            )
        } else {
            None
        }
    }
}

impl Register for MtrcCtrlReg {
    open spec fn spec_register_id() -> u16 {
        0x9043
    }

    fn register_id() -> (r: u16) {
        0x9043
    }

    fn size(&self) -> (r: usize) {
        16
    }
}

/// Where one string database lies.
#[derive(PartialEq, Eq, Structural, Clone, Copy, Debug, Default)]
pub struct StringDbParam {
    pub address: u32,
    pub size: u32,
}

/// The eight bytes of a string database entry, as one big-endian word.
pub open spec fn param_word(p: StringDbParam) -> u64 {
    ((p.address as u64) << 32u64) | (p.size as u64)
}

pub open spec fn param_of(w: u64) -> StringDbParam {
    StringDbParam { address: (w >> 32u64) as u32, size: w as u32 }
}

pub open spec fn param_words(s: Seq<StringDbParam>) -> Seq<u64> {
    s.map_values(|p: StringDbParam| param_word(p))
}

proof fn lemma_param_word(p: StringDbParam)
    ensures
        param_of(param_word(p)) == p,
        crate::wire::be64(param_word(p)) == be32(p.address) + be32(p.size),
{
    let a = p.address;
    let s = p.size;
    let w = param_word(p);
    assert((w >> 32u64) as u32 == a && w as u32 == s) by (bit_vector)
        requires
            w == ((a as u64) << 32u64) | (s as u64),
    ;
}

/// Tracer capabilities.
#[derive(PartialEq, Eq, Clone, Copy, Debug, Default)]
pub struct MtrcCapReg {
    pub trace_owner: bool,
    pub trace_to_memory: bool,
    /// Two bits.
    pub trc_ver: u8,
    /// Four bits.
    pub num_string_db: u8,
    pub first_string_trace: u8,
    pub num_string_trace: u8,
    pub log_max_trace_buffer_size: u8,
    pub string_db_param: [StringDbParam; 8],
}

pub struct MtrcCapRegView {
    pub trace_owner: bool,
    pub trace_to_memory: bool,
    pub trc_ver: u8,
    pub num_string_db: u8,
    pub first_string_trace: u8,
    pub num_string_trace: u8,
    pub log_max_trace_buffer_size: u8,
    pub string_db_param: Seq<StringDbParam>,
}

pub open spec fn cap_byte(v: MtrcCapRegView) -> u8 {
    (if v.trace_owner {
        0x80u8
    } else {
        0u8
    }) | (if v.trace_to_memory {
        0x40u8
    } else {
        0u8
    }) | v.trc_ver
}

pub open spec fn cap_head(v: MtrcCapRegView) -> Seq<u8> {
    seq![cap_byte(v), 0u8, 0u8, v.num_string_db, v.first_string_trace, v.num_string_trace]
        + zeros(5) + seq![v.log_max_trace_buffer_size] + zeros(4)
}

impl View for MtrcCapReg {
    type V = MtrcCapRegView;

    open spec fn view(&self) -> MtrcCapRegView {
        MtrcCapRegView {
            trace_owner: self.trace_owner,
            trace_to_memory: self.trace_to_memory,
            trc_ver: self.trc_ver,
            num_string_db: self.num_string_db,
            first_string_trace: self.first_string_trace,
            num_string_trace: self.num_string_trace,
            log_max_trace_buffer_size: self.log_max_trace_buffer_size,
            string_db_param: self.string_db_param@,
        }
    }
}

impl Wire for MtrcCapReg {
    open spec fn valid(v: MtrcCapRegView) -> bool {
        v.trc_ver < 4 && v.num_string_db < 16 && v.string_db_param.len() == 8
    }

    open spec fn spec_encode(v: MtrcCapRegView) -> Seq<u8> {
        cap_head(v) + be64_seq(param_words(v.string_db_param))
    }

    open spec fn spec_decode(b: Seq<u8>) -> Option<MtrcCapRegView> {
        if b.len() >= 80 {
            Some(
                MtrcCapRegView {
                    trace_owner: b[0] & 0x80u8 != 0,
                    trace_to_memory: b[0] & 0x40u8 != 0,
                    trc_ver: b[0] & 3u8,
                    num_string_db: b[3] & 0x0fu8,
                    first_string_trace: b[4],
                    num_string_trace: b[5],
                    log_max_trace_buffer_size: b[11],
                    string_db_param: words64(b, 16, 8).map_values(|w: u64| param_of(w)),
                },
            )
        } else {
            None
        }
    }

    proof fn lemma_round_trip(v: MtrcCapRegView) {
        let h = cap_head(v);
        let ws = param_words(v.string_db_param);
        let b = Self::spec_encode(v);
        lemma_be64_seq_len(ws);
        assert(h.len() == 16);
        let fo: u8 = if v.trace_owner {
            0x80u8
        } else {
            0u8
        };
        let fm: u8 = if v.trace_to_memory {
            0x40u8
        } else {
            0u8
        };
        let t = v.trc_ver;
        assert(((fo | fm | t) & 0x80u8 != 0) == (fo != 0) && ((fo | fm | t) & 0x40u8 != 0) == (fm
            != 0) && (fo | fm | t) & 3u8 == t) by (bit_vector)
            requires
                fo == 0 || fo == 0x80,
                fm == 0 || fm == 0x40,
                t < 4,
        ;
        let n = v.num_string_db;
        assert(n < 16 ==> n & 0x0fu8 == n) by (bit_vector);
        assert(b[0] == h[0]);
        assert(b[3] == h[3]);
        assert(b[4] == h[4]);
        assert(b[5] == h[5]);
        assert(b[11] == h[11]);
        lemma_words64_round_trip(h, ws, Seq::empty());
        assert(h + be64_seq(ws) + Seq::<u8>::empty() =~= b);
        assert forall|i: int| 0 <= i < 8 implies words64(b, 16, 8).map_values(
            |w: u64| param_of(w),
        )[i] == v.string_db_param[i] by {
            lemma_param_word(v.string_db_param[i]);
        }
        assert(words64(b, 16, 8).map_values(|w: u64| param_of(w)) =~= v.string_db_param);
    }

    fn to_bytes(&self) -> (r: Vec<u8>) {
        let mut v: Vec<u8> = Vec::new();
        let fo: u8 = if self.trace_owner {
            0x80
        } else {
            0
        };
        let fm: u8 = if self.trace_to_memory {
            0x40
        } else {
            0
        };
        v.push(fo | fm | self.trc_ver);
        v.push(0u8);
        v.push(0u8);
        v.push(self.num_string_db);
        v.push(self.first_string_trace);
        v.push(self.num_string_trace);
        push_zeros(&mut v, 5);
        v.push(self.log_max_trace_buffer_size);
        push_zeros(&mut v, 4);
        assert(v@ =~= cap_head(self@));
        let ghost prefix = v@;
        let mut i: usize = 0;
        while i < 8
            invariant
                i <= 8,
                self.string_db_param@.len() == 8,
                v@ == prefix + be64_seq(param_words(self.string_db_param@.subrange(0, i as int))),
            decreases 8 - i,
        {
            let p = self.string_db_param[i];
            push_be32(&mut v, p.address);
            push_be32(&mut v, p.size);
            proof {
                lemma_param_word(p);
                let ws = param_words(self.string_db_param@.subrange(0, i + 1));
                assert(ws.drop_last() =~= param_words(self.string_db_param@.subrange(0, i as int)));
                assert(ws.last() == param_word(p));
            }
            i = i + 1;
            assert(v@ =~= prefix + be64_seq(param_words(self.string_db_param@.subrange(0, i as int))));
        }
        assert(self.string_db_param@.subrange(0, 8) =~= self.string_db_param@);
        v
    }

    fn from_bytes(b: &[u8]) -> (r: Option<Self>) {
        if b.len() < 80 {
            return None;
        }
        let words = read_be64_seq(b, 16, 8);
        let mut params = [StringDbParam { address: 0, size: 0 }; 8];
        let mut i: usize = 0;
        while i < 8
            invariant
                i <= 8,
                words@.len() == 8,
                params@.len() == 8,
                forall|j: int| 0 <= j < i ==> params@[j] == param_of(#[trigger] words@[j]),
            decreases 8 - i,
        {
            let w = words[i];
            params[i] = StringDbParam { address: (w >> 32u64) as u32, size: w as u32 };
            i = i + 1;
        }
        assert(params@ =~= words@.map_values(|w: u64| param_of(w)));
        Some(
            MtrcCapReg {
                trace_owner: b[0] & 0x80u8 != 0,
                trace_to_memory: b[0] & 0x40u8 != 0,
                trc_ver: b[0] & 3u8,
                num_string_db: b[3] & 0x0fu8,
                first_string_trace: b[4],
                num_string_trace: b[5],
                log_max_trace_buffer_size: b[11],
                string_db_param: params,
            },
        )
    }
}

impl Register for MtrcCapReg {
    open spec fn spec_register_id() -> u16 {
        0x9040
    }

    fn register_id() -> (r: u16) {
        0x9040
    }

    fn size(&self) -> (r: usize) {
        proof {
            lemma_be64_seq_len(param_words(self.string_db_param@));
        }
        80
    }
}

} // verus!
