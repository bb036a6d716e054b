//! Registers of the flash controller.

use vstd::prelude::*;

use super::Register;
use crate::commands::Wire;
use crate::wire::{
    be24, be32, from_be24, from_be32, lemma_be24_round_trip, lemma_be32_round_trip, push_be24,
    push_be32, push_zeros, read_be24, read_be32, zeros,
};

verus! {

/// `mask` when `v` holds, else 0.
pub open spec fn bit_if(v: bool, mask: u8) -> u8 {
    if v {
        mask
    } else {
        0u8
    }
}

fn bit_if_exec(v: bool, mask: u8) -> (r: u8)
    ensures
        r == bit_if(v, mask),
{
    if v {
        mask
    } else {
        0u8
    }
}

/// The byte that holds a 2-bit flash select in bits 4 and 5.
pub open spec fn fs_byte(fs: usize) -> u8 {
    ((fs as u8) << 4u8) as u8
}

pub open spec fn fs_of(b: u8) -> usize {
    ((b >> 4u8) & 3u8) as usize
}

proof fn lemma_fs(fs: usize)
    requires
        fs < 4,
    ensures
        fs_of(fs_byte(fs)) == fs,
{
    let f = fs as u8;
    assert(((f << 4u8) >> 4u8) & 3u8 == f) by (bit_vector)
        requires
            f < 4,
    ;
}

/// The high and low byte of a number below 0x10000.
pub open spec fn hi_byte(x: usize) -> u8 {
    ((x as u32) >> 8u32) as u8
}

pub open spec fn lo_byte(x: usize) -> u8 {
    (x as u32) as u8
}

/// The number whose low `mask_hi` bits of the high byte and whole low
/// byte are `h` and `l`.
pub open spec fn from_hi_lo(h: u8, l: u8, mask_hi: u8) -> usize {
    ((((h & mask_hi) as u32) << 8u32) | (l as u32)) as usize
}

proof fn lemma_hi_lo(x: usize, mask_hi: u8)
    requires
        mask_hi == 1 || mask_hi == 3,
        x < (mask_hi as int + 1) * 256,
    ensures
        from_hi_lo(hi_byte(x), lo_byte(x), mask_hi) == x,
{
    let y = x as u32;
    assert((((((y >> 8u32) as u8) & mask_hi) as u32) << 8u32) | ((y as u8) as u32) == y)
        by (bit_vector)
        requires
            mask_hi == 1 || mask_hi == 3,
            mask_hi == 1 ==> y < 512,
            mask_hi == 3 ==> y < 1024,
    ;
}

/// Flash parameters.
#[derive(PartialEq, Eq, Structural, Clone, Copy, Debug, Default)]
pub struct MFPA {
    pub add_cap_32b: bool,
    pub p: bool,
    /// Two bits.
    pub fs: usize,
    pub boot_address: u32,
    pub wip: bool,
    pub bulk_32kb_erase_en: bool,
    pub bulk_64kb_erase_en: bool,
    pub sector_wrp_en: bool,
    pub sub_sector_wrp_en: bool,
    /// Four bits.
    pub flash_num: usize,
    /// Twenty-four bits.
    pub jedec_id: u32,
    /// Eight bits.
    pub block_size: usize,
    /// Eight bits.
    pub block_alignment: usize,
    /// Ten bits.
    pub sector_size: usize,
    pub capability_mask: u32,
}

pub open spec fn mfpa_head(v: MFPA) -> Seq<u8> {
    seq![bit_if(v.add_cap_32b, 0x80), 0u8, bit_if(v.p, 0x01), fs_byte(v.fs)] + be32(v.boot_address)
        + zeros(8)
}

pub open spec fn mfpa_tail(v: MFPA) -> Seq<u8> {
    seq![
        bit_if(v.wip, 0x80) | bit_if(v.bulk_32kb_erase_en, 0x40) | bit_if(v.bulk_64kb_erase_en, 0x20),
        bit_if(v.sector_wrp_en, 0x02) | bit_if(v.sub_sector_wrp_en, 0x01),
        0u8,
        v.flash_num as u8,
        0u8,
    ] + be24(v.jedec_id) + seq![
        v.block_size as u8,
        v.block_alignment as u8,
        hi_byte(v.sector_size),
        lo_byte(v.sector_size),
    ] + be32(v.capability_mask)
}

impl View for MFPA {
    type V = MFPA;

    open spec fn view(&self) -> MFPA {
        *self
    }
}

impl Wire for MFPA {
    open spec fn valid(v: MFPA) -> bool {
        &&& v.fs < 4
        &&& v.flash_num < 16
        &&& v.jedec_id < 0x100_0000
        &&& v.block_size < 256
        &&& v.block_alignment < 256
        &&& v.sector_size < 1024
    }

    open spec fn spec_encode(v: MFPA) -> Seq<u8> {
        mfpa_head(v) + mfpa_tail(v)
    }

    open spec fn spec_decode(b: Seq<u8>) -> Option<MFPA> {
        if b.len() >= 32 {
            Some(
                MFPA {
                    add_cap_32b: b[0] & 0x80u8 != 0,
                    p: b[2] & 0x01u8 != 0,
                    fs: fs_of(b[3]),
                    boot_address: from_be32(b.subrange(4, 8)),
                    wip: b[16] & 0x80u8 != 0,
                    bulk_32kb_erase_en: b[16] & 0x40u8 != 0,
                    bulk_64kb_erase_en: b[16] & 0x20u8 != 0,
                    sector_wrp_en: b[17] & 0x02u8 != 0,
                    sub_sector_wrp_en: b[17] & 0x01u8 != 0,
                    flash_num: (b[19] & 0x0fu8) as usize,
                    jedec_id: from_be24(b.subrange(21, 24)),
                    block_size: b[24] as usize,
                    block_alignment: b[25] as usize,
                    sector_size: from_hi_lo(b[26], b[27], 3),
                    capability_mask: from_be32(b.subrange(28, 32)),
                },
            )
        } else {
            None
        }
    }

    proof fn lemma_round_trip(v: MFPA) {
        let h = mfpa_head(v);
        let t = mfpa_tail(v);
        let b = Self::spec_encode(v);
        assert(h.len() == 16);
        let a0 = bit_if(v.add_cap_32b, 0x80);
        let a2 = bit_if(v.p, 0x01);
        let w = bit_if(v.wip, 0x80);
        let x = bit_if(v.bulk_32kb_erase_en, 0x40);
        let y = bit_if(v.bulk_64kb_erase_en, 0x20);
        let s = bit_if(v.sector_wrp_en, 0x02);
        let u = bit_if(v.sub_sector_wrp_en, 0x01);
        assert((a0 & 0x80u8 != 0) == (a0 != 0) && (a2 & 0x01u8 != 0) == (a2 != 0) && ((w | x | y)
            & 0x80u8 != 0) == (w != 0) && ((w | x | y) & 0x40u8 != 0) == (x != 0) && ((w | x | y)
            & 0x20u8 != 0) == (y != 0) && ((s | u) & 0x02u8 != 0) == (s != 0) && ((s | u) & 0x01u8
            != 0) == (u != 0)) by (bit_vector)
            requires
                a0 == 0 || a0 == 0x80,
                a2 == 0 || a2 == 0x01,
                w == 0 || w == 0x80,
                x == 0 || x == 0x40,
                y == 0 || y == 0x20,
                s == 0 || s == 0x02,
                u == 0 || u == 0x01,
        ;
        let f = v.flash_num as u8;
        assert(f < 16 ==> f & 0x0fu8 == f) by (bit_vector);
        lemma_fs(v.fs);
        lemma_hi_lo(v.sector_size, 3);
        assert(b[0] == h[0] && b[2] == h[2] && b[3] == h[3]);
        assert(b[16] == t[0] && b[17] == t[1] && b[19] == t[3]);
        assert(b[24] == t[8] && b[25] == t[9] && b[26] == t[10] && b[27] == t[11]);
        assert(b.subrange(4, 8) =~= be32(v.boot_address));
        assert(b.subrange(21, 24) =~= be24(v.jedec_id));
        assert(b.subrange(28, 32) =~= be32(v.capability_mask));
        lemma_be32_round_trip(v.boot_address);
        lemma_be24_round_trip(v.jedec_id);
        lemma_be32_round_trip(v.capability_mask);
    }

    fn to_bytes(&self) -> (r: Vec<u8>) {
        let mut v: Vec<u8> = Vec::new();
        v.push(bit_if_exec(self.add_cap_32b, 0x80));
        v.push(0u8);
        v.push(bit_if_exec(self.p, 0x01));
        v.push((#[verifier::truncate] (self.fs as u8)) << 4u8);
        push_be32(&mut v, self.boot_address);
        push_zeros(&mut v, 8);
        assert(v@ =~= mfpa_head(self@));
        let ghost mid = v@;
        v.push(
            bit_if_exec(self.wip, 0x80) | bit_if_exec(self.bulk_32kb_erase_en, 0x40) | bit_if_exec(
                self.bulk_64kb_erase_en,
                0x20,
            ),
        );
        v.push(bit_if_exec(self.sector_wrp_en, 0x02) | bit_if_exec(self.sub_sector_wrp_en, 0x01));
        v.push(0u8);
        v.push(#[verifier::truncate] (self.flash_num as u8));
        v.push(0u8);
        push_be24(&mut v, self.jedec_id);
        v.push(#[verifier::truncate] (self.block_size as u8));
        v.push(#[verifier::truncate] (self.block_alignment as u8));
        let ss = #[verifier::truncate] (self.sector_size as u32);
        v.push(#[verifier::truncate] ((ss >> 8u32) as u8));
        v.push(#[verifier::truncate] (ss as u8));
        push_be32(&mut v, self.capability_mask);
        assert(v@ =~= mid + mfpa_tail(self@));
        v
    }

    fn from_bytes(b: &[u8]) -> (r: Option<Self>) {
        if b.len() < 32 {
            return None;
        }
        Some(
            MFPA {
                add_cap_32b: b[0] & 0x80u8 != 0,
                p: b[2] & 0x01u8 != 0,
                fs: ((b[3] >> 4u8) & 3u8) as usize,
                boot_address: read_be32(b, 4),
                wip: b[16] & 0x80u8 != 0,
                bulk_32kb_erase_en: b[16] & 0x40u8 != 0,
                bulk_64kb_erase_en: b[16] & 0x20u8 != 0,
                sector_wrp_en: b[17] & 0x02u8 != 0,
                sub_sector_wrp_en: b[17] & 0x01u8 != 0,
                flash_num: (b[19] & 0x0fu8) as usize,
                jedec_id: read_be24(b, 21),
                block_size: b[24] as usize,
                block_alignment: b[25] as usize,
                sector_size: ((((b[26] & 3u8) as u32) << 8u32) | (b[27] as u32)) as usize,
                capability_mask: read_be32(b, 28),
            },
        )
    }
}

impl Register for MFPA {
    open spec fn spec_register_id() -> u16 {
        0x9010
    }

    fn register_id() -> (r: u16) {
        0x9010
    }

    fn size(&self) -> (r: usize) {
        0x20
    }
}

/// A block of flash data.
#[derive(PartialEq, Eq, Debug)]
pub struct MFBA {
    pub add_cap_32b: bool,
    pub p: bool,
    /// Two bits.
    pub fs: usize,
    /// Nine bits.
    pub size: usize,
    /// Thirty-two bits.
    pub address: usize,
    pub data: [u8; 0x40],
}

pub struct MFBAView {
    pub add_cap_32b: bool,
    pub p: bool,
    pub fs: usize,
    pub size: usize,
    pub address: usize,
    pub data: Seq<u8>,
}

impl Default for MFBA {
    fn default() -> (r: Self)
        ensures
            !r.add_cap_32b && !r.p && r.fs == 0 && r.size == 0 && r.address == 0,
            r.data@ == zeros(0x40),
    {
        let r = MFBA { add_cap_32b: false, p: false, fs: 0, size: 0, address: 0, data: [0u8; 0x40] };
        assert(r.data@ =~= zeros(0x40));
        r
    }
}

pub open spec fn mfba_head(v: MFBAView) -> Seq<u8> {
    seq![
        bit_if(v.add_cap_32b, 0x80),
        0u8,
        bit_if(v.p, 0x01),
        fs_byte(v.fs),
        0u8,
        0u8,
        hi_byte(v.size),
        lo_byte(v.size),
    ] + be32(v.address as u32)
}

impl View for MFBA {
    type V = MFBAView;

    open spec fn view(&self) -> MFBAView {
        MFBAView {
            add_cap_32b: self.add_cap_32b,
            p: self.p,
            fs: self.fs,
            size: self.size,
            address: self.address,
            data: self.data@,
        }
    }
}

impl Wire for MFBA {
    open spec fn valid(v: MFBAView) -> bool {
        v.fs < 4 && v.size < 512 && v.address <= u32::MAX && v.data.len() == 0x40
    }

    open spec fn spec_encode(v: MFBAView) -> Seq<u8> {
        mfba_head(v) + v.data
    }

    open spec fn spec_decode(b: Seq<u8>) -> Option<MFBAView> {
        if b.len() >= 76 {
            Some(
                MFBAView {
                    add_cap_32b: b[0] & 0x80u8 != 0,
                    p: b[2] & 0x01u8 != 0,
                    fs: fs_of(b[3]),
                    size: from_hi_lo(b[6], b[7], 1),
                    address: from_be32(b.subrange(8, 12)) as usize,
                    data: b.subrange(12, 76),
                },
            )
        } else {
            None
        }
    }

    proof fn lemma_round_trip(v: MFBAView) {
        let h = mfba_head(v);
        let b = Self::spec_encode(v);
        let a0 = bit_if(v.add_cap_32b, 0x80);
        let a2 = bit_if(v.p, 0x01);
        assert((a0 & 0x80u8 != 0) == (a0 != 0) && (a2 & 0x01u8 != 0) == (a2 != 0)) by (bit_vector)
            requires
                a0 == 0 || a0 == 0x80,
                a2 == 0 || a2 == 0x01,
        ;
        lemma_fs(v.fs);
        lemma_hi_lo(v.size, 1);
        assert(b.subrange(8, 12) =~= be32(v.address as u32));
        lemma_be32_round_trip(v.address as u32);
        assert(b.subrange(12, 76) =~= v.data);
    }

    fn to_bytes(&self) -> (r: Vec<u8>) {
        let mut v: Vec<u8> = Vec::new();
        v.push(bit_if_exec(self.add_cap_32b, 0x80));
        v.push(0u8);
        v.push(bit_if_exec(self.p, 0x01));
        v.push((#[verifier::truncate] (self.fs as u8)) << 4u8);
        v.push(0u8);
        v.push(0u8);
        let sz = #[verifier::truncate] (self.size as u32);
        v.push(#[verifier::truncate] ((sz >> 8u32) as u8));
        v.push(#[verifier::truncate] (sz as u8));
        push_be32(&mut v, #[verifier::truncate] (self.address as u32));
        assert(v@ =~= mfba_head(self@));
        let ghost prefix = v@;
        let mut i: usize = 0;
        while i < 0x40
            invariant
                i <= 0x40,
                self.data@.len() == 0x40,
                v@ == prefix + self.data@.subrange(0, i as int),
            decreases 0x40 - i,
        {
            v.push(self.data[i]);
            i = i + 1;
            assert(v@ =~= prefix + self.data@.subrange(0, i as int));
        }
        assert(self.data@.subrange(0, 0x40) =~= self.data@);
        v
    }

    fn from_bytes(b: &[u8]) -> (r: Option<Self>) {
        if b.len() < 76 {
            return None;
        }
        let mut data = [0u8; 0x40];
        let mut i: usize = 0;
        while i < 0x40
            invariant
                i <= 0x40,
                b@.len() >= 76,
                data@.len() == 0x40,
                forall|j: int| 0 <= j < i ==> data@[j] == b@[12 + j],
            decreases 0x40 - i,
        {
            data[i] = b[12 + i];
            i = i + 1;
        }
        assert(data@ =~= b@.subrange(12, 76));
        Some(
            MFBA {
                add_cap_32b: b[0] & 0x80u8 != 0,
                p: b[2] & 0x01u8 != 0,
                fs: ((b[3] >> 4u8) & 3u8) as usize,
                size: ((((b[6] & 1u8) as u32) << 8u32) | (b[7] as u32)) as usize,
                address: read_be32(b, 8) as usize,
                data,
            },
        )
    }
}

impl Register for MFBA {
    open spec fn spec_register_id() -> u16 {
        0x9011
    }

    fn register_id() -> (r: u16) {
        0x9011
    }

    fn size(&self) -> (r: usize) {
        76
    }
}

} // verus!
