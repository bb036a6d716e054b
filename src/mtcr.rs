//! The debug backdoor: a polled address/data port in a PCI capability, and
//! the micro-command protocol layered on it.
//!
//! The port itself is read and written outside; this module holds the
//! register layout and computes every word that is written and every
//! decision taken on a word that is read.

use vstd::prelude::*;

verus! {

pub const AS_ICMD_EXT: u16 = 0x1;

pub const AS_CR_SPACE: u16 = 0x2;

pub const AS_ICMD: u16 = 0x3;

pub const AS_NODNIC_INIT_SEG: u16 = 0x4;

pub const AS_EXPANSION_ROM: u16 = 0x5;

pub const VCR_CMD_SIZE_ADDR: u32 = 0x1000;

pub const VCR_CMD_ADDR: u32 = 0x100000;

pub const VCR_CTRL_ADDR: u32 = 0x0;

pub const VCR_EXMB_ADDR: u32 = 0x8;

pub const PCI_CONTROL: u64 = 0x04;

pub const PCI_COUNTER: u64 = 0x08;

pub const PCI_SEMAPHORE: u64 = 0x0c;

pub const PCI_ADDRESS: u64 = 0x10;

pub const PCI_DATA: u64 = 0x14;

/// PCI capability id of the port.
pub const VSEC_CAPABILITY_ID: u8 = 0x09;

/// Micro-command that configures firmware tracing.
pub const ICMD_SET_ITRACE: u16 = 0xf003;

/// Micro-command that asks whether the debug lock is open.
pub const ICMD_QUERY_UNLOCKED: u16 = 0xf00b;

/// Words of reply that `set_itrace` reads back.
pub const ITRACE_REPLY_WORDS: usize = 8;

/// The control word that selects `space`: the low half is `space`, the
/// high half is kept.
pub fn select_address_space(ctrl: u32, space: u16) -> (r: u32)
    ensures
        r & 0xffff == space as u32,
        r >> 16u32 == ctrl >> 16u32,
{
    let r = (ctrl & 0xffff0000u32) | (space as u32);
    assert((((ctrl & 0xffff0000u32) | (space as u32)) & 0xffff == space as u32) && (((ctrl
        & 0xffff0000u32) | (space as u32)) >> 16u32 == ctrl >> 16u32)) by (bit_vector)
        requires
            space as u32 <= 0xffff,
    ;
    r
}

/// Whether a control word read back accepts the selected space: its 3-bit
/// status at bits 29 to 31 is nonzero.
pub fn address_space_accepted(ctrl: u32) -> (r: bool)
    ensures
        r == (ctrl >> 29u32 != 0),
{
    let r = (ctrl >> 29u32) & 0x7 != 0;
    assert(((ctrl >> 29u32) & 0x7 != 0) == (ctrl >> 29u32 != 0)) by (bit_vector);
    r
}

/// The address word that starts a write of the word at `address`: the low
/// 30 bits of the address and the pending bit 31.
pub fn write_request(address: u32) -> (r: u32)
    ensures
        r & 0x3fffffff == address & 0x3fffffff,
        r >> 30u32 == 2,
{
    let r = (address & 0x3fffffffu32) | 0x80000000u32;
    assert((((address & 0x3fffffffu32) | 0x80000000u32) & 0x3fffffff == address & 0x3fffffff)
        && (((address & 0x3fffffffu32) | 0x80000000u32) >> 30u32 == 2)) by (bit_vector);
    r
}

/// The address word that starts a read of the word at `address`: the low
/// 30 bits of the address with the flag bits clear.
pub fn read_request(address: u32) -> (r: u32)
    ensures
        r & 0x3fffffff == address & 0x3fffffff,
        r >> 30u32 == 0,
{
    let r = address & 0x3fffffffu32;
    assert(((address & 0x3fffffffu32) & 0x3fffffff == address & 0x3fffffff) && ((address
        & 0x3fffffffu32) >> 30u32 == 0)) by (bit_vector);
    r
}

/// Whether the flag bit 31 of an address word read back is set: a write
/// is done once it clears, a read once it is set.
pub fn flag_set(word: u32) -> (r: bool)
    ensures
        r == (word >= 0x80000000),
{
    let r = (word >> 31u32) & 1 != 0;
    assert((((word >> 31u32) & 1) != 0) == (word >= 0x80000000)) by (bit_vector);
    r
}

/// The control word that carries `opcode` in its high half and keeps its
/// low half.
pub fn with_opcode(ctrl: u32, opcode: u16) -> (r: u32)
    ensures
        r >> 16u32 == opcode as u32,
        r & 0xffff == ctrl & 0xffff,
{
    let op = opcode as u32;
    let r = (ctrl & 0x0000ffffu32) | (op << 16u32);
    assert((((ctrl & 0x0000ffffu32) | (op << 16u32)) >> 16u32 == op) && (((ctrl & 0x0000ffffu32)
        | (op << 16u32)) & 0xffff == ctrl & 0xffff)) by (bit_vector)
        requires
            op <= 0xffff,
    ;
    r
}

/// The control word with the go bit (bit 0) set and the rest kept.
pub fn with_go(ctrl: u32) -> (r: u32)
    ensures
        r & 1 == 1,
        r >> 1u32 == ctrl >> 1u32,
{
    let r = ctrl | 1u32;
    assert(((ctrl | 1u32) & 1 == 1) && ((ctrl | 1u32) >> 1u32 == ctrl >> 1u32)) by (bit_vector);
    r
}

/// Whether a micro-command is still running: the go bit is still set.
pub fn icmd_busy(ctrl: u32) -> (r: bool)
    ensures
        r == (ctrl % 2 == 1),
{
    let r = ctrl & 1u32 == 1u32;
    assert((ctrl & 1u32 == 1u32) == (ctrl % 2 == 1)) by (bit_vector);
    r
}

/// The status a finished micro-command leaves in bits 8 to 15.
pub fn icmd_status(ctrl: u32) -> (r: u8)
    ensures
        r == (ctrl / 0x100) % 0x100,
{
    let r = (ctrl >> 8u32) as u8;
    assert(((ctrl >> 8u32) as u8) as u32 == (ctrl / 0x100) % 0x100) by (bit_vector);
    r
}

/// Address of word `offset` of the micro-command buffer.
pub fn command_word_addr(offset: u32) -> (r: u32)
    requires
        offset <= 0x3ffb_ffff,
    ensures
        r == VCR_CMD_ADDR + 4 * offset,
{
    VCR_CMD_ADDR + 4 * offset
}

/// Payload of the trace configuration command: the mask, then the delay
/// in the high half and the level in the low byte of the second word.
pub fn itrace_payload(mask: u32, level: u8, delay: u16) -> (r: Vec<u32>)
    ensures
        r@.len() == 2,
        r@[0] == mask,
        r@[1] == delay as u32 * 0x10000 + level as u32,
{
    let d = delay as u32;
    let l = level as u32;
    let w = (d << 16u32) | l;
    assert((d << 16u32) | l == d * 0x10000 + l) by (bit_vector)
        requires
            d <= 0xffff,
            l <= 0xff,
    ;
    let mut r: Vec<u32> = Vec::new();
    r.push(mask);
    r.push(w);
    r
}

/// The debug lock is open when the query finishes with status 0.
pub fn unlocked(status: u8) -> (r: bool)
    ensures
        r == (status == 0),
{
    status == 0
}

} // verus!
