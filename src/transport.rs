//! Staging a command for the device and reading its reply back.
//!
//! The device side (writing the images to DMA memory, ringing the doorbell,
//! polling the status byte) happens outside; this module computes what is
//! written and what the reply bytes are.

use vstd::prelude::*;

use crate::checksum::fold;
use crate::cqe::{CQE, CQE_OUTPUT_INLINE, CQE_SIGNATURE, CQE_STATUS, INLINE_LEN};
use crate::error::Error;
use crate::mailbox::{
    chain_len, images, is_chain, Mailbox, MailboxAllocator, MAILBOX_DATA_LEN, MAILBOX_STRIDE,
};
use crate::wire::zeros;

verus! {

/// The command type every entry carries.
pub const CMD_TYPE_PCIE: u8 = 0x07;

/// Status byte of an entry handed to the device.
pub const STATUS_OWNED_BY_DEVICE: u8 = 0x01;

/// Pages of scratch memory one command needs for its mailboxes.
pub const SCRATCH_PAGES: usize = 256;

/// An entry and the two mailbox chains of one command, ready to be written
/// to device memory.
pub struct StagedCommand {
    pub cqe: CQE,
    pub input_mailboxes: Vec<Mailbox>,
    pub output_mailboxes: Vec<Mailbox>,
}

/// `s` with its signature byte set to the fold of the rest.
pub open spec fn cqe_signed(s: Seq<u8>) -> Seq<u8> {
    s.update(CQE_SIGNATURE as int, 0).update(
        CQE_SIGNATURE as int,
        fold(s.update(CQE_SIGNATURE as int, 0)),
    )
}

/// Reply bytes that follow the inline ones.
pub open spec fn output_tail_len(outlen: u32) -> nat {
    if outlen > INLINE_LEN {
        (outlen - INLINE_LEN) as nat
    } else {
        0
    }
}

/// Stages `input` (whose first 16 bytes travel inline) for a reply of
/// `outlen` bytes, with mailboxes taken from the `len` bytes of scratch
/// memory at `base`: the input chain first, the output chain after it.
/// `None` when the scratch memory cannot hold both chains.
pub fn stage_command(input: &[u8], outlen: u32, base: u64, len: u64) -> (r: Option<StagedCommand>)
    requires
        input@.len() >= INLINE_LEN,
        input@.len() <= u32::MAX,
        base + len <= u64::MAX,
    ensures
        r is Some <==> chain_len((input@.len() - INLINE_LEN) as nat) + chain_len(
            output_tail_len(outlen),
        ) <= (len / MAILBOX_STRIDE) as int,
        r matches Some(s) ==> {
            let tail = input@.subrange(INLINE_LEN as int, input@.len() as int);
            let n_in = chain_len(tail.len());
            let out_start = base + n_in * MAILBOX_STRIDE;
            &&& is_chain(s.input_mailboxes@, base as int, tail, 0)
            &&& is_chain(s.output_mailboxes@, out_start, zeros(output_tail_len(outlen)), 0)
            &&& s.cqe.wf()
            &&& s.cqe@ == cqe_signed(
                CQE::layout(
                    input@.len() as u32,
                    if n_in > 0 {
                        base
                    } else {
                        0u64
                    },
                    input@.subrange(0, INLINE_LEN as int),
                    if output_tail_len(outlen) > 0 {
                        out_start as u64
                    } else {
                        0u64
                    },
                    outlen,
                    STATUS_OWNED_BY_DEVICE,
                ),
            )
            &&& fold(s.cqe@) == 0
        },
{
    let mut alloc = MailboxAllocator::new(base, len);
    let tail = &input[INLINE_LEN..input.len()];
    let input_mailboxes = match alloc.build_mailbox(0, tail) {
        Some(m) => m,
        None => {
            return None;
        },
    };
    let in_ptr: u64 = if input_mailboxes.len() > 0 {
        input_mailboxes[0].addr
    } else {
        0
    };
    let tail_len: usize = if outlen as usize > INLINE_LEN {
        outlen as usize - INLINE_LEN
    } else {
        0
    };
    let zero_tail: Vec<u8> = vec![0u8; tail_len];
    assert(zero_tail@ =~= zeros(output_tail_len(outlen)));
    let output_mailboxes = match alloc.build_mailbox(0, zero_tail.as_slice()) {
        Some(m) => m,
        None => {
            return None;
        },
    };
    let out_ptr: u64 = if output_mailboxes.len() > 0 {
        output_mailboxes[0].addr
    } else {
        0
    };
    let mut cqe = CQE::from_fields(
        input.len() as u32,
        in_ptr,
        &input[0..INLINE_LEN],
        out_ptr,
        outlen,
        STATUS_OWNED_BY_DEVICE,
    );
    assert(tail@ =~= input@.subrange(INLINE_LEN as int, input@.len() as int));
    cqe.update_signature();
    Some(StagedCommand { cqe, input_mailboxes, output_mailboxes })
}

/// The payload areas of `blocks`, one after the other.
pub open spec fn joined_data(blocks: Seq<Seq<u8>>) -> Seq<u8>
    decreases blocks.len(),
{
    if blocks.len() == 0 {
        Seq::empty()
    } else {
        joined_data(blocks.drop_last()) + blocks.last().subrange(0, MAILBOX_DATA_LEN as int)
    }
}

/// `s` cut or padded with zeros to exactly `n` bytes.
pub open spec fn fit(s: Seq<u8>, n: nat) -> Seq<u8> {
    if s.len() >= n {
        s.subrange(0, n as int)
    } else {
        s + zeros((n - s.len()) as nat)
    }
}

/// The reply of a completed entry: the inline reply bytes followed by the
/// payload of every output mailbox, cut or padded to `outlen` bytes.
pub open spec fn reply_bytes(cqe: Seq<u8>, mbs: Seq<Mailbox>, outlen: u32) -> Seq<u8> {
    fit(
        cqe.subrange(CQE_OUTPUT_INLINE as int, CQE_OUTPUT_INLINE + INLINE_LEN) + joined_data(
            images(mbs),
        ),
        outlen as nat,
    )
}

/// The transport error code of a status byte.
pub open spec fn transport_error(status: u8) -> u8 {
    status >> 1u8
}

/// Whether the device still owns an entry with this status byte.
pub fn owned_by_device(status: u8) -> (r: bool)
    ensures
        r == (status & 1u8 == 1u8),
{
    status & 1u8 == 1u8
}

/// Reads the reply of an entry the device has completed: a transport error
/// if the status byte carries one, otherwise the reply bytes.
pub fn collect_output(cqe: &CQE, output_mailboxes: &Vec<Mailbox>, outlen: u32) -> (r: Result<
    Vec<u8>,
    Error,
>)
    requires
        cqe.wf(),
        forall|i: int| 0 <= i < output_mailboxes@.len() ==> (#[trigger] output_mailboxes@[i]).wf(),
    ensures
        transport_error(cqe@[CQE_STATUS as int]) != 0 ==> r == Err::<Vec<u8>, Error>(
            Error::CmdIf(transport_error(cqe@[CQE_STATUS as int])),
        ),
        transport_error(cqe@[CQE_STATUS as int]) == 0 ==> (r matches Ok(v) && v@ == reply_bytes(
            cqe@,
            output_mailboxes@,
            outlen,
        )),
{
    let err = cqe.status() >> 1u8;
    if err != 0 {
        return Err(Error::CmdIf(err));
    }
    let mut output = cqe.output_inline();
    let ghost head = output@;
    let mut i: usize = 0;
    while i < output_mailboxes.len()
        invariant
            i <= output_mailboxes@.len(),
            forall|j: int|
                0 <= j < output_mailboxes@.len() ==> (#[trigger] output_mailboxes@[j]).wf(),
            output@ == head + joined_data(images(output_mailboxes@.subrange(0, i as int))),
        decreases output_mailboxes@.len() - i,
    {
        let data = output_mailboxes[i].data();
        let ghost before = output@;
        let mut k: usize = 0;
        while k < data.len()
            invariant
                k <= data@.len(),
                output@ == before + data@.subrange(0, k as int),
            decreases data@.len() - k,
        {
            output.push(data[k]);
            k = k + 1;
            assert(output@ =~= before + data@.subrange(0, k as int));
        }
        assert(data@.subrange(0, data@.len() as int) =~= data@);
        assert(images(output_mailboxes@.subrange(0, i + 1)).drop_last() =~= images(
            output_mailboxes@.subrange(0, i as int),
        ));
        i = i + 1;
        assert(output@ =~= head + joined_data(images(output_mailboxes@.subrange(0, i as int))));
    }
    assert(output_mailboxes@.subrange(0, output_mailboxes@.len() as int) =~= output_mailboxes@);
    let n = outlen as usize;
    if output.len() >= n {
        output.truncate(n);
    } else {
        let pad = n - output.len();
        crate::wire::push_zeros(&mut output, pad);
    }
    Ok(output)
}

/// The two 32-bit words, high then low, in which the device takes the
/// address of the command queue.
pub fn cmdq_addr_words(addr: u64) -> (r: (u32, u32))
    ensures
        r.0 as u64 * 0x1_0000_0000 + r.1 as u64 == addr,
{
    let hi = (addr >> 32u64) as u32;
    let lo = (addr & 0xffff_ffffu64) as u32;
    assert((((addr >> 32u64) as u32) as u64) * 0x1_0000_0000 + (((addr & 0xffff_ffffu64) as u32)
        as u64) == addr) by (bit_vector);
    (hi, lo)
}

/// Whether the device is still initialising: bit 31 of its
/// "initializing" word is set.
pub fn device_initializing(word: u32) -> (r: bool)
    ensures
        r == (word >= 0x8000_0000),
{
    let r = word & 0x8000_0000u32 != 0;
    assert((word & 0x8000_0000u32 != 0) == (word >= 0x8000_0000)) by (bit_vector);
    r
}

} // verus!
