//! Errors of the command interface.

use vstd::prelude::*;

use crate::commands::CommandErrorStatus;

verus! {

/// Everything that can go wrong while talking to the device.
#[derive(PartialEq, Eq, Debug)]
pub enum Error {
    /// Access to a device region failed.
    Io,
    /// The device has no first BAR.
    Bar0,
    /// The transport reported an error in the entry's status byte.
    CmdIf(u8),
    /// Bytes could not be encoded or decoded.
    Encoding,
    /// The firmware rejected a command.
    Command { status: CommandErrorStatus, syndrome: u32 },
    /// No contiguous free DMA memory of the requested size.
    OutOfMemory,
    /// The PCI capability was not found.
    CapabilityNotFound,
    /// The debug port refused the selected address space.
    InvalidAddressSpace,
}

} // verus!
