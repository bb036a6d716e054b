//! Hardware registers reached through the register-access command.

pub mod flash;
pub mod mtrc;

use vstd::prelude::*;

use crate::commands::Wire;

pub use flash::{MFBA, MFPA};
pub use mtrc::{MtrcCapReg, MtrcConfReg, MtrcCtrlReg, MtrcStdbReg, StringDbParam};

verus! {

/// A register: its encoding, its fixed numeric id and its size.
pub trait Register: Wire {
    spec fn spec_register_id() -> u16;

    fn register_id() -> (r: u16)
        ensures
            r == Self::spec_register_id(),
    ;

    fn size(&self) -> (r: usize)
        ensures
            r == Self::spec_encode(self@).len(),
    ;
}

} // verus!
