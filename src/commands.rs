//! Wire formats of firmware commands and their replies.
//!
//! Every command and reply type encodes to and decodes from big-endian
//! bytes; a command also declares the size of its request and the length of
//! the reply it expects.

pub mod access_register;
pub mod create_mkey;
pub mod eq;
pub mod hca;
pub mod issi;
pub mod manage_pages;
pub mod pd;
pub mod query_hca_cap;
pub mod query_pages;
pub mod set_driver_version;
pub mod uar;

use vstd::prelude::*;

use crate::wire::{be32, from_be32, lemma_be32_round_trip, push_be32, push_zeros, read_be32, zeros};

pub use issi::{QueryISSI, QueryISSIOutput, SetISSI, SetISSIOutput};
pub use pd::{AllocPD, AllocPDOutput, DeallocPD, DeallocPDOutput};
pub use query_pages::{QueryPages, QueryPagesOpMod, QueryPagesOutput};
pub use uar::{AllocUAR, AllocUAROutput, DeallocUAR, DeallocUAROutput};
pub use manage_pages::{ManagePages, ManagePagesOpMod, ManagePagesOutput};
pub use access_register::{AccessRegister, AccessRegisterOpMod, AccessRegisterOutput};
pub use query_hca_cap::{QueryHCACap, QueryHCACapOutput};
pub use create_mkey::{AccessMode, CreateMKey, CreateMKeyOutput, MKeyContext};
pub use eq::{
    CreateEQ, CreateEQOutput, DestroyEQ, DestroyEQOutput, EQContext, GenEQE, GenEQEOutput, QueryEQ,
    QueryEQOutput,
};
pub use set_driver_version::{SetDriverVersion, SetDriverVersionOutput};
pub use hca::{DisableHCA, DisableHCAOutput, EnableHCA, EnableHCAOutput, InitHCA, InitHCAOutput};

verus! {

/// A type with a byte encoding, stated over its view.
pub trait Wire: View + Sized {
    /// The values that have an encoding that decodes back to them.
    spec fn valid(v: Self::V) -> bool;

    spec fn spec_encode(v: Self::V) -> Seq<u8>;

    spec fn spec_decode(b: Seq<u8>) -> Option<Self::V>;

    /// Decoding the encoding of a valid value gives the value back.
    proof fn lemma_round_trip(v: Self::V)
        requires
            Self::valid(v),
        ensures
            Self::spec_decode(Self::spec_encode(v)) == Some(v),
    ;

    fn to_bytes(&self) -> (r: Vec<u8>)
        ensures
            r@ == Self::spec_encode(self@),
    ;

    fn from_bytes(b: &[u8]) -> (r: Option<Self>)
        ensures
            r is None <==> Self::spec_decode(b@) is None,
            r matches Some(x) ==> Self::spec_decode(b@) == Some(x@),
    ;
}

/// A firmware command: its request encoding, declared request size and
/// expected reply length, and the type of its reply.
pub trait Command: Wire {
    type Output: Wire;

    spec fn spec_outlen(v: Self::V) -> nat;

    /// Size of the request in bytes.
    fn size(&self) -> (r: usize)
        requires
            Self::spec_encode(self@).len() <= usize::MAX,
        ensures
            r == Self::spec_encode(self@).len(),
    ;

    /// Length of the reply the command expects.
    fn outlen(&self) -> (r: usize)
        requires
            Self::spec_outlen(self@) <= usize::MAX,
        ensures
            r == Self::spec_outlen(self@),
    ;
}

/// The status byte that opens every reply.
#[derive(PartialEq, Eq, Structural, Clone, Copy, Debug)]
pub enum CommandErrorStatus {
    Success,
    InternalError,
    BadOperation,
    BadParameter,
    BadSystemState,
    BadResource,
    ResourceBusy,
    ExceededLimit,
    BadResourceState,
    BadIndex,
    NoResources,
    BadInputLen,
    BadOutputLen,
    UnknownError(u8),
}

/// The status that a status byte stands for.
pub open spec fn status_of(c: u8) -> CommandErrorStatus {
    if c == 0x00 {
        CommandErrorStatus::Success
    } else if c == 0x01 {
        CommandErrorStatus::InternalError
    } else if c == 0x02 {
        CommandErrorStatus::BadOperation
    } else if c == 0x03 {
        CommandErrorStatus::BadParameter
    } else if c == 0x04 {
        CommandErrorStatus::BadSystemState
    } else if c == 0x05 {
        CommandErrorStatus::BadResource
    } else if c == 0x06 {
        CommandErrorStatus::ResourceBusy
    } else if c == 0x08 {
        CommandErrorStatus::ExceededLimit
    } else if c == 0x09 {
        CommandErrorStatus::BadResourceState
    } else if c == 0x0a {
        CommandErrorStatus::BadIndex
    } else if c == 0x0f {
        CommandErrorStatus::NoResources
    } else if c == 0x50 {
        CommandErrorStatus::BadInputLen
    } else if c == 0x51 {
        CommandErrorStatus::BadOutputLen
    } else {
        CommandErrorStatus::UnknownError(c)
    }
}

/// The status byte of a status.
pub open spec fn code_of(s: CommandErrorStatus) -> u8 {
    match s {
        CommandErrorStatus::Success => 0x00,
        CommandErrorStatus::InternalError => 0x01,
        CommandErrorStatus::BadOperation => 0x02,
        CommandErrorStatus::BadParameter => 0x03,
        CommandErrorStatus::BadSystemState => 0x04,
        CommandErrorStatus::BadResource => 0x05,
        CommandErrorStatus::ResourceBusy => 0x06,
        CommandErrorStatus::ExceededLimit => 0x08,
        CommandErrorStatus::BadResourceState => 0x09,
        CommandErrorStatus::BadIndex => 0x0a,
        CommandErrorStatus::NoResources => 0x0f,
        CommandErrorStatus::BadInputLen => 0x50,
        CommandErrorStatus::BadOutputLen => 0x51,
        CommandErrorStatus::UnknownError(c) => c,
    }
}

impl CommandErrorStatus {
    /// A status is valid unless it is an unknown code that has a name.
    pub open spec fn valid(self) -> bool {
        self is UnknownError ==> status_of(code_of(self)) == self
    }

    pub fn from_code(c: u8) -> (r: CommandErrorStatus)
        ensures
            r == status_of(c),
    {
        match c {
            0x00 => CommandErrorStatus::Success,
            0x01 => CommandErrorStatus::InternalError,
            0x02 => CommandErrorStatus::BadOperation,
            0x03 => CommandErrorStatus::BadParameter,
            0x04 => CommandErrorStatus::BadSystemState,
            0x05 => CommandErrorStatus::BadResource,
            0x06 => CommandErrorStatus::ResourceBusy,
            0x08 => CommandErrorStatus::ExceededLimit,
            0x09 => CommandErrorStatus::BadResourceState,
            0x0a => CommandErrorStatus::BadIndex,
            0x0f => CommandErrorStatus::NoResources,
            0x50 => CommandErrorStatus::BadInputLen,
            0x51 => CommandErrorStatus::BadOutputLen,
            _ => CommandErrorStatus::UnknownError(c),
        }
    }

    pub fn code(&self) -> (r: u8)
        ensures
            r == code_of(*self),
    {
        match self {
            CommandErrorStatus::Success => 0x00,
            CommandErrorStatus::InternalError => 0x01,
            CommandErrorStatus::BadOperation => 0x02,
            CommandErrorStatus::BadParameter => 0x03,
            CommandErrorStatus::BadSystemState => 0x04,
            CommandErrorStatus::BadResource => 0x05,
            CommandErrorStatus::ResourceBusy => 0x06,
            CommandErrorStatus::ExceededLimit => 0x08,
            CommandErrorStatus::BadResourceState => 0x09,
            CommandErrorStatus::BadIndex => 0x0a,
            CommandErrorStatus::NoResources => 0x0f,
            CommandErrorStatus::BadInputLen => 0x50,
            CommandErrorStatus::BadOutputLen => 0x51,
            CommandErrorStatus::UnknownError(c) => *c,
        }
    }
}

pub proof fn lemma_status_round_trip(s: CommandErrorStatus)
    requires
        s.valid(),
    ensures
        status_of(code_of(s)) == s,
{
}

/// The header of every reply: a status byte, three reserved bytes and a
/// big-endian syndrome.
#[derive(PartialEq, Eq, Structural, Clone, Copy, Debug)]
pub struct BaseOutput {
    pub status: CommandErrorStatus,
    pub syndrome: u32,
}

/// Bytes the reply header takes.
pub const BASE_OUTPUT_LEN: usize = 8;

pub open spec fn base_valid(b: BaseOutput) -> bool {
    b.status.valid()
}

pub open spec fn encode_base(b: BaseOutput) -> Seq<u8> {
    seq![code_of(b.status)] + zeros(3) + be32(b.syndrome)
}

/// The header that opens `b`, which holds at least 8 bytes.
pub open spec fn base_of(b: Seq<u8>) -> BaseOutput {
    BaseOutput { status: status_of(b[0]), syndrome: from_be32(b.subrange(4, 8)) }
}

/// Reading a header back from any bytes that start with its encoding.
pub proof fn lemma_base_round_trip(x: BaseOutput, rest: Seq<u8>)
    requires
        base_valid(x),
    ensures
        base_of(encode_base(x) + rest) == x,
{
    let b = encode_base(x) + rest;
    assert(b.subrange(4, 8) =~= be32(x.syndrome));
    lemma_be32_round_trip(x.syndrome);
}

pub fn push_base(v: &mut Vec<u8>, x: &BaseOutput)
    ensures
        final(v)@ == old(v)@ + encode_base(*x),
{
    v.push(x.status.code());
    push_zeros(v, 3);
    push_be32(v, x.syndrome);
    assert(final(v)@ =~= old(v)@ + encode_base(*x));
}

pub fn read_base(b: &[u8]) -> (r: BaseOutput)
    requires
        b@.len() >= BASE_OUTPUT_LEN,
    ensures
        r == base_of(b@),
{
    BaseOutput { status: CommandErrorStatus::from_code(b[0]), syndrome: read_be32(b, 4) }
}

impl View for BaseOutput {
    type V = BaseOutput;

    open spec fn view(&self) -> BaseOutput {
        *self
    }
}

/// The header alone, as `do_command` reads it before the full reply.
pub struct BaseOutputStatus(pub BaseOutput);

impl View for BaseOutputStatus {
    type V = BaseOutput;

    open spec fn view(&self) -> BaseOutput {
        self.0
    }
}

impl Wire for BaseOutputStatus {
    open spec fn valid(v: BaseOutput) -> bool {
        base_valid(v)
    }

    open spec fn spec_encode(v: BaseOutput) -> Seq<u8> {
        encode_base(v)
    }

    open spec fn spec_decode(b: Seq<u8>) -> Option<BaseOutput> {
        if b.len() >= BASE_OUTPUT_LEN {
            Some(base_of(b))
        } else {
            None
        }
    }

    proof fn lemma_round_trip(v: BaseOutput) {
        lemma_base_round_trip(v, Seq::empty());
        assert(encode_base(v) + Seq::<u8>::empty() =~= encode_base(v));
    }

    fn to_bytes(&self) -> (r: Vec<u8>) {
        let mut v: Vec<u8> = Vec::new();
        push_base(&mut v, &self.0);
        assert(v@ =~= encode_base(self.0));
        v
    }

    fn from_bytes(b: &[u8]) -> (r: Option<Self>) {
        if b.len() >= BASE_OUTPUT_LEN {
            Some(BaseOutputStatus(read_base(b)))
        } else {
            None
        }
    }
}

} // verus!
