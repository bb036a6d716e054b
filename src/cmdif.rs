//! The generic command interface: running any command or register access
//! over a transport that executes raw command bytes.

use vstd::prelude::*;

use crate::commands::access_register::{AccessRegisterOutputView, AccessRegisterView};
use crate::commands::{
    status_of, AccessRegister, AccessRegisterOpMod, AccessRegisterOutput,
    BaseOutputStatus, Command, CommandErrorStatus, Wire,
};
use crate::error::Error;
use crate::registers::Register;
use crate::wire::from_be32;

verus! {

/// A transport that executes the bytes of one command. Implementations
/// talk to a device (or stand in for one); `replies` and `fails` describe
/// what the device may answer.
/// Code generic over the transport sees neither body, so what it proves
/// holds of every device; an implementation that states nothing allows
/// any answer.
pub trait CmdIf {
    /// The device may answer `input`, expecting `outlen` bytes, with `out`.
    closed spec fn replies(&self, input: Seq<u8>, outlen: u32, out: Seq<u8>) -> bool {
        true
    }

    /// Executing `input` may fail with `e`.
    closed spec fn fails(&self, input: Seq<u8>, outlen: u32, e: Error) -> bool {
        true
    }

    fn exec_command(&self, input: &[u8], outlen: u32) -> (r: Result<Vec<u8>, Error>)
        requires
            input@.len() >= 0x10,
        ensures
            match r {
                Ok(v) => self.replies(input@, outlen, v@),
                Err(e) => self.fails(input@, outlen, e),
            },
    ;
}

/// A request as sent: its bytes and the reply length asked for.
pub type SentRequest = (Seq<u8>, u32);

/// A transport together with the record of every request the library has
/// sent through it, in order.
pub struct Channel<C: CmdIf> {
    pub transport: C,
    pub sent: Ghost<Seq<SentRequest>>,
}

impl<C: CmdIf> Channel<C> {
    /// A channel over `transport` that has sent nothing yet.
    pub fn new(transport: C) -> (r: Channel<C>)
        ensures
            r.transport == transport,
            r.sent@ == Seq::<SentRequest>::empty(),
    {
        Channel { transport, sent: Ghost(Seq::empty()) }
    }

    /// Sends one request and records it.
    pub fn exec(&mut self, input: &[u8], outlen: u32) -> (r: Result<Vec<u8>, Error>)
        requires
            input@.len() >= 0x10,
        ensures
            final(self).transport == old(self).transport,
            final(self).sent@ == old(self).sent@.push((input@, outlen)),
            match r {
                Ok(v) => old(self).transport.replies(input@, outlen, v@),
                Err(e) => old(self).transport.fails(input@, outlen, e),
            },
    {
        let r = self.transport.exec_command(input, outlen);
        self.sent = Ghost(self.sent@.push((input@, outlen)));
        r
    }
}

/// The requests sent for the bytes `input` with a reply of `outlen` bytes:
/// none when the request is shorter than the inline part or the length
/// does not fit 32 bits, otherwise exactly one.
pub open spec fn request_log(input: Seq<u8>, outlen: nat) -> Seq<SentRequest> {
    if input.len() < 0x10 || outlen > u32::MAX {
        Seq::empty()
    } else {
        seq![(input, outlen as u32)]
    }
}

/// A result with its success value replaced by that value's view.
pub open spec fn result_view<T: View>(r: Result<T, Error>) -> Result<T::V, Error> {
    match r {
        Ok(x) => Ok(x@),
        Err(e) => Err(e),
    }
}

/// What running the request bytes `input` for a reply of `outlen` bytes
/// over `cmdif` may give: an encoding error for a request shorter than the
/// inline part or a reply length past 32 bits; otherwise a failure the
/// transport may report, or the meaning of a reply the device may give.
pub open spec fn command_outcome<C: CmdIf, T: Wire>(
    cmdif: &C,
    input: Seq<u8>,
    outlen: nat,
    r: Result<T::V, Error>,
) -> bool {
    if input.len() < 0x10 || outlen > u32::MAX {
        r == Err::<T::V, Error>(Error::Encoding)
    } else {
        ||| exists|e: Error| #[trigger]
            cmdif.fails(input, outlen as u32, e) && r == Err::<T::V, Error>(e)
        ||| exists|out: Seq<u8>| #[trigger]
            cmdif.replies(input, outlen as u32, out) && r == reply_outcome::<T>(out)
    }
}

/// What a reply means: a short reply or one that does not decode is an
/// encoding error, a status other than success is a command error with the
/// reply's status and syndrome, and otherwise the reply is the decoded
/// output.
pub open spec fn reply_outcome<T: Wire>(b: Seq<u8>) -> Result<T::V, Error> {
    if b.len() < 8 {
        Err(Error::Encoding)
    } else if status_of(b[0]) != CommandErrorStatus::Success {
        Err(Error::Command { status: status_of(b[0]), syndrome: from_be32(b.subrange(4, 8)) })
    } else {
        match T::spec_decode(b) {
            Some(v) => Ok(v),
            None => Err(Error::Encoding),
        }
    }
}

/// Interprets the reply bytes of a command.
pub fn parse_reply<T: Wire>(b: &[u8]) -> (r: Result<T, Error>)
    ensures
        result_view(r) == reply_outcome::<T>(b@),
{
    let header = match BaseOutputStatus::from_bytes(b) {
        Some(h) => h,
        None => {
            return Err(Error::Encoding);
        },
    };
    if header.0.status != CommandErrorStatus::Success {
        return Err(Error::Command { status: header.0.status, syndrome: header.0.syndrome });
    }
    match T::from_bytes(b) {
        Some(x) => Ok(x),
        None => Err(Error::Encoding),
    }
}

/// Encodes `cmd`, executes it with the command's reply length and
/// interprets the reply.
pub fn do_command<C: CmdIf, Cmd: Command>(ch: &mut Channel<C>, cmd: &Cmd) -> (r: Result<
    Cmd::Output,
    Error,
>)
    requires
        Cmd::spec_outlen(cmd@) <= usize::MAX,
    ensures
        final(ch).transport == old(ch).transport,
        final(ch).sent@ == old(ch).sent@ + request_log(
            Cmd::spec_encode(cmd@),
            Cmd::spec_outlen(cmd@),
        ),
        command_outcome::<C, Cmd::Output>(
            &old(ch).transport,
            Cmd::spec_encode(cmd@),
            Cmd::spec_outlen(cmd@),
            result_view(r),
        ),
{
    let msg = cmd.to_bytes();
    if msg.len() < 0x10 {
        assert(ch.sent@ + Seq::<SentRequest>::empty() =~= ch.sent@);
        return Err(Error::Encoding);
    }
    let outlen = cmd.outlen();
    if outlen > u32::MAX as usize {
        assert(ch.sent@ + Seq::<SentRequest>::empty() =~= ch.sent@);
        return Err(Error::Encoding);
    }
    let ghost before = ch.sent@;
    let res = ch.exec(msg.as_slice(), outlen as u32);
    assert(ch.sent@ =~= before + seq![(msg@, outlen as u32)]);
    match res {
        Ok(out) => {
            let r = parse_reply::<Cmd::Output>(out.as_slice());
            assert(ch.transport.replies(msg@, outlen as u32, out@));
            r
        },
        Err(e) => {
            assert(ch.transport.fails(msg@, outlen as u32, e));
            Err(e)
        },
    }
}

/// The register-access request that carries `reg` with `op_mod` and
/// `argument`.
pub fn register_request<R: Register>(reg: &R, op_mod: AccessRegisterOpMod, argument: u32) -> (r:
    AccessRegister)
    ensures
        r@ == (AccessRegisterView {
            op_mod,
            register_id: R::spec_register_id(),
            argument,
            register_data: R::spec_encode(reg@),
        }),
{
    AccessRegister { op_mod, register_id: R::register_id(), argument, register_data: reg.to_bytes() }
}

/// The register a register-access reply carries, or why there is none.
pub open spec fn register_reply<R: Register>(ro: Result<AccessRegisterOutputView, Error>) -> Result<
    R::V,
    Error,
> {
    match ro {
        Err(e) => Err(e),
        Ok(o) => match R::spec_decode(o.register_data) {
            Some(v) => Ok(v),
            None => Err(Error::Encoding),
        },
    }
}

/// The register-access request for `reg` with `op_mod` and `argument`.
pub open spec fn register_request_view<R: Register>(
    reg: R::V,
    op_mod: AccessRegisterOpMod,
    argument: u32,
) -> AccessRegisterView {
    AccessRegisterView {
        op_mod,
        register_id: R::spec_register_id(),
        argument,
        register_data: R::spec_encode(reg),
    }
}

/// The one request that accessing register `reg` sends.
pub open spec fn register_log<R: Register>(
    reg: R::V,
    op_mod: AccessRegisterOpMod,
    argument: u32,
) -> Seq<SentRequest> {
    request_log(AccessRegister::spec_encode(register_request_view::<R>(reg, op_mod, argument)), 0x90)
}

/// What accessing register `reg` with `op_mod` and `argument` over
/// `cmdif` may give: the register decoded from the data section of the
/// outcome of the register-access request.
pub open spec fn register_outcome<C: CmdIf, R: Register>(
    cmdif: &C,
    reg: R::V,
    op_mod: AccessRegisterOpMod,
    argument: u32,
    r: Result<R::V, Error>,
) -> bool {
    exists|ro: Result<AccessRegisterOutputView, Error>|
        #![trigger register_reply::<R>(ro)]
        command_outcome::<C, AccessRegisterOutput>(
            cmdif,
            AccessRegister::spec_encode(register_request_view::<R>(reg, op_mod, argument)),
            0x90,
            ro,
        ) && r == register_reply::<R>(ro)
}

/// The register carried in the data section of a register-access reply.
pub fn register_from_reply<R: Register>(out: &AccessRegisterOutput) -> (r: Result<R, Error>)
    ensures
        result_view(r) == register_reply::<R>(Ok(out@)),
{
    match R::from_bytes(&out.register_data) {
        Some(x) => Ok(x),
        None => Err(Error::Encoding),
    }
}

/// Runs the register-access request for `reg` and decodes the register
/// from the reply.
fn access_register<C: CmdIf, R: Register>(
    ch: &mut Channel<C>,
    reg: &R,
    op_mod: AccessRegisterOpMod,
    argument: u32,
) -> (r: Result<R, Error>)
    ensures
        final(ch).transport == old(ch).transport,
        final(ch).sent@ == old(ch).sent@ + register_log::<R>(reg@, op_mod, argument),
        register_outcome::<C, R>(&old(ch).transport, reg@, op_mod, argument, result_view(r)),
{
    let req = register_request(reg, op_mod, argument);
    let out = do_command(ch, &req);
    let ghost ro = result_view(out);
    let r = match out {
        Ok(o) => register_from_reply(&o),
        Err(e) => Err(e),
    };
    assert(result_view(r) == register_reply::<R>(ro));
    r
}

/// Reads register `R` with `argument`; the register's current value comes
/// back decoded from the reply.
pub fn read_register<C: CmdIf, R: Register>(ch: &mut Channel<C>, reg: &R, argument: u32) -> (r:
    Result<R, Error>)
    ensures
        final(ch).transport == old(ch).transport,
        final(ch).sent@ == old(ch).sent@ + register_log::<R>(
            reg@,
            AccessRegisterOpMod::Read,
            argument,
        ),
        register_outcome::<C, R>(
            &old(ch).transport,
            reg@,
            AccessRegisterOpMod::Read,
            argument,
            result_view(r),
        ),
{
    access_register(ch, reg, AccessRegisterOpMod::Read, argument)
}

/// Writes `reg` to register `R` with `argument`; the register's value
/// after the write comes back decoded from the reply.
pub fn write_register<C: CmdIf, R: Register>(ch: &mut Channel<C>, reg: &R, argument: u32) -> (r:
    Result<R, Error>)
    ensures
        final(ch).transport == old(ch).transport,
        final(ch).sent@ == old(ch).sent@ + register_log::<R>(
            reg@,
            AccessRegisterOpMod::Write,
            argument,
        ),
        register_outcome::<C, R>(
            &old(ch).transport,
            reg@,
            AccessRegisterOpMod::Write,
            argument,
            result_view(r),
        ),
{
    access_register(ch, reg, AccessRegisterOpMod::Write, argument)
}

} // verus!
