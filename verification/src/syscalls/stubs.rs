//! The user's side of a system call: what goes into the registers before
//! the supervisor call, and what its answer means.
//!
//! The supervisor call itself is an instruction. Here it is a function from
//! the number of the call and the registers `r0` and `r1` to the two
//! registers as the kernel left them.

use crate::syscalls::kernel_mode::{SyscallNumber, SVC_INCREMENT, SVC_WRITE};
use crate::syscalls::{decode_model, decode_result, SyscallError};
use vstd::prelude::*;

verus! {

/// What the answer `r0`, `r1` to a write call means to the caller: the
/// number of bytes that the console took, or an error.
pub open spec fn written_model(r0: u32, r1: u32) -> Result<usize, SyscallError> {
    match decode_model(r0, r1) {
        Ok(count) => Ok(count as usize),
        Err(error) => Err(error),
    }
}

/// Adds one to `value` by the increment call: `svc` is made with the number
/// of the call, `value` and zero, and its answer is decoded.
pub fn increment<F: FnOnce(u8, u32, u32) -> (u32, u32)>(value: u32, svc: F) -> (result: Result<
    u32,
    SyscallError,
>)
    requires
        svc.requires((SVC_INCREMENT, value, 0u32)),
    ensures
        exists|r0: u32, r1: u32| #[trigger]
            svc.ensures((SVC_INCREMENT, value, 0u32), (r0, r1)) && result == decode_model(r0, r1),
{
    let (code, word) = svc(SyscallNumber::Increment.immediate(), value, 0);
    decode_result(code, word)
}

/// Sends `buffer`, which lies at byte address `address`, to the console by
/// the write call: `svc` is made with the number of the call, the length of
/// the buffer and its address, and its answer is decoded. On success the
/// result is the number of bytes that were taken.
pub fn write<F: FnOnce(u8, u32, u32) -> (u32, u32)>(buffer: &[u8], address: u32, svc: F) -> (result:
    Result<usize, SyscallError>)
    requires
        buffer@.len() <= u32::MAX,
        svc.requires((SVC_WRITE, buffer@.len() as u32, address)),
    ensures
        exists|r0: u32, r1: u32| #[trigger]
            svc.ensures((SVC_WRITE, buffer@.len() as u32, address), (r0, r1)) && result
                == written_model(r0, r1),
{
    let len: u32 = buffer.len() as u32;
    let (code, word) = svc(SyscallNumber::Write.immediate(), len, address);
    match decode_result(code, word) {
        Ok(count) => Ok(count as usize),
        Err(error) => Err(error),
    }
}

} // verus!
