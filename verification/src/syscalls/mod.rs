//! System calls.
//!
//! A task asks for a service with a supervisor call whose immediate byte is
//! the number of the call; `r0` and `r1` hold the arguments. The kernel
//! answers in the same two registers of the caller's stacked frame: a return
//! code in `r0` and a value in `r1`.

use vstd::prelude::*;

pub mod kernel_mode;
pub mod stubs;

verus! {

/// Return code of a call that succeeded.
pub const CODE_OK: u32 = 0;

/// Return code of a call that the kernel does not serve yet.
pub const CODE_NOT_IMPLEMENTED: u32 = 1;

/// Return code of an increment of a value of ten or more.
pub const CODE_INCREMENT_PAST_TEN: u32 = 2;

/// Return code of a call that found the kernel's work queue full.
pub const CODE_BUSY: u32 = 3;

/// What the kernel leaves in `r0`. User code sees a `Result` in its place.
#[derive(Clone, Copy, Debug, PartialEq, Eq, Structural)]
pub enum ReturnCode {
    /// The call succeeded.
    Success,
    /// The call is not served yet.
    NotImplemented,
    /// Ten or more was handed to the increment call.
    IncrementPastTen,
    /// The kernel is busy with other calls; try again.
    Busy,
}

/// The number that stands for `code` in `r0`.
pub open spec fn code_of(code: ReturnCode) -> u32 {
    match code {
        ReturnCode::Success => CODE_OK,
        ReturnCode::NotImplemented => CODE_NOT_IMPLEMENTED,
        ReturnCode::IncrementPastTen => CODE_INCREMENT_PAST_TEN,
        ReturnCode::Busy => CODE_BUSY,
    }
}

impl ReturnCode {
    /// The number that stands for this code in `r0`.
    pub fn code(self) -> (code: u32)
        ensures
            code == code_of(self),
    {
        match self {
            ReturnCode::Success => CODE_OK,
            ReturnCode::NotImplemented => CODE_NOT_IMPLEMENTED,
            ReturnCode::IncrementPastTen => CODE_INCREMENT_PAST_TEN,
            ReturnCode::Busy => CODE_BUSY,
        }
    }
}

/// Why a system call failed.
#[derive(Clone, Copy, Debug, PartialEq, Eq, Structural)]
pub enum SyscallError {
    /// The kernel answered with a return code that has no meaning; here it
    /// is.
    Unknown(u32),
    /// The call is not served yet.
    NotImplemented,
    /// Ten or more was handed to the increment call.
    IncrementPastTen,
    /// The kernel is busy.
    Busy,
}

/// What the answer `r0`, `r1` of the kernel means to the caller.
pub open spec fn decode_model(r0: u32, r1: u32) -> Result<u32, SyscallError> {
    if r0 == CODE_OK {
        Ok(r1)
    } else if r0 == CODE_NOT_IMPLEMENTED {
        Err(SyscallError::NotImplemented)
    } else if r0 == CODE_INCREMENT_PAST_TEN {
        Err(SyscallError::IncrementPastTen)
    } else if r0 == CODE_BUSY {
        Err(SyscallError::Busy)
    } else {
        Err(SyscallError::Unknown(r0))
    }
}

/// Turns the answer of the kernel into a `Result`: the value word when the
/// return code says that the call succeeded, else the error that the code
/// stands for.
pub fn decode_result(r0: u32, r1: u32) -> (result: Result<u32, SyscallError>)
    ensures
        result == decode_model(r0, r1),
{
    if r0 == CODE_OK {
        Ok(r1)
    } else if r0 == CODE_NOT_IMPLEMENTED {
        Err(SyscallError::NotImplemented)
    } else if r0 == CODE_INCREMENT_PAST_TEN {
        Err(SyscallError::IncrementPastTen)
    } else if r0 == CODE_BUSY {
        Err(SyscallError::Busy)
    } else {
        Err(SyscallError::Unknown(r0))
    }
}

} // verus!
