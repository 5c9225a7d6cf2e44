//! The kernel's side of a system call: which call it is, what it does to
//! the scheduler, and what it answers.

use crate::scheduler::{enqueue_kernel_task, Scheduler, SchedulerView};
use crate::syscalls::{
    decode_model, ReturnCode, SyscallError, CODE_BUSY, CODE_INCREMENT_PAST_TEN, CODE_OK,
};
use crate::work_queue::{Deferred, KernelTask, KERNEL_TASK_COUNT};
use vstd::prelude::*;

verus! {

/// Immediate byte of the increment call.
pub const SVC_INCREMENT: u8 = 0;

/// Immediate byte of the write call.
pub const SVC_WRITE: u8 = 1;

/// Immediate byte of the block call.
pub const SVC_BLOCK: u8 = 2;

/// Position of the return address in a stacked exception frame.
pub const FRAME_RETURN_ADDRESS: usize = 6;

/// Values up to which the increment call counts.
pub const INCREMENT_LIMIT: u32 = 10;

/// The calls that the kernel serves.
#[derive(Clone, Copy, Debug, PartialEq, Eq, Structural)]
pub enum SyscallNumber {
    /// Add one to a small number.
    Increment,
    /// Send bytes to the console.
    Write,
    /// Suspend the caller.
    Block,
}

/// The call that the immediate byte `imm` stands for.
pub open spec fn number_model(imm: u8) -> Option<SyscallNumber> {
    if imm == SVC_INCREMENT {
        Some(SyscallNumber::Increment)
    } else if imm == SVC_WRITE {
        Some(SyscallNumber::Write)
    } else if imm == SVC_BLOCK {
        Some(SyscallNumber::Block)
    } else {
        None
    }
}

impl SyscallNumber {
    /// The call that the immediate byte `imm` stands for, if any.
    pub fn from(imm: u8) -> (number: Option<Self>)
        ensures
            number == number_model(imm),
    {
        if imm == SVC_INCREMENT {
            Some(SyscallNumber::Increment)
        } else if imm == SVC_WRITE {
            Some(SyscallNumber::Write)
        } else if imm == SVC_BLOCK {
            Some(SyscallNumber::Block)
        } else {
            None
        }
    }

    /// The immediate byte of this call.
    pub fn immediate(self) -> (imm: u8)
        ensures
            number_model(imm) == Some(self),
    {
        match self {
            SyscallNumber::Increment => SVC_INCREMENT,
            SyscallNumber::Write => SVC_WRITE,
            SyscallNumber::Block => SVC_BLOCK,
        }
    }
}

/// Address of the byte that holds the number of the call that stacked
/// `frame`: the low byte of the halfword just before the return address.
pub fn svc_immediate_address(frame: &[u32]) -> (address: u32)
    requires
        frame@.len() > FRAME_RETURN_ADDRESS,
    ensures
        frame@[FRAME_RETURN_ADDRESS as int] >= 2 ==> address == frame@[FRAME_RETURN_ADDRESS as int]
            - 2,
        frame@[FRAME_RETURN_ADDRESS as int] < 2 ==> address == frame@[FRAME_RETURN_ADDRESS as int]
            + 0xFFFF_FFFE,
{
    frame[FRAME_RETURN_ADDRESS].wrapping_sub(2)
}

/// The memory that a call refers to, as the address of its first byte and
/// its length in bytes. Only the write call refers to any.
pub fn buffer_argument(imm: u8, args: &[u32]) -> (buffer: Option<(u32, u32)>)
    requires
        args@.len() >= 2,
    ensures
        buffer == if imm == SVC_WRITE {
            Some((args@[1], args@[0]))
        } else {
            None
        },
{
    if imm == SVC_WRITE {
        Some((args[1], args[0]))
    } else {
        None
    }
}

/// Answers a call: stores `code` and `value` in the caller's stacked `r0`
/// and `r1`, which the return from the exception hands to the caller.
pub fn post_result(args: &mut [u32], code: u32, value: u32)
    requires
        old(args)@.len() >= 2,
    ensures
        final(args)@ == old(args)@.update(0, code).update(1, value),
{
    args[0] = code;
    args[1] = value;
}

/// The answer to an increment call with `r0` and `r1` as they are.
pub open spec fn increment_model(r0: u32, r1: u32) -> (u32, u32) {
    if r0 < INCREMENT_LIMIT {
        (CODE_OK, (r0 + 1) as u32)
    } else {
        (CODE_INCREMENT_PAST_TEN, r1)
    }
}

/// What a system call does.
pub struct Served {
    /// The scheduler after the call.
    pub state: SchedulerView,
    /// The caller's stacked `r0` and `r1` after the call.
    pub args: Seq<u32>,
    /// Whether a context switch is due.
    pub switch: bool,
}

/// The effect of the write call of the current task in `before`, made with
/// `data`, when the caller's stacked registers `args` lie at byte address
/// `frame`.
///
/// While the work queue has room the write is queued, the caller is blocked
/// and a context switch is due; the answer comes later. When the queue is
/// full the caller is told so at once and runs on.
pub open spec fn write_model(before: SchedulerView, args: Seq<u32>, frame: u32, data: Seq<u8>)
    -> Served {
    if before.queue.len() < KERNEL_TASK_COUNT {
        Served {
            state: (SchedulerView {
                queue: before.queue.push(
                    Deferred::WriteTx {
                        args: frame,
                        total: args[0] as usize,
                        data,
                        task: before.current,
                    },
                ),
                ..before
            }).set_blocked(before.current, true),
            args,
            switch: true,
        }
    } else {
        Served { state: before, args: args.update(0, CODE_BUSY), switch: false }
    }
}

/// The effect of the call `number`.
pub open spec fn syscall_model(
    before: SchedulerView,
    number: SyscallNumber,
    args: Seq<u32>,
    frame: u32,
    data: Seq<u8>,
) -> Served {
    match number {
        SyscallNumber::Increment => Served {
            state: before,
            args: args.update(0, increment_model(args[0], args[1]).0).update(
                1,
                increment_model(args[0], args[1]).1,
            ),
            switch: false,
        },
        SyscallNumber::Write => write_model(before, args, frame, data),
        SyscallNumber::Block => Served {
            state: before.set_blocked(before.current, true),
            args,
            switch: true,
        },
    }
}

/// Serves the increment call: a value below ten is answered with success
/// and the value plus one, any other with a failure and `r1` as it was.
pub fn handle_syscall_increment(args: &mut [u32])
    requires
        old(args)@.len() >= 2,
    ensures
        final(args)@ == old(args)@.update(0, increment_model(old(args)@[0], old(args)@[1]).0).update(
            1,
            increment_model(old(args)@[0], old(args)@[1]).1,
        ),
{
    let value: u32 = args[0];
    if value < INCREMENT_LIMIT {
        args[0] = ReturnCode::Success.code();
        args[1] = value + 1;
    } else {
        args[0] = ReturnCode::IncrementPastTen.code();
    }
    assert(args@ =~= old(args)@.update(0, increment_model(old(args)@[0], old(args)@[1]).0).update(
        1,
        increment_model(old(args)@[0], old(args)@[1]).1,
    ));
}

/// Serves the write call of the current task, whose stacked registers
/// `args` lie at byte address `frame` and name the bytes `data`. Says
/// whether a context switch is due.
pub fn handle_syscall_write(
    scheduler: &mut Scheduler,
    args: &mut [u32],
    frame: u32,
    data: &'static [u8],
) -> (switch: bool)
    requires
        old(scheduler).wf(),
        old(args)@.len() >= 2,
        data@.len() == old(args)@[0],
    ensures
        final(scheduler).wf(),
        ({
            let served = write_model(old(scheduler)@, old(args)@, frame, data@);
            &&& final(scheduler)@ == served.state
            &&& final(args)@ == served.args
            &&& switch == served.switch
        }),
{
    let len: usize = args[0] as usize;
    let task = scheduler.current_task();
    let kernel_task = KernelTask::WriteTx { args: frame, total: len, data, task };
    proof {
        scheduler.lemma_wf();
    }
    match enqueue_kernel_task(scheduler, kernel_task) {
        Ok(()) => {
            scheduler.set_blocked(task, true);
            true
        },
        Err(_) => {
            args[0] = ReturnCode::Busy.code();
            false
        },
    }
}

/// Serves the block call: the current task is blocked and a context switch
/// is due.
pub fn handle_syscall_block(scheduler: &mut Scheduler) -> (switch: bool)
    requires
        old(scheduler).wf(),
    ensures
        final(scheduler).wf(),
        final(scheduler)@ == old(scheduler)@.set_blocked(old(scheduler)@.current, true),
        switch,
{
    let current = scheduler.current_task();
    proof {
        scheduler.lemma_wf();
    }
    scheduler.set_blocked(current, true);
    true
}

/// Serves the system call with the immediate byte `imm` that the current
/// task made. `args` are the caller's stacked `r0` and `r1`, which lie at
/// byte address `frame`; `data` is the memory that `buffer_argument` names,
/// and is not looked at where it names none. Says whether a context switch
/// is due.
pub fn handle_syscall(
    scheduler: &mut Scheduler,
    imm: u8,
    args: &mut [u32],
    frame: u32,
    data: &'static [u8],
) -> (switch: bool)
    requires
        old(scheduler).wf(),
        old(args)@.len() >= 2,
        number_model(imm) is Some,
        imm == SVC_WRITE ==> data@.len() == old(args)@[0],
    ensures
        final(scheduler).wf(),
        ({
            let served = syscall_model(
                old(scheduler)@,
                number_model(imm).unwrap(),
                old(args)@,
                frame,
                data@,
            );
            &&& final(scheduler)@ == served.state
            &&& final(args)@ == served.args
            &&& switch == served.switch
        }),
{
    match SyscallNumber::from(imm) {
        Some(SyscallNumber::Write) => handle_syscall_write(scheduler, args, frame, data),
        Some(SyscallNumber::Increment) => {
            handle_syscall_increment(args);
            false
        },
        Some(SyscallNumber::Block) => handle_syscall_block(scheduler),
        None => {
            proof {
                assert(false);
            }
            false
        },
    }
}

/// What the increment call gives its caller for `value`.
pub open spec fn incremented(value: u32) -> Result<u32, SyscallError> {
    if value < INCREMENT_LIMIT {
        Ok((value + 1) as u32)
    } else {
        Err(SyscallError::IncrementPastTen)
    }
}

/// The increment call as its caller sees it: a value below ten comes back
/// one larger, any other is refused. What `r1` held does not matter.
pub proof fn lemma_increment(value: u32, r1: u32)
    ensures
        decode_model(increment_model(value, r1).0, increment_model(value, r1).1) == incremented(
            value,
        ),
{
}

} // verus!
