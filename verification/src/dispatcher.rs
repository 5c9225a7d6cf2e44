//! The kernel's part in the two exceptions that it lives in: the context
//! switch, and the hard fault.

use crate::fifo::FIFO;
use crate::scheduler::{
    complete_tasks, next_task, pass_model, schedule_next, KernelEffect, Pass, Scheduler,
    SchedulerView,
};
use vstd::prelude::*;

verus! {

/// Priority of the supervisor call, which has to be through before the
/// scheduler runs.
pub const PRIORITY_SVCALL: u8 = 13;

/// Priority of the system timer.
pub const PRIORITY_SYSTICK: u8 = 14;

/// Priority of the context switch: the lowest, so that it interrupts no
/// other handler.
pub const PRIORITY_PENDSV: u8 = 15;

/// Bit of an exception-return value that is set when the interrupted code
/// ran on the process stack.
pub const EXC_RETURN_PROCESS_STACK: u32 = 4;

/// Whether the code that an exception with the link register `exc_return`
/// interrupted ran on the process stack, and not on the main stack.
pub fn uses_process_stack(exc_return: u32) -> (process: bool)
    ensures
        process <==> exc_return & EXC_RETURN_PROCESS_STACK == EXC_RETURN_PROCESS_STACK,
{
    exc_return & EXC_RETURN_PROCESS_STACK == EXC_RETURN_PROCESS_STACK
}

/// A new task is resumed on the process stack: the exception-return value
/// that its stack starts with has the bit for it.
pub proof fn lemma_new_task_on_process_stack()
    ensures
        crate::task::EXC_RETURN_THREAD_PSP & EXC_RETURN_PROCESS_STACK == EXC_RETURN_PROCESS_STACK,
{
    assert(0xFFFF_FFFDu32 & 4u32 == 4u32) by (bit_vector);
}

/// The kernel's work at a context switch when the transmit buffer has
/// `capacity` slots: the deferred actions are carried out, then the next
/// task is chosen.
pub open spec fn kernel_task_model(before: SchedulerView, console: Seq<u8>, capacity: nat) -> Pass {
    let done = pass_model(
        Pass {
            state: SchedulerView { queue: Seq::empty(), ..before },
            console,
            continuations: Seq::empty(),
            effects: Seq::empty(),
        },
        capacity,
        before.queue,
    );
    Pass {
        state: SchedulerView {
            queue: done.continuations,
            current: next_task(done.state.tasks, done.state.current),
            ..done.state
        },
        ..done
    }
}

/// The kernel's work at a context switch: carries out the deferred actions
/// that wait, then chooses the next task. Returns the work on the machine
/// that is left to the caller, who does it before any task is resumed.
pub fn kernel_task<const N: usize>(scheduler: &mut Scheduler, console: &mut FIFO<u8, N>) -> (effects:
    Vec<KernelEffect>)
    requires
        old(scheduler).wf(),
        old(console).wf(),
    ensures
        final(scheduler).wf(),
        final(console).wf(),
        final(scheduler)@ == kernel_task_model(old(scheduler)@, old(console)@, N as nat).state,
        final(console)@ == kernel_task_model(old(scheduler)@, old(console)@, N as nat).console,
        effects@ == kernel_task_model(old(scheduler)@, old(console)@, N as nat).effects,
{
    let effects = complete_tasks(scheduler, console);
    schedule_next(scheduler);
    effects
}

/// What a context switch hands back to the code that restores registers.
pub struct Switch {
    /// The stack pointer to resume with: that of the task that is now the
    /// current one.
    pub stack_pointer: u32,
    /// Work on the machine to do before the task is resumed.
    pub effects: Vec<KernelEffect>,
}

/// The context switch between the saving and the restoring of registers:
/// `saved_sp`, the stack pointer of the task that was interrupted, is kept
/// in that task's control block, the kernel does its work, and the stack
/// pointer of the task that was chosen is handed out.
pub fn pend_sv<const N: usize>(
    scheduler: &mut Scheduler,
    console: &mut FIFO<u8, N>,
    saved_sp: u32,
) -> (switch: Switch)
    requires
        old(scheduler).wf(),
        old(console).wf(),
    ensures
        final(scheduler).wf(),
        final(console).wf(),
        ({
            let after = kernel_task_model(
                old(scheduler)@.suspend(saved_sp),
                old(console)@,
                N as nat,
            );
            &&& final(scheduler)@ == after.state
            &&& final(console)@ == after.console
            &&& switch.effects@ == after.effects
            &&& switch.stack_pointer == after.state.task(after.state.current).saved_sp
        }),
{
    scheduler.save_stack_pointer(saved_sp);
    let effects = kernel_task(scheduler, console);
    let current = scheduler.current_task();
    proof {
        scheduler.lemma_wf();
    }
    let stack_pointer = scheduler.task(current).stack_pointer();
    Switch { stack_pointer, effects }
}

/// The three fault status registers that share the Configurable Fault
/// Status Register.
#[derive(Clone, Copy, Debug, PartialEq, Eq, Structural)]
pub struct FaultStatus {
    /// Usage faults: bits 16 to 31.
    pub usage: u16,
    /// Bus faults: bits 8 to 15.
    pub bus: u8,
    /// Memory management faults: bits 0 to 7.
    pub memory: u8,
}

/// Takes the Configurable Fault Status Register apart.
pub fn fault_status(cfsr: u32) -> (status: FaultStatus)
    ensures
        status.usage == cfsr / 0x1_0000,
        status.bus == (cfsr / 0x100) % 0x100,
        status.memory == cfsr % 0x100,
{
    assert(cfsr >> 16 == cfsr / 0x1_0000) by (bit_vector);
    assert((cfsr >> 8) & 0xff == (cfsr / 0x100) % 0x100) by (bit_vector);
    assert(cfsr & 0xff == cfsr % 0x100) by (bit_vector);
    FaultStatus {
        usage: (cfsr >> 16) as u16,
        bus: ((cfsr >> 8) & 0xff) as u8,
        memory: (cfsr & 0xff) as u8,
    }
}

} // verus!
