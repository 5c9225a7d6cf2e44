//! A write call from the moment it is queued to the moment its caller runs
//! again, followed through the context switches that it takes.

use crate::scheduler::{execute_model, gathered, names_task, KernelEffect, SchedulerView};
use crate::syscalls::kernel_mode::write_model;
use crate::syscalls::stubs::written_model;
use crate::syscalls::CODE_OK;
use crate::work_queue::{Deferred, TaskRef, KERNEL_TASK_COUNT};
use vstd::prelude::*;

verus! {

/// How far a write call has come.
pub struct WriteCall {
    /// The bytes that went into the transmit buffer, in order.
    pub sent: Seq<u8>,
    /// The results that were posted to the caller's frame, in order.
    pub posted: Seq<KernelEffect>,
    /// How many times the caller's blocked flag was cleared.
    pub unblocked: nat,
    /// The deferred action that stands for the call at the next context
    /// switch, if the call is not through.
    pub waiting: Option<Deferred>,
}

/// The situation in which an action is carried out: the scheduler and the
/// transmit buffer as they are at that time.
pub struct Stage {
    /// The scheduler.
    pub state: SchedulerView,
    /// What the transmit buffer holds.
    pub console: Seq<u8>,
}

/// The write call that starts as the deferred action `call`, after the
/// action in which it waits was carried out once in each of `stages`, which
/// are any situations whatever: other tasks may have run, written and been
/// blocked in between, and the transmit buffer may have drained or not.
pub open spec fn follow(call: Deferred, capacity: nat, stages: Seq<Stage>) -> WriteCall
    decreases stages.len(),
{
    if stages.len() == 0 {
        WriteCall { sent: Seq::empty(), posted: Seq::empty(), unblocked: 0, waiting: Some(call) }
    } else {
        let so_far = follow(call, capacity, stages.drop_last());
        match so_far.waiting {
            None => so_far,
            Some(action) => {
                let before = stages.last();
                let step = execute_model(before.state, before.console, capacity, action);
                WriteCall {
                    sent: so_far.sent + step.console.skip(before.console.len() as int),
                    posted: gathered(so_far.posted, step.effect),
                    unblocked: so_far.unblocked + if action is Unblock {
                        1nat
                    } else {
                        0nat
                    },
                    waiting: step.continuation,
                }
            },
        }
    }
}

/// Whether each of `stages` has a transmit buffer that holds no more than
/// `capacity` bytes.
pub open spec fn within_capacity(stages: Seq<Stage>, capacity: nat) -> bool {
    forall|i: int| 0 <= i < stages.len() ==> (#[trigger] stages[i]).console.len() <= capacity
}

/// The result that a write of `total` bytes posts to the frame at `args`.
pub open spec fn success(args: u32, total: usize) -> KernelEffect {
    KernelEffect::PostResult { args, code: CODE_OK, value: total as u32 }
}

/// The three stations of a write call of the bytes `buffer`: bytes are
/// left to send, and nothing was posted; all bytes are sent, the result is
/// posted and the caller is still blocked; the caller was unblocked, once.
spec fn on_course(
    call: WriteCall,
    args: u32,
    total: usize,
    buffer: Seq<u8>,
    task: TaskRef,
) -> bool {
    match call.waiting {
        Some(Deferred::WriteTx { args: a, total: t, data, task: k }) => {
            &&& a == args
            &&& t == total
            &&& k == task
            &&& call.sent + data == buffer
            &&& call.posted == Seq::<KernelEffect>::empty()
            &&& call.unblocked == 0
        },
        Some(Deferred::Unblock(k)) => {
            &&& k == task
            &&& call.sent == buffer
            &&& call.posted == seq![success(args, total)]
            &&& call.unblocked == 0
        },
        Some(_) => false,
        None => {
            &&& call.sent == buffer
            &&& call.posted == seq![success(args, total)]
            &&& call.unblocked == 1
        },
    }
}

proof fn lemma_on_course(
    args: u32,
    total: usize,
    buffer: Seq<u8>,
    task: TaskRef,
    capacity: nat,
    stages: Seq<Stage>,
)
    requires
        within_capacity(stages, capacity),
    ensures
        on_course(
            follow(Deferred::WriteTx { args, total, data: buffer, task }, capacity, stages),
            args,
            total,
            buffer,
            task,
        ),
    decreases stages.len(),
{
    let call = Deferred::WriteTx { args, total, data: buffer, task };
    if stages.len() == 0 {
        assert(Seq::<u8>::empty() + buffer =~= buffer);
    } else {
        let earlier = stages.drop_last();
        assert forall|i: int| 0 <= i < earlier.len() implies (#[trigger] earlier[i]).console.len()
            <= capacity by {
            assert(earlier[i] == stages[i]);
        }
        lemma_on_course(args, total, buffer, task, capacity, earlier);
        let so_far = follow(call, capacity, earlier);
        let now = follow(call, capacity, stages);
        let before = stages.last();
        assert(stages.last() == stages[stages.len() - 1]);
        match so_far.waiting {
            Some(Deferred::WriteTx { args: a, total: t, data, task: k }) => {
                let step = execute_model(
                    before.state,
                    before.console,
                    capacity,
                    so_far.waiting.unwrap(),
                );
                let free = capacity - before.console.len();
                let count = crate::fifo::accepted(data.len() as int, free);
                assert(step.console.skip(before.console.len() as int) =~= data.take(count));
                assert(so_far.sent + data.take(count) + data.skip(count) =~= so_far.sent + data);
                if data.len() <= free {
                    assert(data.take(count) =~= data);
                    assert(now.posted =~= seq![success(args, total)]);
                }
            },
            Some(Deferred::Unblock(k)) => {
                let step = execute_model(
                    before.state,
                    before.console,
                    capacity,
                    so_far.waiting.unwrap(),
                );
                assert(step.console.skip(before.console.len() as int) =~= Seq::<u8>::empty());
                assert(now.sent =~= so_far.sent);
            },
            Some(_) => {},
            None => {},
        }
    }
}

/// A write call succeeds whole or not yet: whatever happens between the
/// context switches, the bytes that have gone into the transmit buffer are
/// the first of the buffer in their order, and once a result is posted it
/// is success with the length of the buffer, which the caller reads as
/// `Ok` of that length, and every byte of the buffer has gone in.
pub proof fn lemma_write_atomic(
    args: u32,
    buffer: Seq<u8>,
    task: TaskRef,
    capacity: nat,
    stages: Seq<Stage>,
)
    requires
        buffer.len() <= u32::MAX,
        within_capacity(stages, capacity),
    ensures
        ({
            let call = follow(
                Deferred::WriteTx { args, total: buffer.len() as usize, data: buffer, task },
                capacity,
                stages,
            );
            &&& call.sent == buffer.take(call.sent.len() as int)
            &&& call.posted.len() <= 1
            &&& call.posted.len() == 1 ==> {
                &&& call.sent == buffer
                &&& call.posted[0] == KernelEffect::PostResult {
                    args,
                    code: CODE_OK,
                    value: buffer.len() as u32,
                }
                &&& written_model(CODE_OK, buffer.len() as u32) matches Ok(count) && count
                    == buffer.len()
            }
        }),
{
    let total = buffer.len() as usize;
    lemma_on_course(args, total, buffer, task, capacity, stages);
    let call = follow(Deferred::WriteTx { args, total, data: buffer, task }, capacity, stages);
    match call.waiting {
        Some(Deferred::WriteTx { args: a, total: t, data, task: k }) => {
            assert((call.sent + data).take(call.sent.len() as int) =~= call.sent);
        },
        _ => {
            assert(buffer.take(buffer.len() as int) =~= buffer);
        },
    }
}

/// The write call from its start: a call that the kernel accepts is queued
/// with the caller's frame, the whole buffer and its length, and what holds
/// of a queued write holds of it. Its caller is blocked from the call on,
/// is unblocked once at most and not before the result was posted, and the
/// result is success with the length of the buffer, posted when all bytes
/// have gone into the transmit buffer in their order.
pub proof fn lemma_write_call(
    before: SchedulerView,
    args: Seq<u32>,
    frame: u32,
    data: Seq<u8>,
    capacity: nat,
    stages: Seq<Stage>,
)
    requires
        args.len() >= 2,
        data.len() == args[0],
        before.queue.len() < KERNEL_TASK_COUNT,
        within_capacity(stages, capacity),
    ensures
        ({
            let served = write_model(before, args, frame, data);
            let call = follow(served.state.queue.last(), capacity, stages);
            &&& served.switch
            &&& served.args == args
            &&& served.state.queue == before.queue.push(
                Deferred::WriteTx {
                    args: frame,
                    total: data.len() as usize,
                    data,
                    task: before.current,
                },
            )
            &&& names_task(before.current, before.tasks.len()) ==> served.state.task(
                before.current,
            ).blocked
            &&& call.sent == data.take(call.sent.len() as int)
            &&& call.posted.len() <= 1
            &&& call.posted.len() == 1 ==> call.sent == data && call.posted[0] == success(
                frame,
                data.len() as usize,
            )
            &&& call.unblocked <= 1
            &&& call.unblocked == 1 ==> call.posted.len() == 1
            &&& call.unblocked == 1 <==> call.waiting is None
        }),
{
    let served = write_model(before, args, frame, data);
    assert(served.state.queue.last() == Deferred::WriteTx {
        args: frame,
        total: data.len() as usize,
        data,
        task: before.current,
    });
    lemma_write_atomic(frame, data, before.current, capacity, stages);
    lemma_unblocked_once(frame, data.len() as usize, data, before.current, capacity, stages);
}

/// The caller of a write call is unblocked once at most, and not before the
/// result of the call was posted to its frame; while the call waits as a
/// write the caller has not been unblocked, and once the call waits no more
/// the caller has been unblocked exactly once.
pub proof fn lemma_unblocked_once(
    args: u32,
    total: usize,
    buffer: Seq<u8>,
    task: TaskRef,
    capacity: nat,
    stages: Seq<Stage>,
)
    requires
        within_capacity(stages, capacity),
    ensures
        ({
            let call = follow(
                Deferred::WriteTx { args, total, data: buffer, task },
                capacity,
                stages,
            );
            &&& call.unblocked <= 1
            &&& call.unblocked == 1 ==> call.posted == seq![success(args, total)]
            &&& call.unblocked == 1 <==> call.waiting is None
            &&& call.waiting matches Some(action) ==> action == Deferred::Unblock(task)
                || action is WriteTx
        }),
{
    lemma_on_course(args, total, buffer, task, capacity, stages);
}

/// While a write call waits, in either form, carrying its action out leaves
/// a caller that is a listed task blocked unless the action is the unblock
/// that ends the call.
pub proof fn lemma_blocked_while_writing(
    before: SchedulerView,
    console: Seq<u8>,
    capacity: nat,
    action: Deferred,
    at: usize,
)
    requires
        action matches Deferred::WriteTx { task, .. } && task == TaskRef::Listed(at),
        at < before.tasks.len(),
    ensures
        execute_model(before, console, capacity, action).state.tasks[at as int].blocked,
{
}

} // verus!
