//! The kernel's bounded queue of deferred actions.
//!
//! System calls and the boot code put actions into the queue; the context
//! switch takes them out in the order in which they came.

use heapless::spsc::Queue;
use vstd::prelude::*;

verus! {

/// How many deferred actions can wait at one time.
pub const KERNEL_TASK_COUNT: usize = 16;

/// Names a task: the idle task, or a task of the task list by its position
/// in the order in which the tasks were inserted.
#[derive(Clone, Copy, Debug, PartialEq, Eq, Structural)]
pub enum TaskRef {
    /// The task that runs when no other can.
    Idle,
    /// The task that was inserted after so many others.
    Listed(usize),
}

/// Work that the kernel puts off until the next context switch.
#[derive(Debug)]
pub enum KernelTask {
    /// Switch thread mode to unprivileged execution.
    LowerThreadPrivileges,
    /// Move bytes of a write call into the console's transmit buffer.
    WriteTx {
        /// Address of the caller's stacked `r0`, where the result goes.
        args: u32,
        /// Number of bytes that the call was made with.
        total: usize,
        /// The bytes that are still to be moved.
        data: &'static [u8],
        /// The caller, which waits for the result.
        task: TaskRef,
    },
    /// Start a new task.
    Spawn {
        /// Address of the task's body.
        f: u32,
        /// Byte address of the stack memory.
        stack: u32,
        /// Size of the stack memory in words.
        stack_size: usize,
    },
    /// Let a task run again.
    Unblock(TaskRef),
}

/// The abstract value of a deferred action.
pub enum Deferred {
    LowerThreadPrivileges,
    WriteTx { args: u32, total: usize, data: Seq<u8>, task: TaskRef },
    Spawn { f: u32, stack: u32, stack_size: usize },
    Unblock(TaskRef),
}

impl View for KernelTask {
    type V = Deferred;

    open spec fn view(&self) -> Deferred {
        match *self {
            KernelTask::LowerThreadPrivileges => Deferred::LowerThreadPrivileges,
            KernelTask::WriteTx { args, total, data, task } => Deferred::WriteTx {
                args,
                total,
                data: data@,
                task,
            },
            KernelTask::Spawn { f, stack, stack_size } => Deferred::Spawn { f, stack, stack_size },
            KernelTask::Unblock(task) => Deferred::Unblock(task),
        }
    }
}

#[verifier::external_type_specification]
#[verifier::external_body]
#[verifier::reject_recursive_types(T)]
pub struct ExQueue<T, const N: usize>(Queue<T, N>);

/// The items that wait in a `heapless::spsc::Queue`, the next to leave
/// first.
pub uninterp spec fn queued(queue: Queue<KernelTask, 17>) -> Seq<KernelTask>;

/// `heapless::spsc::Queue::new`: the new queue holds nothing.
#[verifier::external_body]
fn queue_new() -> (queue: Queue<KernelTask, 17>)
    ensures
        queued(queue) == Seq::<KernelTask>::empty(),
{
    Queue::new()
}

/// `heapless::spsc::Queue::enqueue`: a queue of 17 slots takes an item at
/// its end while it holds fewer than 16, and else hands the item back and
/// stays as it was.
#[verifier::external_body]
fn queue_enqueue(queue: &mut Queue<KernelTask, 17>, task: KernelTask) -> (result: Result<
    (),
    KernelTask,
>)
    ensures
        result is Ok <==> queued(*old(queue)).len() < 16,
        result is Ok ==> queued(*final(queue)) == queued(*old(queue)).push(task),
        result matches Err(back) ==> back == task && queued(*final(queue)) == queued(*old(queue)),
{
    queue.enqueue(task)
}

/// `heapless::spsc::Queue::dequeue`: the item at the front leaves the queue
/// and is returned; an empty queue returns `None` and stays empty.
#[verifier::external_body]
fn queue_dequeue(queue: &mut Queue<KernelTask, 17>) -> (result: Option<KernelTask>)
    ensures
        result is None <==> queued(*old(queue)).len() == 0,
        result is None ==> queued(*final(queue)) == queued(*old(queue)),
        result matches Some(task) ==> task == queued(*old(queue))[0] && queued(*final(queue))
            == queued(*old(queue)).drop_first(),
{
    queue.dequeue()
}

/// The deferred actions that wait for the next context switch, oldest
/// first. At most `KERNEL_TASK_COUNT` wait at one time.
pub struct WorkQueue {
    inner: Queue<KernelTask, 17>,
}

impl View for WorkQueue {
    type V = Seq<Deferred>;

    closed spec fn view(&self) -> Seq<Deferred> {
        queued(self.inner).map_values(|task: KernelTask| task@)
    }
}

impl WorkQueue {
    /// No more actions wait than the queue has room for.
    pub closed spec fn wf(&self) -> bool {
        queued(self.inner).len() <= KERNEL_TASK_COUNT
    }

    /// An empty queue.
    pub fn new() -> (queue: Self)
        ensures
            queue.wf(),
            queue@ == Seq::<Deferred>::empty(),
    {
        let queue = Self { inner: queue_new() };
        assert(queue@ =~= Seq::<Deferred>::empty());
        queue
    }

    /// Puts `task` at the end of the queue, or hands it back when the queue
    /// is full.
    pub fn enqueue(&mut self, task: KernelTask) -> (result: Result<(), KernelTask>)
        requires
            old(self).wf(),
        ensures
            final(self).wf(),
            result is Ok <==> old(self)@.len() < KERNEL_TASK_COUNT,
            result is Ok ==> final(self)@ == old(self)@.push(task@),
            result matches Err(back) ==> back == task && final(self)@ == old(self)@,
    {
        let result = queue_enqueue(&mut self.inner, task);
        proof {
            if result is Ok {
                assert(self@ =~= old(self)@.push(task@));
            }
        }
        result
    }

    /// Takes the oldest action out of the queue, if there is one.
    pub fn dequeue(&mut self) -> (result: Option<KernelTask>)
        requires
            old(self).wf(),
        ensures
            final(self).wf(),
            final(self)@.len() <= KERNEL_TASK_COUNT,
            result is None <==> old(self)@.len() == 0,
            result is None ==> final(self)@ == old(self)@,
            result matches Some(task) ==> task@ == old(self)@[0] && final(self)@ == old(
                self,
            )@.drop_first(),
    {
        let result = queue_dequeue(&mut self.inner);
        proof {
            if result is Some {
                assert(self@ =~= old(self)@.drop_first());
            }
        }
        result
    }
}

} // verus!
