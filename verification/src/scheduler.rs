//! The task list, the choice of the next task to run, and the deferred work
//! that is done at each context switch.

use crate::fifo::{accepted, FIFO};
use crate::syscalls::{ReturnCode, CODE_OK};
use crate::task::{initial_sp, Task, TaskView, FRAME_WORDS};
use crate::work_queue::{Deferred, KernelTask, TaskRef, WorkQueue, KERNEL_TASK_COUNT};
use vstd::prelude::*;

verus! {

/// Rate of the system timer that drives preemption, in ticks per second.
pub const SYSTICK_HZ: u32 = 1000;

/// Work on the machine that a deferred action asks of its caller, to be
/// done before the next task is resumed.
#[derive(Clone, Copy, Debug, PartialEq, Eq, Structural)]
pub enum KernelEffect {
    /// Clear the privilege of thread mode in the `CONTROL` register.
    LowerThreadPrivileges,
    /// Store `code` and `value` into the stacked `r0` and `r1` at byte
    /// address `args`.
    PostResult { args: u32, code: u32, value: u32 },
    /// Fill in the top of the stack of `stack_size` words at byte address
    /// `stack` for a task that has not run yet.
    InitializeStack { stack: u32, stack_size: usize },
}

/// What became of one deferred action.
#[derive(Debug)]
pub struct Executed {
    /// The action to take up again at the next context switch.
    pub continuation: Option<KernelTask>,
    /// Work left to the caller.
    pub effect: Option<KernelEffect>,
}

/// The head of a task list of `count` tasks: the task inserted last.
pub open spec fn list_head(count: nat) -> Option<usize> {
    if count == 0 {
        None
    } else {
        Some((count - 1) as usize)
    }
}

/// Whether `task` names a task of a scheduler with `count` listed tasks.
pub open spec fn names_task(task: TaskRef, count: nat) -> bool {
    match task {
        TaskRef::Idle => true,
        TaskRef::Listed(i) => i < count,
    }
}

/// Whether a scheduler with `count` listed tasks can carry `action` out:
/// the tasks it names exist, a byte count fits the result word, and a stack
/// is word aligned, lies inside the address space and has room for the
/// initial frame and one word more.
pub open spec fn admissible(action: Deferred, count: nat) -> bool {
    match action {
        Deferred::LowerThreadPrivileges => true,
        Deferred::WriteTx { args, total, data, task } => names_task(task, count) && total
            <= u32::MAX,
        Deferred::Spawn { f, stack, stack_size } => stack % 4 == 0 && stack_size > FRAME_WORDS
            && stack + 4 * stack_size <= u32::MAX,
        Deferred::Unblock(task) => names_task(task, count),
    }
}

/// The abstract state of the scheduler.
pub struct SchedulerView {
    /// The listed tasks in the order in which they were inserted.
    pub tasks: Seq<TaskView>,
    /// The task at which a walk over the whole list starts.
    pub head: Option<usize>,
    /// The idle task, which is in no list.
    pub idle: TaskView,
    /// The task whose context is loaded.
    pub current: TaskRef,
    /// The deferred actions that wait, oldest first.
    pub queue: Seq<Deferred>,
    /// Address of the code that a new task starts in.
    pub bootstrap: u32,
}

impl SchedulerView {
    /// The list runs from the task inserted last to the task inserted
    /// first, the idle task is linked to none, the current task exists, and
    /// the waiting actions can be carried out.
    pub open spec fn wf(self) -> bool {
        &&& self.head == list_head(self.tasks.len())
        &&& forall|i: int|
            0 <= i < self.tasks.len() ==> (#[trigger] self.tasks[i]).next == list_head(i as nat)
        &&& self.idle.next is None
        &&& names_task(self.current, self.tasks.len())
        &&& self.queue.len() <= KERNEL_TASK_COUNT
        &&& forall|i: int|
            0 <= i < self.queue.len() ==> admissible(#[trigger] self.queue[i], self.tasks.len())
    }

    /// The task that `task` names.
    pub open spec fn task(self, task: TaskRef) -> TaskView {
        match task {
            TaskRef::Idle => self.idle,
            TaskRef::Listed(i) => self.tasks[i as int],
        }
    }

    /// The state with `block` as the control block of `task`. A name that
    /// stands for no task changes nothing.
    pub open spec fn replace(self, task: TaskRef, block: TaskView) -> SchedulerView {
        match task {
            TaskRef::Idle => SchedulerView { idle: block, ..self },
            TaskRef::Listed(i) => if i < self.tasks.len() {
                SchedulerView { tasks: self.tasks.update(i as int, block), ..self }
            } else {
                self
            },
        }
    }

    /// The state with the blocked flag of `task` set to `value`.
    pub open spec fn set_blocked(self, task: TaskRef, value: bool) -> SchedulerView {
        self.replace(task, TaskView { blocked: value, ..self.task(task) })
    }

    /// The state with `sp` as the saved stack pointer of the current task.
    pub open spec fn suspend(self, sp: u32) -> SchedulerView {
        self.replace(self.current, TaskView { saved_sp: sp, ..self.task(self.current) })
    }

    /// The state after the current task has given its body away.
    pub open spec fn take_handler(self) -> SchedulerView {
        self.replace(self.current, TaskView { handler: None, ..self.task(self.current) })
    }

    /// The state with `task` inserted at the head of the list.
    pub open spec fn insert(self, task: TaskView) -> SchedulerView {
        SchedulerView {
            tasks: self.tasks.push(TaskView { next: self.head, ..task }),
            head: Some(self.tasks.len() as usize),
            ..self
        }
    }
}

/// The first task that is not blocked among those at positions `from`,
/// `from - 1`, and so on down to 0.
pub open spec fn first_runnable(tasks: Seq<TaskView>, from: int) -> Option<usize>
    decreases from + 1,
{
    if from < 0 || from >= tasks.len() {
        None
    } else if !tasks[from].blocked {
        Some(from as usize)
    } else {
        first_runnable(tasks, from - 1)
    }
}

/// The position at which the search for the next task starts: that of the
/// current task, which itself comes last. The idle task has no successor.
pub open spec fn position(current: TaskRef) -> int {
    match current {
        TaskRef::Idle => 0,
        TaskRef::Listed(i) => i as int,
    }
}

/// The task that runs after `current`: the first that is not blocked among
/// the tasks behind the current one in the list, else the first that is not
/// blocked in the whole list, else the idle task.
pub open spec fn next_task(tasks: Seq<TaskView>, current: TaskRef) -> TaskRef {
    match first_runnable(tasks, position(current) - 1) {
        Some(i) => TaskRef::Listed(i),
        None => match first_runnable(tasks, tasks.len() - 1) {
            Some(i) => TaskRef::Listed(i),
            None => TaskRef::Idle,
        },
    }
}

/// What a write action does with `data` when the transmit buffer has `free`
/// slots left: the bytes that go into the buffer, the bytes that stay
/// behind, and whether the write is complete.
pub open spec fn write_step(data: Seq<u8>, free: int) -> (Seq<u8>, Seq<u8>, bool) {
    let count = accepted(data.len() as int, free);
    (data.take(count), data.skip(count), data.len() <= free)
}

/// What carrying out one deferred action comes to.
pub struct Step {
    /// The scheduler afterwards.
    pub state: SchedulerView,
    /// The console's transmit buffer afterwards.
    pub console: Seq<u8>,
    /// The action to take up again at the next context switch.
    pub continuation: Option<Deferred>,
    /// The work left to the caller.
    pub effect: Option<KernelEffect>,
}

/// The effect of carrying out `action` in the state `before`, where the
/// transmit buffer holds `console` and has `capacity` slots.
///
/// Lowering the privileges is left to the caller. A write blocks its
/// caller, moves as many bytes as fit into the transmit buffer, and either
/// posts the result and asks for the caller to be unblocked, or asks to be
/// taken up again with the bytes that are left. A spawn inserts a task
/// whose stack the caller has to fill in. An unblock clears the flag.
pub open spec fn execute_model(
    before: SchedulerView,
    console: Seq<u8>,
    capacity: nat,
    action: Deferred,
) -> Step {
    match action {
        Deferred::LowerThreadPrivileges => Step {
            state: before,
            console,
            continuation: None,
            effect: Some(KernelEffect::LowerThreadPrivileges),
        },
        Deferred::WriteTx { args, total, data, task } => {
            let (taken, left, complete) = write_step(data, capacity - console.len());
            Step {
                state: before.set_blocked(task, true),
                console: console + taken,
                continuation: Some(
                    if complete {
                        Deferred::Unblock(task)
                    } else {
                        Deferred::WriteTx { args, total, data: left, task }
                    },
                ),
                effect: if complete {
                    Some(KernelEffect::PostResult { args, code: CODE_OK, value: total as u32 })
                } else {
                    None
                },
            }
        },
        Deferred::Spawn { f, stack, stack_size } => Step {
            state: before.insert(
                TaskView {
                    saved_sp: initial_sp(stack + 4 * stack_size) as u32,
                    handler: Some(f),
                    next: None,
                    blocked: false,
                },
            ),
            console,
            continuation: None,
            effect: Some(KernelEffect::InitializeStack { stack, stack_size }),
        },
        Deferred::Unblock(task) => Step {
            state: before.set_blocked(task, false),
            console,
            continuation: None,
            effect: None,
        },
    }
}

/// A state together with what a series of deferred actions left behind.
pub struct Pass {
    /// The scheduler.
    pub state: SchedulerView,
    /// The console's transmit buffer.
    pub console: Seq<u8>,
    /// The actions to take up again at the next context switch, in order.
    pub continuations: Seq<Deferred>,
    /// The work left to the caller, in order.
    pub effects: Seq<KernelEffect>,
}

/// `so_far` with `more` at its end, if there is any.
pub open spec fn gathered<T>(so_far: Seq<T>, more: Option<T>) -> Seq<T> {
    match more {
        Some(item) => so_far.push(item),
        None => so_far,
    }
}

/// The effect of carrying out `actions` one after the other, each in the
/// state that the one before it left.
pub open spec fn pass_model(before: Pass, capacity: nat, actions: Seq<Deferred>) -> Pass
    decreases actions.len(),
{
    if actions.len() == 0 {
        before
    } else {
        let step = execute_model(before.state, before.console, capacity, actions[0]);
        pass_model(
            Pass {
                state: step.state,
                console: step.console,
                continuations: gathered(before.continuations, step.continuation),
                effects: gathered(before.effects, step.effect),
            },
            capacity,
            actions.drop_first(),
        )
    }
}

/// The tasks of the system and the work that waits for the next context
/// switch.
pub struct Scheduler {
    /// The listed tasks in the order in which they were inserted.
    tasks: Vec<Task>,
    /// The task inserted last, where a walk over the list starts.
    task_list: Option<usize>,
    /// The task that runs when no other can.
    idle_task: Task,
    /// The task whose context is loaded.
    current_task: TaskRef,
    /// Deferred actions, oldest first.
    kernel_tasks: WorkQueue,
    /// Address of the code that a new task starts in.
    bootstrap: u32,
}

impl View for Scheduler {
    type V = SchedulerView;

    closed spec fn view(&self) -> SchedulerView {
        SchedulerView {
            tasks: self.tasks@.map_values(|task: Task| task@),
            head: self.task_list,
            idle: self.idle_task@,
            current: self.current_task,
            queue: self.kernel_tasks@,
            bootstrap: self.bootstrap,
        }
    }
}

impl Scheduler {
    /// The state is well formed, and so is its representation.
    pub closed spec fn wf(&self) -> bool {
        &&& self@.wf()
        &&& self.kernel_tasks.wf()
    }

    /// What `wf` says of the abstract state.
    pub proof fn lemma_wf(&self)
        requires
            self.wf(),
        ensures
            self@.wf(),
            self@.tasks.len() <= usize::MAX,
    {
        self.lemma_view_tasks();
    }

    /// The abstract task list follows the stored one, task by task.
    proof fn lemma_view_tasks(&self)
        ensures
            self@.tasks.len() == self.tasks@.len(),
            self@.tasks.len() <= usize::MAX,
            forall|i: int| 0 <= i < self.tasks@.len() ==> self@.tasks[i] == self.tasks@[i]@,
    {
        assert(self.tasks@.len() == self.tasks.len());
    }

    /// The task whose context is loaded.
    pub fn current_task(&self) -> (task: TaskRef)
        ensures
            task == self@.current,
    {
        self.current_task
    }

    /// Address of the code that a new task starts in.
    pub fn bootstrap(&self) -> (address: u32)
        ensures
            address == self@.bootstrap,
    {
        self.bootstrap
    }

    /// Number of listed tasks.
    pub fn task_count(&self) -> (count: usize)
        ensures
            count == self@.tasks.len(),
    {
        self.tasks.len()
    }

    /// Whether the scheduler can carry `task` out, which is what queueing
    /// it asks for.
    pub fn admits(&self, task: &KernelTask) -> (admitted: bool)
        ensures
            admitted == admissible(task@, self@.tasks.len()),
    {
        match task {
            KernelTask::LowerThreadPrivileges => true,
            KernelTask::WriteTx { args, total, data, task } => {
                self.names(*task) && *total <= 0xFFFF_FFFF
            },
            KernelTask::Spawn { f, stack, stack_size } => {
                let size: usize = *stack_size;
                let base: u64 = *stack as u64;
                *stack % 4 == 0 && size > FRAME_WORDS && size <= 0x3FFF_FFFF && base + 4 * (
                size as u64) <= 0xFFFF_FFFF
            },
            KernelTask::Unblock(task) => self.names(*task),
        }
    }

    /// Whether `task` names a task of this scheduler.
    pub fn names(&self, task: TaskRef) -> (named: bool)
        ensures
            named == names_task(task, self@.tasks.len()),
    {
        match task {
            TaskRef::Idle => true,
            TaskRef::Listed(i) => i < self.tasks.len(),
        }
    }

    /// The control block of `task`.
    pub fn task(&self, task: TaskRef) -> (block: &Task)
        requires
            names_task(task, self@.tasks.len()),
        ensures
            block@ == self@.task(task),
    {
        match task {
            TaskRef::Idle => &self.idle_task,
            TaskRef::Listed(i) => &self.tasks[i],
        }
    }

    /// Sets the blocked flag of `task` and returns its old state.
    pub fn set_blocked(&mut self, task: TaskRef, value: bool) -> (previous: bool)
        requires
            old(self).wf(),
            names_task(task, old(self)@.tasks.len()),
        ensures
            final(self).wf(),
            final(self)@ == old(self)@.set_blocked(task, value),
            previous == old(self)@.task(task).blocked,
    {
        let previous = match task {
            TaskRef::Idle => self.idle_task.set_blocked(value),
            TaskRef::Listed(i) => self.tasks[i].set_blocked(value),
        };
        proof {
            assert(self@.tasks =~= old(self)@.set_blocked(task, value).tasks);
        }
        previous
    }

    /// Records the stack pointer that the current task is suspended with.
    pub fn save_stack_pointer(&mut self, sp: u32)
        requires
            old(self).wf(),
        ensures
            final(self).wf(),
            final(self)@ == old(self)@.suspend(sp),
    {
        match self.current_task {
            TaskRef::Idle => {
                self.idle_task.save_stack_pointer(sp);
            },
            TaskRef::Listed(i) => {
                self.tasks[i].save_stack_pointer(sp);
                proof {
                    assert(self@.tasks =~= old(self)@.tasks.update(
                        i as int,
                        TaskView { saved_sp: sp, ..old(self)@.tasks[i as int] },
                    ));
                }
            },
        }
    }
}

/// Hands out the body of the current task, which can be had once: at the
/// task's first activation.
pub fn take_handler(scheduler: &mut Scheduler) -> (handler: Option<u32>)
    requires
        old(scheduler).wf(),
    ensures
        final(scheduler).wf(),
        handler == old(scheduler)@.task(old(scheduler)@.current).handler,
        final(scheduler)@ == old(scheduler)@.take_handler(),
{
    match scheduler.current_task {
        TaskRef::Idle => scheduler.idle_task.take_handler(),
        TaskRef::Listed(i) => {
            let handler = scheduler.tasks[i].take_handler();
            proof {
                assert(scheduler@.tasks =~= old(scheduler)@.tasks.update(
                    i as int,
                    TaskView { handler: None, ..old(scheduler)@.tasks[i as int] },
                ));
            }
            handler
        },
    }
}

/// Inserts `task` at the head of the task list.
pub fn insert_task(scheduler: &mut Scheduler, task: Task)
    requires
        old(scheduler).wf(),
    ensures
        final(scheduler).wf(),
        final(scheduler)@ == old(scheduler)@.insert(task@),
{
    let mut linked = task;
    linked.link_to(scheduler.task_list);
    let index: usize = scheduler.tasks.len();
    scheduler.tasks.push(linked);
    scheduler.task_list = Some(index);
    proof {
        assert(scheduler@.tasks =~= old(scheduler)@.insert(task@).tasks);
        assert forall|i: int| 0 <= i < scheduler@.tasks.len() implies (
        #[trigger] scheduler@.tasks[i]).next == list_head(i as nat) by {
            if i < old(scheduler)@.tasks.len() {
                assert(scheduler@.tasks[i] == old(scheduler)@.tasks[i]);
            }
        }
        assert forall|i: int| 0 <= i < scheduler@.queue.len() implies admissible(
            #[trigger] scheduler@.queue[i],
            scheduler@.tasks.len(),
        ) by {
            assert(admissible(old(scheduler)@.queue[i], old(scheduler)@.tasks.len()));
        }
    }
}

/// Sets the scheduler up: an idle task, which is the current one, the
/// application task on `app_stack` as the only listed task, and the request
/// to lower the privileges of thread mode as the first deferred action.
///
/// `app_stack` lies at byte address `stack_base`; `app` is the address of
/// the application's body and `bootstrap` that of the code that every task
/// starts in. The caller starts the system timer at `SYSTICK_HZ` and becomes
/// the idle task.
pub fn start(app_stack: &mut [u32], stack_base: u32, bootstrap: u32, app: u32) -> (scheduler:
    Scheduler)
    requires
        old(app_stack)@.len() > FRAME_WORDS,
        stack_base + 4 * old(app_stack)@.len() <= u32::MAX,
        stack_base % 4 == 0,
    ensures
        scheduler.wf(),
        scheduler@ == (SchedulerView {
            tasks: seq![
                TaskView {
                    saved_sp: initial_sp(stack_base + 4 * old(app_stack)@.len()) as u32,
                    handler: Some(app),
                    next: None,
                    blocked: false,
                },
            ],
            head: Some(0usize),
            idle: TaskView { saved_sp: 0, handler: None, next: None, blocked: false },
            current: TaskRef::Idle,
            queue: seq![Deferred::LowerThreadPrivileges],
            bootstrap,
        }),
        final(app_stack)@ == crate::task::overlay(
            old(app_stack)@,
            (initial_sp(stack_base + 4 * old(app_stack)@.len()) - stack_base) / 4,
            crate::task::frame_words(
                bootstrap,
                crate::task::stack_padded(stack_base + 4 * old(app_stack)@.len()),
            ),
        ),
{
    let mut scheduler = Scheduler {
        tasks: Vec::new(),
        task_list: None,
        idle_task: Task::new_empty(),
        current_task: TaskRef::Idle,
        kernel_tasks: WorkQueue::new(),
        bootstrap,
    };
    assert(scheduler@.tasks =~= Seq::<TaskView>::empty());
    let app_task = Task::new(app_stack, stack_base, bootstrap, app);
    insert_task(&mut scheduler, app_task);
    match enqueue_kernel_task(&mut scheduler, KernelTask::LowerThreadPrivileges) {
        Ok(()) => {},
        Err(_) => {
            proof {
                assert(false);
            }
        },
    }
    proof {
        assert(scheduler@.tasks =~= seq![
            TaskView {
                saved_sp: initial_sp(stack_base + 4 * old(app_stack)@.len()) as u32,
                handler: Some(app),
                next: None,
                blocked: false,
            },
        ]);
        assert(scheduler@.queue =~= seq![Deferred::LowerThreadPrivileges]);
    }
    scheduler
}

/// Puts `task` at the end of the queue of deferred actions. Hands it back
/// when `KERNEL_TASK_COUNT` actions wait already.
pub fn enqueue_kernel_task(scheduler: &mut Scheduler, task: KernelTask) -> (result: Result<
    (),
    KernelTask,
>)
    requires
        old(scheduler).wf(),
        admissible(task@, old(scheduler)@.tasks.len()),
    ensures
        final(scheduler).wf(),
        result is Ok <==> old(scheduler)@.queue.len() < KERNEL_TASK_COUNT,
        result is Ok ==> final(scheduler)@ == (SchedulerView {
            queue: old(scheduler)@.queue.push(task@),
            ..old(scheduler)@
        }),
        result matches Err(back) ==> back == task && final(scheduler)@ == old(scheduler)@,
{
    scheduler.kernel_tasks.enqueue(task)
}

/// Carries out one deferred action. Returns the action to take up again at
/// the next context switch, if there is one, and the work on the machine
/// that is left to the caller.
pub fn execute_task<const N: usize>(
    scheduler: &mut Scheduler,
    console: &mut FIFO<u8, N>,
    task: KernelTask,
) -> (done: Executed)
    requires
        old(scheduler).wf(),
        old(console).wf(),
        admissible(task@, old(scheduler)@.tasks.len()),
    ensures
        final(scheduler).wf(),
        final(console).wf(),
        final(scheduler)@.tasks.len() >= old(scheduler)@.tasks.len(),
        done.continuation matches Some(next) ==> admissible(next@, final(scheduler)@.tasks.len()),
        ({
            let step = execute_model(old(scheduler)@, old(console)@, N as nat, task@);
            &&& final(scheduler)@ == step.state
            &&& final(console)@ == step.console
            &&& done.effect == step.effect
            &&& done.continuation is None <==> step.continuation is None
            &&& done.continuation matches Some(next) ==> step.continuation == Some(next@)
        }),
{
    match task {
        KernelTask::LowerThreadPrivileges => Executed {
            continuation: None,
            effect: Some(KernelEffect::LowerThreadPrivileges),
        },
        KernelTask::WriteTx { args, total, data, task } => {
            scheduler.set_blocked(task, true);
            match console.append(data) {
                Ok(_) => {
                    proof {
                        assert(data@.take(data@.len() as int) =~= data@);
                    }
                    Executed {
                        continuation: Some(KernelTask::Unblock(task)),
                        effect: Some(
                            KernelEffect::PostResult {
                                args,
                                code: ReturnCode::Success.code(),
                                value: total as u32,
                            },
                        ),
                    }
                },
                Err(appended) => {
                    let (_, left) = data.split_at(appended);
                    proof {
                        assert(left@ =~= data@.skip(appended as int));
                    }
                    Executed {
                        continuation: Some(KernelTask::WriteTx { args, total, data: left, task }),
                        effect: None,
                    }
                },
            }
        },
        KernelTask::Spawn { f, stack, stack_size } => {
            insert_task(scheduler, Task::on_stack(stack, stack_size, f));
            proof {
                let step = execute_model(
                    old(scheduler)@,
                    old(console)@,
                    N as nat,
                    KernelTask::Spawn { f, stack, stack_size }@,
                );
                assert(scheduler@.tasks =~= step.state.tasks);
            }
            Executed {
                continuation: None,
                effect: Some(KernelEffect::InitializeStack { stack, stack_size }),
            }
        },
        KernelTask::Unblock(task) => {
            scheduler.set_blocked(task, false);
            Executed { continuation: None, effect: None }
        },
    }
}

/// Follows the list from `head` to the first task that is not blocked.
pub fn find_runnable(scheduler: &Scheduler, head: Option<usize>) -> (found: Option<usize>)
    requires
        scheduler.wf(),
        head matches Some(i) ==> i < scheduler@.tasks.len(),
    ensures
        found == first_runnable(
            scheduler@.tasks,
            match head {
                Some(i) => i as int,
                None => -1,
            },
        ),
        found matches Some(i) ==> i < scheduler@.tasks.len(),
{
    let mut cursor = head;
    loop
        invariant
            scheduler.wf(),
            cursor matches Some(i) ==> i < scheduler@.tasks.len(),
            first_runnable(
                scheduler@.tasks,
                match cursor {
                    Some(i) => i as int,
                    None => -1,
                },
            ) == first_runnable(
                scheduler@.tasks,
                match head {
                    Some(i) => i as int,
                    None => -1,
                },
            ),
        decreases
                match cursor {
                    Some(i) => i as int + 1,
                    None => 0,
                },
    {
        match cursor {
            None => {
                return None;
            },
            Some(i) => {
                proof {
                    scheduler.lemma_view_tasks();
                }
                if !scheduler.tasks[i].is_blocked() {
                    return Some(i);
                }
                cursor = scheduler.tasks[i].next();
            },
        }
    }
}

/// Chooses the task to run next and makes it the current one: the first
/// that is not blocked behind the current task, else the first that is not
/// blocked in the whole list, else the idle task.
pub fn schedule_next(scheduler: &mut Scheduler)
    requires
        old(scheduler).wf(),
    ensures
        final(scheduler).wf(),
        final(scheduler)@ == (SchedulerView {
            current: next_task(old(scheduler)@.tasks, old(scheduler)@.current),
            ..old(scheduler)@
        }),
        final(scheduler)@.current == TaskRef::Idle <==> forall|i: int|
            0 <= i < old(scheduler)@.tasks.len() ==> (#[trigger] old(scheduler)@.tasks[i]).blocked,
        final(scheduler)@.current matches TaskRef::Listed(chosen) ==> chosen < old(
            scheduler,
        )@.tasks.len() && !old(scheduler)@.tasks[chosen as int].blocked,
{
    proof {
        scheduler.lemma_wf();
        crate::fairness::lemma_idle_iff_all_blocked(scheduler@.tasks, scheduler@.current);
    }
    let after = match scheduler.current_task {
        TaskRef::Idle => scheduler.idle_task.next(),
        TaskRef::Listed(i) => {
            proof {
                scheduler.lemma_view_tasks();
                assert(scheduler@.tasks[i as int].next == list_head(i as nat));
            }
            scheduler.tasks[i].next()
        },
    };
    proof {
        scheduler.lemma_view_tasks();
    }
    let next = if let Some(next) = find_runnable(scheduler, after) {
        TaskRef::Listed(next)
    } else if let Some(any) = find_runnable(scheduler, scheduler.task_list) {
        TaskRef::Listed(any)
    } else {
        TaskRef::Idle
    };
    scheduler.current_task = next;
}

/// Carries out the deferred actions that wait, oldest first, and leaves in
/// the queue the actions that they ask to be taken up again, which thus
/// wait for the next call. Returns the work on the machine that is left to
/// the caller, in order.
pub fn complete_tasks<const N: usize>(scheduler: &mut Scheduler, console: &mut FIFO<u8, N>) -> (effects:
    Vec<KernelEffect>)
    requires
        old(scheduler).wf(),
        old(console).wf(),
    ensures
        final(scheduler).wf(),
        final(console).wf(),
        ({
            let after = pass_model(
                Pass {
                    state: SchedulerView { queue: Seq::empty(), ..old(scheduler)@ },
                    console: old(console)@,
                    continuations: Seq::empty(),
                    effects: Seq::empty(),
                },
                N as nat,
                old(scheduler)@.queue,
            );
            &&& final(scheduler)@ == (SchedulerView { queue: after.continuations, ..after.state })
            &&& final(console)@ == after.console
            &&& effects@ == after.effects
        }),
{
    let mut continuations = WorkQueue::new();
    let mut effects: Vec<KernelEffect> = Vec::new();
    let ghost start = Pass {
        state: SchedulerView { queue: Seq::empty(), ..old(scheduler)@ },
        console: old(console)@,
        continuations: Seq::empty(),
        effects: Seq::empty(),
    };
    let mut more = true;
    while more
        invariant
            scheduler.wf(),
            console.wf(),
            continuations.wf(),
            !more ==> scheduler@.queue.len() == 0,
            continuations@.len() + scheduler@.queue.len() <= KERNEL_TASK_COUNT,
            forall|i: int|
                0 <= i < continuations@.len() ==> admissible(
                    #[trigger] continuations@[i],
                    scheduler@.tasks.len(),
                ),
            pass_model(
                Pass {
                    state: SchedulerView { queue: Seq::empty(), ..scheduler@ },
                    console: console@,
                    continuations: continuations@,
                    effects: effects@,
                },
                N as nat,
                scheduler@.queue,
            ) == pass_model(start, N as nat, old(scheduler)@.queue),
        decreases
                scheduler@.queue.len() + if more {
                    1nat
                } else {
                    0nat
                },
    {
        let ghost waiting = scheduler@.queue;
        match scheduler.kernel_tasks.dequeue() {
            None => {
                more = false;
            },
            Some(task) => {
                let ghost action = task@;
                let ghost rest = scheduler@.queue;
                let done = execute_task(scheduler, console, task);
                if let Some(effect) = done.effect {
                    effects.push(effect);
                }
                if let Some(next) = done.continuation {
                    match continuations.enqueue(next) {
                        Ok(()) => {},
                        Err(_) => {
                            proof {
                                assert(false);
                            }
                        },
                    }
                }
                proof {
                    assert(rest == waiting.drop_first());
                    assert(action == waiting[0]);
                }
            },
        }
    }
    scheduler.kernel_tasks = continuations;
    effects
}

/// Whether every one of `actions` can be carried out by a scheduler with
/// `count` listed tasks.
pub open spec fn all_admissible(actions: Seq<Deferred>, count: nat) -> bool {
    forall|i: int| 0 <= i < actions.len() ==> admissible(#[trigger] actions[i], count)
}

/// A pass keeps the scheduler well formed and makes no more work than it
/// does: each action leaves one continuation at most, which can be carried
/// out in its turn, and one effect at most, and no task is taken off the
/// list. So the continuations of a full queue fit into an empty one.
pub proof fn lemma_pass_bounded(before: Pass, capacity: nat, actions: Seq<Deferred>)
    requires
        before.state.wf(),
        all_admissible(actions, before.state.tasks.len()),
        all_admissible(before.continuations, before.state.tasks.len()),
    ensures
        ({
            let after = pass_model(before, capacity, actions);
            &&& after.state.wf()
            &&& after.state.tasks.len() >= before.state.tasks.len()
            &&& after.state.queue == before.state.queue
            &&& after.state.current == before.state.current
            &&& all_admissible(after.continuations, after.state.tasks.len())
            &&& after.continuations.len() <= before.continuations.len() + actions.len()
            &&& after.effects.len() <= before.effects.len() + actions.len()
        }),
    decreases actions.len(),
{
    if actions.len() > 0 {
        let step = execute_model(before.state, before.console, capacity, actions[0]);
        let next = Pass {
            state: step.state,
            console: step.console,
            continuations: gathered(before.continuations, step.continuation),
            effects: gathered(before.effects, step.effect),
        };
        let rest = actions.drop_first();
        assert(admissible(actions[0], before.state.tasks.len()));
        assert forall|i: int| 0 <= i < next.state.tasks.len() implies (
        #[trigger] next.state.tasks[i]).next == list_head(i as nat) by {
            if i < before.state.tasks.len() {
                assert(before.state.tasks[i].next == list_head(i as nat));
            }
        }
        assert forall|i: int| 0 <= i < next.state.queue.len() implies admissible(
            #[trigger] next.state.queue[i],
            next.state.tasks.len(),
        ) by {
            assert(admissible(before.state.queue[i], before.state.tasks.len()));
        }
        assert forall|i: int| 0 <= i < rest.len() implies admissible(
            #[trigger] rest[i],
            next.state.tasks.len(),
        ) by {
            assert(rest[i] == actions[i + 1]);
            assert(admissible(actions[i + 1], before.state.tasks.len()));
        }
        assert forall|i: int| 0 <= i < next.continuations.len() implies admissible(
            #[trigger] next.continuations[i],
            next.state.tasks.len(),
        ) by {
            if i < before.continuations.len() {
                assert(admissible(before.continuations[i], before.state.tasks.len()));
            }
        }
        lemma_pass_bounded(next, capacity, rest);
    }
}

} // verus!
