use tiny_kernel::bios::transmit_interrupt;
use tiny_kernel::bios::TxAction;
use tiny_kernel::dispatcher::kernel_task;
use tiny_kernel::fifo::FIFO;
use tiny_kernel::scheduler::{
    complete_tasks, enqueue_kernel_task, execute_task, find_runnable, insert_task, schedule_next,
    start, take_handler, KernelEffect, Scheduler, SYSTICK_HZ,
};
use tiny_kernel::task::Task;
use tiny_kernel::work_queue::{KernelTask, TaskRef, KERNEL_TASK_COUNT};

const BOOTSTRAP: u32 = 0x0800_0100;
const APP: u32 = 0x0800_0400;
const APP_STACK: u32 = 0x2000_0000;

fn boot() -> Scheduler {
    let mut stack = [0u32; 64];
    start(&mut stack, APP_STACK, BOOTSTRAP, APP)
}

/// A scheduler with `count` listed tasks, the boot work done and the task
/// inserted last as the current one.
fn running(count: usize) -> (Scheduler, FIFO<u8, 64>) {
    let mut scheduler = boot();
    let mut console: FIFO<u8, 64> = FIFO::new_with(0);
    for i in 1..count {
        let spawn = KernelTask::Spawn {
            f: APP + 0x100 * i as u32,
            stack: APP_STACK + 0x1000 * i as u32,
            stack_size: 64,
        };
        assert!(scheduler.admits(&spawn));
        assert!(enqueue_kernel_task(&mut scheduler, spawn).is_ok());
    }
    kernel_task(&mut scheduler, &mut console);
    (scheduler, console)
}

fn drain<const N: usize>(console: &mut FIFO<u8, N>) -> Vec<u8> {
    let mut sent = Vec::new();
    while let TxAction::Send(byte) = transmit_interrupt(console, true) {
        sent.push(byte);
    }
    sent
}

#[test]
fn timer_rate() {
    assert_eq!(SYSTICK_HZ, 1000);
    assert_eq!(KERNEL_TASK_COUNT, 16);
}

#[test]
fn start_builds_idle_and_application_task() {
    let mut stack = [0u32; 64];
    let mut scheduler = start(&mut stack, APP_STACK, BOOTSTRAP, APP);
    assert_eq!(scheduler.current_task(), TaskRef::Idle);
    assert_eq!(scheduler.task_count(), 1);
    let app = scheduler.task(TaskRef::Listed(0));
    assert_eq!(app.stack_pointer(), APP_STACK + 4 * (64 - 17));
    assert_eq!(app.next(), None);
    assert!(!app.is_blocked());
    let idle = scheduler.task(TaskRef::Idle);
    assert_eq!(idle.stack_pointer(), 0);
    assert_eq!(idle.next(), None);
    assert_eq!(stack[63], 0x0100_0000);
    assert_eq!(stack[62], BOOTSTRAP | 1);
    assert_eq!(stack[47], 4);
    assert_eq!(stack[46], 0);
    let mut console: FIFO<u8, 8> = FIFO::new_with(0);
    let effects = complete_tasks(&mut scheduler, &mut console);
    assert_eq!(effects, vec![KernelEffect::LowerThreadPrivileges]);
    assert_eq!(scheduler.current_task(), TaskRef::Idle);
    let effects = complete_tasks(&mut scheduler, &mut console);
    assert_eq!(effects, vec![]);
}

#[test]
fn first_switch_goes_to_the_application() {
    let mut scheduler = boot();
    let mut console: FIFO<u8, 8> = FIFO::new_with(0);
    let effects = kernel_task(&mut scheduler, &mut console);
    assert_eq!(effects, vec![KernelEffect::LowerThreadPrivileges]);
    assert_eq!(scheduler.current_task(), TaskRef::Listed(0));
    assert_eq!(take_handler(&mut scheduler), Some(APP));
    assert_eq!(take_handler(&mut scheduler), None);
}

#[test]
fn queue_takes_sixteen_actions() {
    let mut scheduler = boot();
    for _ in 0..15 {
        assert!(enqueue_kernel_task(&mut scheduler, KernelTask::Unblock(TaskRef::Idle)).is_ok());
    }
    match enqueue_kernel_task(&mut scheduler, KernelTask::Unblock(TaskRef::Listed(0))) {
        Err(KernelTask::Unblock(TaskRef::Listed(0))) => {}
        other => panic!("a full queue hands the action back, got {:?}", other),
    }
    let mut console: FIFO<u8, 8> = FIFO::new_with(0);
    assert_eq!(
        complete_tasks(&mut scheduler, &mut console),
        vec![KernelEffect::LowerThreadPrivileges]
    );
    for _ in 0..16 {
        assert!(
            enqueue_kernel_task(&mut scheduler, KernelTask::LowerThreadPrivileges).is_ok()
        );
    }
    assert!(enqueue_kernel_task(&mut scheduler, KernelTask::LowerThreadPrivileges).is_err());
    assert_eq!(
        complete_tasks(&mut scheduler, &mut console),
        vec![KernelEffect::LowerThreadPrivileges; 16]
    );
}

#[test]
fn actions_run_in_the_order_in_which_they_came() {
    let mut scheduler = boot();
    let mut console: FIFO<u8, 64> = FIFO::new_with(0);
    let writes: [&'static [u8]; 3] = [b"one ", b"two ", b"three"];
    for (i, data) in writes.iter().enumerate() {
        let write = KernelTask::WriteTx {
            args: 0x2000_0F00 + 8 * i as u32,
            total: data.len(),
            data,
            task: TaskRef::Listed(0),
        };
        assert!(enqueue_kernel_task(&mut scheduler, write).is_ok());
    }
    let effects = complete_tasks(&mut scheduler, &mut console);
    assert_eq!(
        effects,
        vec![
            KernelEffect::LowerThreadPrivileges,
            KernelEffect::PostResult { args: 0x2000_0F00, code: 0, value: 4 },
            KernelEffect::PostResult { args: 0x2000_0F08, code: 0, value: 4 },
            KernelEffect::PostResult { args: 0x2000_0F10, code: 0, value: 5 },
        ]
    );
    assert_eq!(drain(&mut console), b"one two three".to_vec());
}

#[test]
fn continuations_wait_for_the_next_pass() {
    let mut scheduler = boot();
    let mut console: FIFO<u8, 64> = FIFO::new_with(0);
    let write = KernelTask::WriteTx {
        args: 0x2000_0F00,
        total: 2,
        data: b"ok",
        task: TaskRef::Listed(0),
    };
    assert!(enqueue_kernel_task(&mut scheduler, write).is_ok());
    complete_tasks(&mut scheduler, &mut console);
    assert!(scheduler.task(TaskRef::Listed(0)).is_blocked());
    assert_eq!(complete_tasks(&mut scheduler, &mut console), vec![]);
    assert!(!scheduler.task(TaskRef::Listed(0)).is_blocked());
    assert_eq!(complete_tasks(&mut scheduler, &mut console), vec![]);
}

#[test]
fn execute_lower_privileges() {
    let mut scheduler = boot();
    let mut console: FIFO<u8, 8> = FIFO::new_with(0);
    let done = execute_task(&mut scheduler, &mut console, KernelTask::LowerThreadPrivileges);
    assert!(done.continuation.is_none());
    assert_eq!(done.effect, Some(KernelEffect::LowerThreadPrivileges));
    assert_eq!(scheduler.task_count(), 1);
    assert!(console.is_empty());
}

#[test]
fn execute_write_that_fits() {
    let mut scheduler = boot();
    let mut console: FIFO<u8, 8> = FIFO::new_with(0);
    let write = KernelTask::WriteTx {
        args: 0x2000_0FE0,
        total: 5,
        data: b"hello",
        task: TaskRef::Listed(0),
    };
    let done = execute_task(&mut scheduler, &mut console, write);
    match done.continuation {
        Some(KernelTask::Unblock(TaskRef::Listed(0))) => {}
        other => panic!("expected the caller to be unblocked next, got {:?}", other),
    }
    assert_eq!(
        done.effect,
        Some(KernelEffect::PostResult { args: 0x2000_0FE0, code: 0, value: 5 })
    );
    assert!(scheduler.task(TaskRef::Listed(0)).is_blocked());
    assert_eq!(drain(&mut console), b"hello".to_vec());
}

#[test]
fn execute_write_that_fills_the_buffer_exactly() {
    let mut scheduler = boot();
    let mut console: FIFO<u8, 8> = FIFO::new_with(0);
    let write = KernelTask::WriteTx {
        args: 0x2000_0FE0,
        total: 8,
        data: b"12345678",
        task: TaskRef::Listed(0),
    };
    let done = execute_task(&mut scheduler, &mut console, write);
    assert!(matches!(done.continuation, Some(KernelTask::Unblock(TaskRef::Listed(0)))));
    assert_eq!(
        done.effect,
        Some(KernelEffect::PostResult { args: 0x2000_0FE0, code: 0, value: 8 })
    );
    assert!(console.is_full());
}

#[test]
fn execute_write_that_does_not_fit() {
    let mut scheduler = boot();
    let mut console: FIFO<u8, 8> = FIFO::new_with(0);
    assert_eq!(console.append(b"abc"), Ok(3));
    let write = KernelTask::WriteTx {
        args: 0x2000_0FE0,
        total: 30,
        data: b"0123456789",
        task: TaskRef::Listed(0),
    };
    let done = execute_task(&mut scheduler, &mut console, write);
    assert_eq!(done.effect, None);
    match done.continuation {
        Some(KernelTask::WriteTx { args, total, data, task }) => {
            assert_eq!(args, 0x2000_0FE0);
            assert_eq!(total, 30);
            assert_eq!(data, b"56789");
            assert_eq!(task, TaskRef::Listed(0));
        }
        other => panic!("expected the rest of the write, got {:?}", other),
    }
    assert!(scheduler.task(TaskRef::Listed(0)).is_blocked());
    assert_eq!(drain(&mut console), b"abc01234".to_vec());
}

#[test]
fn execute_write_of_nothing() {
    let mut scheduler = boot();
    let mut console: FIFO<u8, 0> = FIFO::new_with(0);
    let write = KernelTask::WriteTx { args: 16, total: 0, data: b"", task: TaskRef::Idle };
    let done = execute_task(&mut scheduler, &mut console, write);
    assert!(matches!(done.continuation, Some(KernelTask::Unblock(TaskRef::Idle))));
    assert_eq!(done.effect, Some(KernelEffect::PostResult { args: 16, code: 0, value: 0 }));
    assert!(scheduler.task(TaskRef::Idle).is_blocked());
}

#[test]
fn execute_spawn_inserts_at_the_head() {
    let mut scheduler = boot();
    let mut console: FIFO<u8, 8> = FIFO::new_with(0);
    let spawn = KernelTask::Spawn { f: 0x0800_0800, stack: 0x2000_1004, stack_size: 128 };
    assert!(scheduler.admits(&spawn));
    let done = execute_task(&mut scheduler, &mut console, spawn);
    assert!(done.continuation.is_none());
    assert_eq!(
        done.effect,
        Some(KernelEffect::InitializeStack { stack: 0x2000_1004, stack_size: 128 })
    );
    assert_eq!(scheduler.task_count(), 2);
    let task = scheduler.task(TaskRef::Listed(1));
    assert_eq!(task.stack_pointer(), 0x2000_1004 + 4 * (128 - 18));
    assert_eq!(task.next(), Some(0));
    assert!(!task.is_blocked());
    assert_eq!(find_runnable(&scheduler, Some(1)), Some(1));
    let mut stack = [0u32; 128];
    assert_eq!(
        Task::initialize_stack(&mut stack, 0x2000_1004, BOOTSTRAP),
        Some(task.stack_pointer())
    );
}

#[test]
fn execute_unblock_clears_the_flag() {
    let mut scheduler = boot();
    let mut console: FIFO<u8, 8> = FIFO::new_with(0);
    assert!(!scheduler.set_blocked(TaskRef::Listed(0), true));
    let done = execute_task(&mut scheduler, &mut console, KernelTask::Unblock(TaskRef::Listed(0)));
    assert!(done.continuation.is_none());
    assert_eq!(done.effect, None);
    assert!(!scheduler.task(TaskRef::Listed(0)).is_blocked());
}

#[test]
fn admits_says_what_can_be_queued() {
    let scheduler = boot();
    assert!(scheduler.admits(&KernelTask::LowerThreadPrivileges));
    assert!(scheduler.admits(&KernelTask::Unblock(TaskRef::Idle)));
    assert!(scheduler.admits(&KernelTask::Unblock(TaskRef::Listed(0))));
    assert!(!scheduler.admits(&KernelTask::Unblock(TaskRef::Listed(1))));
    assert!(scheduler.names(TaskRef::Listed(0)));
    assert!(!scheduler.names(TaskRef::Listed(7)));
    assert!(scheduler.admits(&KernelTask::Spawn { f: 1, stack: 0x2000_0000, stack_size: 18 }));
    assert!(!scheduler.admits(&KernelTask::Spawn { f: 1, stack: 0x2000_0000, stack_size: 17 }));
    assert!(!scheduler.admits(&KernelTask::Spawn { f: 1, stack: 0x2000_0002, stack_size: 64 }));
    assert!(!scheduler.admits(&KernelTask::Spawn { f: 1, stack: 0xFFFF_FF00, stack_size: 64 }));
    assert!(scheduler.admits(&KernelTask::Spawn { f: 1, stack: 0xFFFF_FE00, stack_size: 127 }));
    assert!(!scheduler.admits(&KernelTask::WriteTx {
        args: 0,
        total: 1,
        data: b"x",
        task: TaskRef::Listed(3),
    }));
}

#[test]
fn list_is_walked_from_the_task_inserted_last() {
    let (mut scheduler, _console) = running(3);
    assert_eq!(scheduler.task_count(), 3);
    assert_eq!(scheduler.task(TaskRef::Listed(2)).next(), Some(1));
    assert_eq!(scheduler.task(TaskRef::Listed(1)).next(), Some(0));
    assert_eq!(scheduler.task(TaskRef::Listed(0)).next(), None);
    assert_eq!(find_runnable(&scheduler, Some(2)), Some(2));
    scheduler.set_blocked(TaskRef::Listed(2), true);
    assert_eq!(find_runnable(&scheduler, Some(2)), Some(1));
    scheduler.set_blocked(TaskRef::Listed(1), true);
    assert_eq!(find_runnable(&scheduler, Some(2)), Some(0));
    assert_eq!(find_runnable(&scheduler, Some(0)), Some(0));
    scheduler.set_blocked(TaskRef::Listed(0), true);
    assert_eq!(find_runnable(&scheduler, Some(2)), None);
    assert_eq!(find_runnable(&scheduler, None), None);
}

#[test]
fn round_robin_over_three_tasks() {
    let (mut scheduler, _console) = running(3);
    assert_eq!(scheduler.current_task(), TaskRef::Listed(2));
    let mut order = Vec::new();
    for _ in 0..7 {
        schedule_next(&mut scheduler);
        order.push(scheduler.current_task());
    }
    assert_eq!(
        order,
        vec![
            TaskRef::Listed(1),
            TaskRef::Listed(0),
            TaskRef::Listed(2),
            TaskRef::Listed(1),
            TaskRef::Listed(0),
            TaskRef::Listed(2),
            TaskRef::Listed(1),
        ]
    );
}

#[test]
fn blocked_tasks_are_skipped() {
    let (mut scheduler, _console) = running(4);
    scheduler.set_blocked(TaskRef::Listed(2), true);
    scheduler.set_blocked(TaskRef::Listed(0), true);
    let mut order = Vec::new();
    for _ in 0..5 {
        schedule_next(&mut scheduler);
        order.push(scheduler.current_task());
    }
    assert_eq!(
        order,
        vec![
            TaskRef::Listed(1),
            TaskRef::Listed(3),
            TaskRef::Listed(1),
            TaskRef::Listed(3),
            TaskRef::Listed(1),
        ]
    );
}

#[test]
fn every_runnable_task_runs_within_one_round() {
    for blocked_mask in 0..32u32 {
        for start_at in 0..6usize {
            let (mut scheduler, _console) = running(5);
            let mut runnable = Vec::new();
            for i in 0..5usize {
                if blocked_mask & (1 << i) != 0 {
                    scheduler.set_blocked(TaskRef::Listed(i), true);
                } else {
                    runnable.push(TaskRef::Listed(i));
                }
            }
            for _ in 0..start_at {
                schedule_next(&mut scheduler);
            }
            let mut seen = Vec::new();
            for _ in 0..runnable.len() {
                schedule_next(&mut scheduler);
                seen.push(scheduler.current_task());
            }
            for task in &runnable {
                assert!(seen.contains(task), "{:?} did not run, mask {}", task, blocked_mask);
            }
            if runnable.is_empty() {
                schedule_next(&mut scheduler);
                assert_eq!(scheduler.current_task(), TaskRef::Idle);
            } else {
                assert!(!seen.contains(&TaskRef::Idle));
            }
        }
    }
}

#[test]
fn idle_runs_only_when_all_are_blocked() {
    let (mut scheduler, _console) = running(2);
    scheduler.set_blocked(TaskRef::Listed(0), true);
    scheduler.set_blocked(TaskRef::Listed(1), true);
    schedule_next(&mut scheduler);
    assert_eq!(scheduler.current_task(), TaskRef::Idle);
    schedule_next(&mut scheduler);
    assert_eq!(scheduler.current_task(), TaskRef::Idle);
    scheduler.set_blocked(TaskRef::Listed(0), false);
    schedule_next(&mut scheduler);
    assert_eq!(scheduler.current_task(), TaskRef::Listed(0));
    schedule_next(&mut scheduler);
    assert_eq!(scheduler.current_task(), TaskRef::Listed(0));
}

#[test]
fn a_blocked_idle_task_still_runs_when_nothing_else_can() {
    let (mut scheduler, _console) = running(1);
    scheduler.set_blocked(TaskRef::Idle, true);
    scheduler.set_blocked(TaskRef::Listed(0), true);
    schedule_next(&mut scheduler);
    assert_eq!(scheduler.current_task(), TaskRef::Idle);
}

#[test]
fn two_tasks_take_turns() {
    let (mut scheduler, _console) = running(2);
    let mut turns = [0usize; 2];
    for _ in 0..1000 {
        schedule_next(&mut scheduler);
        match scheduler.current_task() {
            TaskRef::Listed(i) => turns[i] += 1,
            TaskRef::Idle => panic!("the idle task ran while tasks were runnable"),
        }
    }
    assert_eq!(turns, [500, 500]);
}

#[test]
fn insert_task_links_to_the_old_head() {
    let mut scheduler = boot();
    insert_task(&mut scheduler, Task::on_stack(0x2000_2000, 32, 77));
    insert_task(&mut scheduler, Task::new_empty());
    assert_eq!(scheduler.task_count(), 3);
    assert_eq!(scheduler.task(TaskRef::Listed(1)).next(), Some(0));
    assert_eq!(scheduler.task(TaskRef::Listed(2)).next(), Some(1));
    assert_eq!(scheduler.task(TaskRef::Listed(1)).stack_pointer(), 0x2000_2000 + 4 * 15);
    schedule_next(&mut scheduler);
    assert_eq!(scheduler.current_task(), TaskRef::Listed(2));
}

#[test]
fn stack_pointer_is_kept_for_the_current_task() {
    let (mut scheduler, _console) = running(2);
    assert_eq!(scheduler.current_task(), TaskRef::Listed(1));
    scheduler.save_stack_pointer(0x2000_1F80);
    assert_eq!(scheduler.task(TaskRef::Listed(1)).stack_pointer(), 0x2000_1F80);
    assert_eq!(scheduler.task(TaskRef::Listed(0)).stack_pointer(), APP_STACK + 4 * 47);
}
