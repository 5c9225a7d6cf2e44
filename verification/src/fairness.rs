//! What the choice of the next task guarantees: the idle task runs only
//! when nothing else can, and no runnable task waits longer than one round.

use crate::scheduler::{first_runnable, names_task, next_task, position};
use crate::task::TaskView;
use crate::work_queue::TaskRef;
use vstd::prelude::*;

verus! {

/// Number of tasks at positions `lo` up to, but not including, `hi` that
/// are not blocked.
pub open spec fn runnable_between(tasks: Seq<TaskView>, lo: int, hi: int) -> nat
    decreases hi - lo,
{
    if hi <= lo {
        0
    } else {
        runnable_between(tasks, lo, hi - 1) + if 0 <= hi - 1 < tasks.len() && !tasks[hi
            - 1].blocked {
            1nat
        } else {
            0nat
        }
    }
}

/// Number of listed tasks that are not blocked.
pub open spec fn runnable_count(tasks: Seq<TaskView>) -> nat {
    runnable_between(tasks, 0, tasks.len() as int)
}

/// The current task after `ticks` choices of the next task, made while no
/// task is blocked, unblocked or inserted.
pub open spec fn after_ticks(tasks: Seq<TaskView>, current: TaskRef, ticks: nat) -> TaskRef
    decreases ticks,
{
    if ticks == 0 {
        current
    } else {
        after_ticks(tasks, next_task(tasks, current), (ticks - 1) as nat)
    }
}

/// Number of runnable tasks that are chosen before the task at position
/// `target` when the current task is at position `from`.
pub open spec fn turns_ahead(tasks: Seq<TaskView>, from: int, target: int) -> nat {
    if target < from {
        runnable_between(tasks, target + 1, from)
    } else {
        runnable_between(tasks, 0, from) + runnable_between(tasks, target + 1, tasks.len() as int)
    }
}

proof fn lemma_split(tasks: Seq<TaskView>, lo: int, mid: int, hi: int)
    requires
        lo <= mid <= hi,
    ensures
        runnable_between(tasks, lo, hi) == runnable_between(tasks, lo, mid) + runnable_between(
            tasks,
            mid,
            hi,
        ),
    decreases hi - mid,
{
    if mid < hi {
        lemma_split(tasks, lo, mid, hi - 1);
    }
}

proof fn lemma_one(tasks: Seq<TaskView>, at: int)
    requires
        0 <= at < tasks.len(),
    ensures
        runnable_between(tasks, at, at + 1) == if tasks[at].blocked {
            0nat
        } else {
            1nat
        },
{
    assert(runnable_between(tasks, at, at) == 0);
}

proof fn lemma_none_runnable(tasks: Seq<TaskView>, lo: int, hi: int, at: int)
    requires
        runnable_between(tasks, lo, hi) == 0,
        lo <= at < hi,
        0 <= at < tasks.len(),
    ensures
        tasks[at].blocked,
    decreases hi - lo,
{
    if at < hi - 1 {
        lemma_none_runnable(tasks, lo, hi - 1, at);
    }
}

proof fn lemma_all_blocked(tasks: Seq<TaskView>, lo: int, hi: int)
    requires
        forall|i: int| lo <= i < hi && 0 <= i < tasks.len() ==> tasks[i].blocked,
    ensures
        runnable_between(tasks, lo, hi) == 0,
    decreases hi - lo,
{
    if lo < hi {
        lemma_all_blocked(tasks, lo, hi - 1);
    }
}

/// The search finds the task nearest below its start that is not blocked.
proof fn lemma_first_runnable(tasks: Seq<TaskView>, from: int)
    requires
        -1 <= from < tasks.len() <= usize::MAX,
    ensures
        first_runnable(tasks, from) is None ==> runnable_between(tasks, 0, from + 1) == 0,
        first_runnable(tasks, from) matches Some(found) ==> 0 <= found <= from
            && !tasks[found as int].blocked && runnable_between(tasks, found + 1, from + 1) == 0,
    decreases from + 1,
{
    if from >= 0 {
        if tasks[from].blocked {
            lemma_first_runnable(tasks, from - 1);
        }
    }
}

/// One choice of the next task either reaches `target` or leaves one
/// runnable task fewer ahead of it.
proof fn lemma_step(tasks: Seq<TaskView>, current: TaskRef, target: int)
    requires
        tasks.len() <= usize::MAX,
        names_task(current, tasks.len()),
        0 <= target < tasks.len(),
        !tasks[target].blocked,
    ensures
        next_task(tasks, current) matches TaskRef::Listed(chosen) && chosen < tasks.len() && (
        if turns_ahead(tasks, position(current), target) == 0 {
            chosen == target
        } else {
            turns_ahead(tasks, chosen as int, target) + 1 == turns_ahead(
                tasks,
                position(current),
                target,
            )
        }),
{
    let from = position(current);
    let len = tasks.len() as int;
    lemma_first_runnable(tasks, from - 1);
    lemma_first_runnable(tasks, len - 1);
    match first_runnable(tasks, from - 1) {
        Some(found) => {
            let q = found as int;
            lemma_one(tasks, q);
            if target < from {
                if q < target {
                    lemma_none_runnable(tasks, q + 1, from, target);
                }
                if target < q {
                    lemma_split(tasks, target + 1, q, from);
                    lemma_split(tasks, q, q + 1, from);
                }
            } else {
                lemma_split(tasks, 0, q, from);
                lemma_split(tasks, q, q + 1, from);
            }
        },
        None => {
            if target < from {
                lemma_none_runnable(tasks, 0, from, target);
            }
            match first_runnable(tasks, len - 1) {
                Some(found) => {
                    let q = found as int;
                    lemma_one(tasks, q);
                    if q < target {
                        lemma_none_runnable(tasks, q + 1, len, target);
                    }
                    if target < q {
                        lemma_split(tasks, target + 1, q, len);
                        lemma_split(tasks, q, q + 1, len);
                        if q < from {
                            lemma_none_runnable(tasks, 0, from, q);
                        }
                    }
                },
                None => {
                    lemma_none_runnable(tasks, 0, len, target);
                },
            }
        },
    }
}

/// Fewer runnable tasks are ahead of a runnable task than there are
/// runnable tasks.
proof fn lemma_turns_bounded(tasks: Seq<TaskView>, from: int, target: int)
    requires
        0 <= from <= tasks.len(),
        0 <= target < tasks.len(),
        !tasks[target].blocked,
    ensures
        turns_ahead(tasks, from, target) < runnable_count(tasks),
{
    let len = tasks.len() as int;
    lemma_one(tasks, target);
    if target < from {
        lemma_split(tasks, 0, target, len);
        lemma_split(tasks, target, target + 1, len);
        lemma_split(tasks, target + 1, from, len);
    } else {
        lemma_split(tasks, 0, from, len);
        lemma_split(tasks, from, target, len);
        lemma_split(tasks, target, target + 1, len);
    }
}

proof fn lemma_reaches(tasks: Seq<TaskView>, current: TaskRef, target: int)
    requires
        tasks.len() <= usize::MAX,
        names_task(current, tasks.len()),
        0 <= target < tasks.len(),
        !tasks[target].blocked,
    ensures
        after_ticks(tasks, current, turns_ahead(tasks, position(current), target) + 1)
            == TaskRef::Listed(target as usize),
    decreases turns_ahead(tasks, position(current), target),
{
    lemma_step(tasks, current, target);
    let next = next_task(tasks, current);
    let ahead = turns_ahead(tasks, position(current), target);
    if ahead == 0 {
        assert(after_ticks(tasks, next, 0) == next);
    } else {
        lemma_reaches(tasks, next, target);
    }
}

/// Fairness: while the set of runnable tasks stays as it is, a task that is
/// not blocked becomes the current task within as many choices of the next
/// task as there are runnable tasks, wherever the round starts.
pub proof fn lemma_fair(tasks: Seq<TaskView>, current: TaskRef, target: usize)
    requires
        tasks.len() <= usize::MAX,
        names_task(current, tasks.len()),
        target < tasks.len(),
        !tasks[target as int].blocked,
    ensures
        exists|ticks: nat|
            1 <= ticks <= runnable_count(tasks) && #[trigger] after_ticks(tasks, current, ticks)
                == TaskRef::Listed(target),
{
    let ticks = turns_ahead(tasks, position(current), target as int) + 1;
    lemma_reaches(tasks, current, target as int);
    lemma_turns_bounded(tasks, position(current), target as int);
    assert(after_ticks(tasks, current, ticks) == TaskRef::Listed(target));
}

/// Liveness: the idle task is chosen exactly when every listed task is
/// blocked, and a listed task that is chosen exists and is not blocked.
pub proof fn lemma_idle_iff_all_blocked(tasks: Seq<TaskView>, current: TaskRef)
    requires
        tasks.len() <= usize::MAX,
        names_task(current, tasks.len()),
    ensures
        next_task(tasks, current) == TaskRef::Idle <==> forall|i: int|
            0 <= i < tasks.len() ==> (#[trigger] tasks[i]).blocked,
        next_task(tasks, current) matches TaskRef::Listed(chosen) ==> chosen < tasks.len()
            && !tasks[chosen as int].blocked,
{
    let from = position(current);
    let len = tasks.len() as int;
    lemma_first_runnable(tasks, from - 1);
    lemma_first_runnable(tasks, len - 1);
    if next_task(tasks, current) == TaskRef::Idle {
        assert forall|i: int| 0 <= i < tasks.len() implies (#[trigger] tasks[i]).blocked by {
            lemma_none_runnable(tasks, 0, len, i);
        }
    }
}

} // verus!
