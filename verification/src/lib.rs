//! Core of a small preemptive multitasking kernel for ARMv7-M
//! microcontrollers: the data structures and decision procedures of the
//! scheduler, the system-call pathway and the buffered console, each with a
//! machine-checked contract.
//!
//! The library decides; its caller acts. Nothing here touches a register, a
//! peripheral or memory at an address: where a decision needs such work
//! done, the function that makes it says so in what it returns, and where it
//! needs memory, it is handed a slice.
//!
//! - `fifo`, `ring_buffer`: bounded queues of bytes.
//! - `bios`: the console's transmit path.
//! - `task`: task control blocks and the stack that a new task starts on.
//! - `work_queue`: the deferred actions of the kernel and their queue.
//! - `scheduler`: the task list, the choice of the next task, and the pass
//!   over the deferred actions at each context switch.
//! - `fairness`: what the choice of the next task guarantees.
//! - `syscalls`: the supervisor calls, seen from the kernel and from a task.
//! - `write_call`: a write call followed from its start to its end.
//! - `dispatcher`: the context switch and the decoding of fault status.

pub mod bios;
pub mod dispatcher;
pub mod fairness;
pub mod fifo;
pub mod ring_buffer;
pub mod scheduler;
pub mod syscalls;
pub mod task;
pub mod work_queue;
pub mod write_call;
