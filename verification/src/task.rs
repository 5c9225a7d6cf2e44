//! Task control blocks and the synthesis of a new task's stack.
//!
//! A suspended task's stack holds, from its saved stack pointer upwards, the
//! callee-saved registers that the context switch stores (`r4` to `r11` and
//! the exception-return value), then the frame that the processor stacks on
//! exception entry (`r0` to `r3`, `r12`, the link register, the return
//! address and `xPSR`). A new task is given such a stack by hand, so that the
//! first switch to it is an ordinary return from an exception.

use vstd::prelude::*;

verus! {

/// Number of words that a suspended task keeps on its stack.
pub const FRAME_WORDS: usize = 17;

/// Size of those words in bytes.
pub const FRAME_BYTES: u32 = 68;

/// Thumb state bit of `xPSR`; the processor has no other instruction set.
pub const XPSR_THUMB: u32 = 0x0100_0000;

/// Bit of a stacked `xPSR` that says a word was skipped below the frame to
/// bring the stack to an eight-byte boundary.
pub const XPSR_STACK_ALIGN: u32 = 0x0000_0200;

/// Exception-return value for thread mode on the process stack without a
/// floating-point context.
pub const EXC_RETURN_THREAD_PSP: u32 = 0xFFFF_FFFD;

/// Link register that a new task starts with. It is no address that can be
/// run, so a task body that returns faults at once.
pub const INITIAL_LINK_REGISTER: u32 = 0xFFFF_FFFD;

/// Whether a word has to be skipped under a stack top at byte address `top`.
pub open spec fn stack_padded(top: int) -> bool {
    top % 8 != 0
}

/// The saved stack pointer of a new task whose stack ends at byte address
/// `top`.
pub open spec fn initial_sp(top: int) -> int {
    if stack_padded(top) {
        top - 4 - 4 * FRAME_WORDS
    } else {
        top - 4 * FRAME_WORDS
    }
}

/// The `xPSR` that a new task starts with.
pub open spec fn initial_xpsr(padded: bool) -> u32 {
    if padded {
        XPSR_THUMB | XPSR_STACK_ALIGN
    } else {
        XPSR_THUMB
    }
}

/// The words of a new task's stack, lowest address first. The registers
/// hold their own numbers, which shows in a debugger.
pub open spec fn frame_words(bootstrap: u32, padded: bool) -> Seq<u32> {
    seq![
        4u32,
        5u32,
        6u32,
        7u32,
        8u32,
        9u32,
        10u32,
        11u32,
        EXC_RETURN_THREAD_PSP,
        0u32,
        1u32,
        2u32,
        3u32,
        12u32,
        INITIAL_LINK_REGISTER,
        bootstrap | 1u32,
        initial_xpsr(padded),
    ]
}

/// A stack `before` whose words from index `at` on were replaced by `words`.
pub open spec fn overlay(before: Seq<u32>, at: int, words: Seq<u32>) -> Seq<u32> {
    before.subrange(0, at) + words + before.subrange(at + words.len(), before.len() as int)
}

/// The stacked `xPSR` of a new task has the Thumb bit set, its return
/// address has the low bit set, and its alignment bit is set exactly when a
/// word was skipped.
pub proof fn lemma_frame_bits(bootstrap: u32, padded: bool)
    ensures
        frame_words(bootstrap, padded).len() == FRAME_WORDS,
        frame_words(bootstrap, padded)[16] & XPSR_THUMB == XPSR_THUMB,
        frame_words(bootstrap, padded)[16] & XPSR_STACK_ALIGN == XPSR_STACK_ALIGN <==> padded,
        frame_words(bootstrap, padded)[15] & 1 == 1,
        frame_words(bootstrap, padded)[15] | 1 == bootstrap | 1,
{
    assert((0x0100_0000u32 | 0x0000_0200u32) & 0x0100_0000u32 == 0x0100_0000u32) by (bit_vector);
    assert(0x0100_0000u32 & 0x0100_0000u32 == 0x0100_0000u32) by (bit_vector);
    assert((0x0100_0000u32 | 0x0000_0200u32) & 0x0000_0200u32 == 0x0000_0200u32) by (bit_vector);
    assert(0x0100_0000u32 & 0x0000_0200u32 == 0u32) by (bit_vector);
    assert((bootstrap | 1u32) & 1u32 == 1u32) by (bit_vector);
    assert((bootstrap | 1u32) | 1u32 == bootstrap | 1u32) by (bit_vector);
}

/// The saved stack pointer of a new task whose stack ends at byte address
/// `top`: below the top, brought down to an eight-byte boundary, lie the
/// `FRAME_WORDS` words of the initial frame. `None` when `top` is no word
/// boundary.
pub fn initial_stack_pointer(top: u32) -> (sp: Option<u32>)
    requires
        top >= 4 * FRAME_WORDS + 4,
    ensures
        sp is None <==> top % 4 != 0,
        sp matches Some(p) ==> p == initial_sp(top as int),
{
    if top % 4 != 0 {
        None
    } else if top % 8 != 0 {
        Some(top - 4 - FRAME_BYTES)
    } else {
        Some(top - FRAME_BYTES)
    }
}

/// What has to be in memory before a new task can be switched to.
pub struct InitialFrame {
    /// Byte address of the lowest word, which is the task's saved stack
    /// pointer.
    pub saved_sp: u32,
    /// The words from that address upwards.
    pub words: [u32; 17],
}

/// The initial stack contents of a task whose stack ends at byte address
/// `top` and whose first instruction is at `bootstrap`. `None` when `top` is
/// no word boundary.
pub fn initial_frame(top: u32, bootstrap: u32) -> (frame: Option<InitialFrame>)
    requires
        top >= 4 * FRAME_WORDS + 4,
    ensures
        frame is None <==> top % 4 != 0,
        frame matches Some(f) ==> f.saved_sp == initial_sp(top as int) && f.words@ == frame_words(
            bootstrap,
            stack_padded(top as int),
        ),
{
    let saved_sp: u32 = match initial_stack_pointer(top) {
        Some(sp) => sp,
        None => {
            return None;
        },
    };
    let padded = top % 8 != 0;
    let xpsr: u32 = if padded {
        XPSR_THUMB | XPSR_STACK_ALIGN
    } else {
        XPSR_THUMB
    };
    let words: [u32; 17] = [
        4,
        5,
        6,
        7,
        8,
        9,
        10,
        11,
        EXC_RETURN_THREAD_PSP,
        0,
        1,
        2,
        3,
        12,
        INITIAL_LINK_REGISTER,
        bootstrap | 1,
        xpsr,
    ];
    assert(words@ =~= frame_words(bootstrap, padded));
    Some(InitialFrame { saved_sp, words })
}

/// The abstract value of a task control block.
pub struct TaskView {
    /// Byte address of the lowest word of the suspended task's stack.
    pub saved_sp: u32,
    /// Address of the task's body until the task first runs.
    pub handler: Option<u32>,
    /// The next task in the task list.
    pub next: Option<usize>,
    /// Whether the scheduler skips the task.
    pub blocked: bool,
}

/// Everything needed to start or continue a task.
pub struct Task {
    stack_pointer: u32,
    handler: Option<u32>,
    next: Option<usize>,
    is_blocked: bool,
}

impl View for Task {
    type V = TaskView;

    closed spec fn view(&self) -> TaskView {
        TaskView {
            saved_sp: self.stack_pointer,
            handler: self.handler,
            next: self.next,
            blocked: self.is_blocked,
        }
    }
}

impl Task {
    /// A task that runs `handler` when it is first switched to, on the stack
    /// `stack` that lies at byte address `stack_base`. The top of the stack
    /// is filled in so that a return from the context switch lands at
    /// `bootstrap`.
    pub fn new(stack: &mut [u32], stack_base: u32, bootstrap: u32, handler: u32) -> (task: Self)
        requires
            old(stack)@.len() > FRAME_WORDS,
            stack_base + 4 * old(stack)@.len() <= u32::MAX,
            stack_base % 4 == 0,
        ensures
            task@ == (TaskView {
                saved_sp: initial_sp(stack_base + 4 * old(stack)@.len()) as u32,
                handler: Some(handler),
                next: None,
                blocked: false,
            }),
            stack_padded(stack_base + 4 * old(stack)@.len()) ==> task@.saved_sp == stack_base + 4
                * (old(stack)@.len() - FRAME_WORDS - 1),
            !stack_padded(stack_base + 4 * old(stack)@.len()) ==> task@.saved_sp == stack_base + 4
                * (old(stack)@.len() - FRAME_WORDS),
            final(stack)@ == overlay(
                old(stack)@,
                (task@.saved_sp - stack_base) / 4,
                frame_words(bootstrap, stack_padded(stack_base + 4 * old(stack)@.len())),
            ),
    {
        let top = Self::initialize_stack(stack, stack_base, bootstrap);
        match top {
            Some(stack_pointer) => Self {
                stack_pointer,
                handler: Some(handler),
                next: None,
                is_blocked: false,
            },
            None => {
                proof {
                    assert(false);
                }
                Self::new_empty()
            },
        }
    }

    /// The idle task: nothing to call, and a stack pointer that the context
    /// switch writes before it is ever read.
    pub fn new_empty() -> (task: Self)
        ensures
            task@ == (TaskView { saved_sp: 0, handler: None, next: None, blocked: false }),
    {
        Self { stack_pointer: 0, handler: None, next: None, is_blocked: false }
    }

    /// A task that runs `handler` when it is first switched to, on a stack
    /// of `stack_size` words at byte address `stack` that `initialize_stack`
    /// has yet to fill in.
    pub fn on_stack(stack: u32, stack_size: usize, handler: u32) -> (task: Self)
        requires
            stack_size > FRAME_WORDS,
            stack + 4 * stack_size <= u32::MAX,
            stack % 4 == 0,
        ensures
            task@ == (TaskView {
                saved_sp: initial_sp(stack + 4 * stack_size) as u32,
                handler: Some(handler),
                next: None,
                blocked: false,
            }),
    {
        let top: u32 = stack + 4 * (stack_size as u32);
        match initial_stack_pointer(top) {
            Some(stack_pointer) => Self {
                stack_pointer,
                handler: Some(handler),
                next: None,
                is_blocked: false,
            },
            None => {
                proof {
                    assert(false);
                }
                Self::new_empty()
            },
        }
    }

    /// Sets the link to `next` and returns the link that was there.
    pub fn link_to(&mut self, next: Option<usize>) -> (previous: Option<usize>)
        ensures
            previous == old(self)@.next,
            final(self)@ == (TaskView { next, ..old(self)@ }),
    {
        let previous = self.next;
        self.next = next;
        previous
    }

    /// The next task in the task list.
    pub fn next(&self) -> (next: Option<usize>)
        ensures
            next == self@.next,
    {
        self.next
    }

    /// Sets the blocked flag and returns its old state.
    pub fn set_blocked(&mut self, value: bool) -> (previous: bool)
        ensures
            previous == old(self)@.blocked,
            final(self)@ == (TaskView { blocked: value, ..old(self)@ }),
    {
        let previous = self.is_blocked;
        self.is_blocked = value;
        previous
    }

    /// Whether the scheduler skips the task.
    pub fn is_blocked(&self) -> (blocked: bool)
        ensures
            blocked == self@.blocked,
    {
        self.is_blocked
    }

    /// The stack pointer that the task was suspended with.
    pub fn stack_pointer(&self) -> (sp: u32)
        ensures
            sp == self@.saved_sp,
    {
        self.stack_pointer
    }

    /// Records the stack pointer that the task is suspended with.
    pub fn save_stack_pointer(&mut self, sp: u32)
        ensures
            final(self)@ == (TaskView { saved_sp: sp, ..old(self)@ }),
    {
        self.stack_pointer = sp;
    }

    /// Hands out the task's body, which can be had once.
    pub fn take_handler(&mut self) -> (handler: Option<u32>)
        ensures
            handler == old(self)@.handler,
            final(self)@ == (TaskView { handler: None, ..old(self)@ }),
    {
        self.handler.take()
    }

    /// Fills in the top of `stack`, which lies at byte address `stack_base`,
    /// for a task that starts at `bootstrap`. Returns the task's saved stack
    /// pointer, or `None`, with the stack untouched, when the stack is not
    /// word aligned.
    pub fn initialize_stack(stack: &mut [u32], stack_base: u32, bootstrap: u32) -> (top: Option<
        u32,
    >)
        requires
            old(stack)@.len() > FRAME_WORDS,
            stack_base + 4 * old(stack)@.len() <= u32::MAX,
        ensures
            top is None <==> stack_base % 4 != 0,
            top is None ==> final(stack)@ == old(stack)@,
            top matches Some(sp) ==> {
                &&& sp == initial_sp(stack_base + 4 * old(stack)@.len())
                &&& stack_base <= sp
                &&& (sp - stack_base) % 4 == 0
                &&& final(stack)@ == overlay(
                    old(stack)@,
                    (sp - stack_base) / 4,
                    frame_words(bootstrap, stack_padded(stack_base + 4 * old(stack)@.len())),
                )
            },
    {
        let len: usize = stack.len();
        let top: u32 = stack_base + 4 * (len as u32);
        let frame = match initial_frame(top, bootstrap) {
            Some(frame) => frame,
            None => {
                return None;
            },
        };
        let start: usize = ((frame.saved_sp - stack_base) / 4) as usize;
        let mut i: usize = 0;
        while i < FRAME_WORDS
            invariant
                i <= FRAME_WORDS,
                start + FRAME_WORDS <= len,
                stack@.len() == len,
                frame.words@.len() == FRAME_WORDS,
                forall|j: int| 0 <= j < i ==> stack@[start + j] == frame.words@[j],
                forall|j: int|
                    0 <= j < len && !(start <= j < start + i) ==> stack@[j] == old(stack)@[j],
            decreases FRAME_WORDS - i,
        {
            stack[start + i] = frame.words[i];
            i += 1;
        }
        assert(stack@ =~= overlay(old(stack)@, start as int, frame.words@));
        Some(frame.saved_sp)
    }
}

} // verus!
