use tiny_kernel::task::{
    initial_frame, initial_stack_pointer, Task, EXC_RETURN_THREAD_PSP, FRAME_WORDS,
    INITIAL_LINK_REGISTER, XPSR_STACK_ALIGN, XPSR_THUMB,
};

const BOOTSTRAP: u32 = 0x0800_0100;

fn expected_frame(xpsr: u32) -> Vec<u32> {
    vec![
        4, 5, 6, 7, 8, 9, 10, 11, 0xFFFF_FFFD, 0, 1, 2, 3, 12, 0xFFFF_FFFD, 0x0800_0101, xpsr,
    ]
}

#[test]
fn frame_constants() {
    assert_eq!(FRAME_WORDS, 17);
    assert_eq!(XPSR_THUMB, 1 << 24);
    assert_eq!(XPSR_STACK_ALIGN, 1 << 9);
    assert_eq!(EXC_RETURN_THREAD_PSP, 0xFFFF_FFFD);
    assert_eq!(INITIAL_LINK_REGISTER, 0xFFFF_FFFD);
}

#[test]
fn new_task_on_aligned_stack() {
    let mut stack = [0xAAAA_AAAAu32; 32];
    let base = 0x2000_0000u32;
    let task = Task::new(&mut stack, base, BOOTSTRAP, 0x0800_2000);
    assert_eq!(task.stack_pointer(), base + 4 * (32 - 17));
    assert_eq!(task.stack_pointer(), 0x2000_003C);
    assert!(!task.is_blocked());
    assert_eq!(task.next(), None);
    assert!(stack[..15].iter().all(|word| *word == 0xAAAA_AAAA));
    assert_eq!(stack[15..].to_vec(), expected_frame(0x0100_0000));
    assert_eq!(stack[31] & XPSR_THUMB, XPSR_THUMB);
    assert_eq!(stack[31] & XPSR_STACK_ALIGN, 0);
    assert_eq!(stack[30] & 1, 1);
}

#[test]
fn new_task_on_stack_that_ends_between_boundaries() {
    let mut stack = [0xAAAA_AAAAu32; 32];
    let base = 0x2000_0004u32;
    let task = Task::new(&mut stack, base, BOOTSTRAP, 0x0800_2000);
    assert_eq!(task.stack_pointer(), base + 4 * (32 - 18));
    assert_eq!(task.stack_pointer(), 0x2000_003C);
    assert_eq!(task.stack_pointer() % 8, 4);
    assert!(stack[..14].iter().all(|word| *word == 0xAAAA_AAAA));
    assert_eq!(stack[14..31].to_vec(), expected_frame(0x0100_0200));
    assert_eq!(stack[31], 0xAAAA_AAAA);
    assert_eq!(stack[30] & XPSR_THUMB, XPSR_THUMB);
    assert_eq!(stack[30] & XPSR_STACK_ALIGN, XPSR_STACK_ALIGN);
    assert_eq!(stack[29] & 1, 1);
}

#[test]
fn smallest_stack() {
    let mut stack = [0u32; 18];
    let task = Task::new(&mut stack, 0x1000, BOOTSTRAP, 1);
    assert_eq!(task.stack_pointer(), 0x1000 + 4);
    assert_eq!(stack[0], 0);
    assert_eq!(stack[1..].to_vec(), expected_frame(0x0100_0000));
}

#[test]
fn misaligned_stack_is_rejected() {
    let mut stack = [0x5555_5555u32; 32];
    assert_eq!(Task::initialize_stack(&mut stack, 0x2000_0002, BOOTSTRAP), None);
    assert!(stack.iter().all(|word| *word == 0x5555_5555));
    assert_eq!(Task::initialize_stack(&mut stack, 0x2000_0001, BOOTSTRAP), None);
    assert_eq!(Task::initialize_stack(&mut stack, 0x2000_0003, BOOTSTRAP), None);
    assert!(stack.iter().all(|word| *word == 0x5555_5555));
}

#[test]
fn initialize_stack_returns_the_saved_stack_pointer() {
    let mut stack = [0u32; 64];
    assert_eq!(Task::initialize_stack(&mut stack, 0x2000_0100, BOOTSTRAP), Some(0x2000_01BC));
    assert_eq!(stack[47..].to_vec(), expected_frame(0x0100_0000));
    let mut stack = [0u32; 64];
    assert_eq!(Task::initialize_stack(&mut stack, 0x2000_0104, BOOTSTRAP), Some(0x2000_01BC));
    assert_eq!(stack[46..63].to_vec(), expected_frame(0x0100_0200));
}

#[test]
fn initial_stack_pointer_by_alignment() {
    assert_eq!(initial_stack_pointer(0x2000_0080), Some(0x2000_0080 - 68));
    assert_eq!(initial_stack_pointer(0x2000_0084), Some(0x2000_0084 - 72));
    assert_eq!(initial_stack_pointer(0x2000_0082), None);
    assert_eq!(initial_stack_pointer(72), Some(4));
    assert_eq!(initial_stack_pointer(76), Some(4));
}

#[test]
fn initial_frame_words() {
    let frame = initial_frame(0x2000_0080, 0x0800_0100).unwrap();
    assert_eq!(frame.saved_sp, 0x2000_003C);
    assert_eq!(frame.words.to_vec(), expected_frame(0x0100_0000));
    let frame = initial_frame(0x2000_0084, 0x0800_0101).unwrap();
    assert_eq!(frame.saved_sp, 0x2000_003C);
    assert_eq!(frame.words.to_vec(), expected_frame(0x0100_0200));
    assert!(initial_frame(0x2000_0081, 0x0800_0100).is_none());
}

#[test]
fn task_on_stack_matches_task_new() {
    let mut stack = [0u32; 40];
    let built = Task::new(&mut stack, 0x2000_0004, BOOTSTRAP, 9);
    let mut planned = Task::on_stack(0x2000_0004, 40, 9);
    assert_eq!(built.stack_pointer(), planned.stack_pointer());
    assert_eq!(planned.take_handler(), Some(9));
}

#[test]
fn idle_task_has_nothing_to_run() {
    let mut idle = Task::new_empty();
    assert_eq!(idle.stack_pointer(), 0);
    assert_eq!(idle.next(), None);
    assert!(!idle.is_blocked());
    assert_eq!(idle.take_handler(), None);
}

#[test]
fn handler_is_handed_out_once() {
    let mut stack = [0u32; 32];
    let mut task = Task::new(&mut stack, 0x2000_0000, BOOTSTRAP, 0x0800_2000);
    assert_eq!(task.take_handler(), Some(0x0800_2000));
    assert_eq!(task.take_handler(), None);
    assert_eq!(task.stack_pointer(), 0x2000_003C);
}

#[test]
fn link_and_block_return_the_old_state() {
    let mut task = Task::new_empty();
    assert_eq!(task.link_to(Some(3)), None);
    assert_eq!(task.next(), Some(3));
    assert_eq!(task.link_to(None), Some(3));
    assert_eq!(task.next(), None);
    assert!(!task.set_blocked(true));
    assert!(task.is_blocked());
    assert!(task.set_blocked(true));
    assert!(task.set_blocked(false));
    assert!(!task.is_blocked());
    task.save_stack_pointer(0x2000_0F00);
    assert_eq!(task.stack_pointer(), 0x2000_0F00);
}
