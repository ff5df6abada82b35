use blog_os::gdt::{double_fault_stack_end, DOUBLE_FAULT_IST_INDEX, STACK_SIZE};
use blog_os::interrupts::{
    breakpoint_handler, double_fault_handler, init_idt, keyboard_interrupt_handler,
    notify_end_of_interrupt, page_fault_handler, scancode_warning, timer_interrupt_handler,
    EndOfInterrupt, Handler, IdtEntry, InterruptIndex, Resumption, KEYBOARD_DATA_PORT,
    PIC_1_OFFSET, PIC_2_OFFSET,
};
use blog_os::task::executor::TaskWaker;
use blog_os::task::keyboard::{ScancodeOutcome, ScancodeQueue, ScancodeStream};
use blog_os::task::{Poll, TaskId};
use blog_os::{exit_qemu, test_runner, PortWrite, QemuExitCode, Testable, QEMU_EXIT_PORT};
use std::cell::Cell;

#[test]
fn pics_are_remapped_behind_the_exceptions() {
    assert_eq!(PIC_1_OFFSET, 32);
    assert_eq!(PIC_2_OFFSET, 40);
    assert_eq!(KEYBOARD_DATA_PORT, 0x60);
}

#[test]
fn interrupt_index_numbers() {
    assert_eq!(InterruptIndex::Timer.as_u8(), 32);
    assert_eq!(InterruptIndex::Keyboard.as_u8(), 33);
    assert_eq!(InterruptIndex::Timer.as_usize(), 32);
    assert_eq!(InterruptIndex::Keyboard.as_usize(), 33);
}

#[test]
fn idt_holds_the_five_handlers() {
    let idt = init_idt();
    assert_eq!(idt.len(), 256);
    let plain = |handler| Some(IdtEntry { handler, stack_index: None });
    assert_eq!(idt[3], plain(Handler::Breakpoint));
    assert_eq!(idt[8], Some(IdtEntry { handler: Handler::DoubleFault, stack_index: Some(0) }));
    assert_eq!(idt[14], plain(Handler::PageFault));
    assert_eq!(idt[32], plain(Handler::Timer));
    assert_eq!(idt[33], plain(Handler::Keyboard));
    let used = [3usize, 8, 14, 32, 33];
    for vector in 0..256 {
        if !used.contains(&vector) {
            assert_eq!(idt[vector], None);
        }
    }
}

#[test]
fn breakpoint_trap() {
    let response = breakpoint_handler();
    assert_eq!(response.message, "EXCEPTION: BREAKPOINT");
    assert_eq!(response.resumption, Resumption::Return);
}

#[test]
fn stack_overflow() {
    // the double fault runs on its own stack, and does not return
    let idt = init_idt();
    let entry = idt[8].unwrap();
    assert_eq!(entry.handler, Handler::DoubleFault);
    assert_eq!(entry.stack_index, Some(DOUBLE_FAULT_IST_INDEX));
    assert_eq!(DOUBLE_FAULT_IST_INDEX, 0);
    assert!(STACK_SIZE >= 20 * 1024);
    assert_eq!(double_fault_stack_end(0x20_0000), 0x20_0000 + 4096 * 5);
    let response = double_fault_handler();
    assert_eq!(response.message, "EXCEPTION: DOUBLE FAULT");
    assert_eq!(response.resumption, Resumption::Panic);
    // the test run ends with success from its own double-fault handler
    assert_eq!(exit_qemu(QemuExitCode::Success).value, 0x10);
}

#[test]
fn page_fault_halts() {
    let response = page_fault_handler();
    assert_eq!(response.message, "EXCEPTION: PAGE FAULT");
    assert_eq!(response.resumption, Resumption::HaltLoop);
}

#[test]
fn end_of_interrupt_goes_to_the_pic_that_raised_it() {
    for vector in 0..=255u8 {
        let signal = notify_end_of_interrupt(vector);
        assert_eq!(signal.master, (32..48).contains(&vector));
        assert_eq!(signal.slave, (40..48).contains(&vector));
    }
    assert_eq!(notify_end_of_interrupt(32), EndOfInterrupt { master: true, slave: false });
    assert_eq!(notify_end_of_interrupt(47), EndOfInterrupt { master: true, slave: true });
    assert_eq!(notify_end_of_interrupt(48), EndOfInterrupt { master: false, slave: false });
}

#[test]
fn timer_interrupt_prints_a_dot_and_is_acknowledged() {
    let response = timer_interrupt_handler();
    assert_eq!(response.print, ".");
    assert_eq!(response.end_of_interrupt, EndOfInterrupt { master: true, slave: false });
}

#[test]
fn keyboard_interrupt_is_acknowledged_whatever_becomes_of_the_scancode() {
    let acknowledged = EndOfInterrupt { master: true, slave: false };
    let mut state = ScancodeQueue::uninit();
    let response = keyboard_interrupt_handler(&mut state, 0x1e);
    assert_eq!(response.outcome, ScancodeOutcome::Uninitialized);
    assert_eq!(response.end_of_interrupt, acknowledged);
    let mut stream = ScancodeStream::new(&mut state);
    let response = keyboard_interrupt_handler(&mut state, 0x1e);
    assert_eq!(response.outcome, ScancodeOutcome::Queued(None));
    assert_eq!(response.end_of_interrupt, acknowledged);
    for _ in 1..100 {
        keyboard_interrupt_handler(&mut state, 0x20);
    }
    let response = keyboard_interrupt_handler(&mut state, 0x21);
    assert_eq!(response.outcome, ScancodeOutcome::QueueFull);
    assert_eq!(response.end_of_interrupt, acknowledged);
    let waker = TaskWaker::new(TaskId(0));
    assert_eq!(stream.poll_next(&mut state, &waker), Poll::Ready(Some(0x1e)));
}

#[test]
fn dropped_scancodes_are_warned_of() {
    assert_eq!(scancode_warning(ScancodeOutcome::Queued(None)), None);
    assert_eq!(
        scancode_warning(ScancodeOutcome::QueueFull),
        Some("WARNING: scancode queue full; dropping keyboard input")
    );
    assert_eq!(
        scancode_warning(ScancodeOutcome::Uninitialized),
        Some("WARNING: scancode queue uninitialized")
    );
}

#[test]
fn qemu_exit_codes() {
    assert_eq!(QemuExitCode::Success.as_u32(), 0x10);
    assert_eq!(QemuExitCode::Failed.as_u32(), 0x11);
    assert_eq!(QEMU_EXIT_PORT, 0xf4);
    assert_eq!(exit_qemu(QemuExitCode::Failed), PortWrite { port: 0xf4, value: 0x11 });
    assert_eq!(exit_qemu(QemuExitCode::Success), PortWrite { port: 0xf4, value: 0x10 });
}

struct Counting<'a> {
    runs: &'a Cell<u32>,
}

impl<'a> Testable for Counting<'a> {
    fn run(&self) {
        self.runs.set(self.runs.get() + 1);
    }
}

#[test]
fn test_runner_runs_every_test_and_exits_with_success() {
    let runs = Cell::new(0);
    let first = Counting { runs: &runs };
    let second = Counting { runs: &runs };
    let third = Counting { runs: &runs };
    let tests: [&dyn Testable; 3] = [&first, &second, &third];
    let write = test_runner(&tests);
    assert_eq!(runs.get(), 3);
    assert_eq!(write, PortWrite { port: 0xf4, value: 0x10 });
    assert_eq!(test_runner(&[]), PortWrite { port: 0xf4, value: 0x10 });
}

#[test]
fn trivial_assertion() {
    assert_eq!(1, 1);
}
