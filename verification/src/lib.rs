//! The core of a small x86-64 kernel, verified with Verus: the heap
//! allocators, the frame allocator, the bookkeeping of the task executors, the
//! scancode queue, the decisions of the interrupt handlers and the writer of
//! the text screen. The library touches no hardware: it tells its caller what
//! to map, what to acknowledge and when to halt.

use vstd::prelude::*;

pub mod allocator;
pub mod gdt;
pub mod interrupts;
pub mod memory;
pub mod task;
pub mod vga_buffer;

verus! {

/// I/O port of the exit device of QEMU.
pub const QEMU_EXIT_PORT: u16 = 0xf4;

/// The codes with which a test run leaves QEMU.
#[derive(Debug, Clone, Copy, PartialEq, Eq, Structural)]
pub enum QemuExitCode {
    Success,
    Failed,
}

impl QemuExitCode {
    /// The number that is written to the exit device.
    pub open spec fn code(self) -> u32 {
        match self {
            QemuExitCode::Success => 0x10,
            QemuExitCode::Failed => 0x11,
        }
    }

    pub fn as_u32(self) -> (code: u32)
        ensures
            code == self.code(),
    {
        match self {
            QemuExitCode::Success => 0x10,
            QemuExitCode::Failed => 0x11,
        }
    }
}

/// A value to write to an I/O port.
#[derive(Debug, Clone, Copy, PartialEq, Eq, Structural)]
pub struct PortWrite {
    pub port: u16,
    pub value: u32,
}

/// The port write that ends QEMU with `exit_code`.
pub fn exit_qemu(exit_code: QemuExitCode) -> (write: PortWrite)
    ensures
        write == (PortWrite { port: QEMU_EXIT_PORT, value: exit_code.code() }),
{
    PortWrite { port: QEMU_EXIT_PORT, value: exit_code.as_u32() }
}

/// A test that the test runner can run.
pub trait Testable {
    fn run(&self);
}

/// Runs the tests one after the other, and returns the port write that ends
/// QEMU with success: a test that fails does not return.
pub fn test_runner(tests: &[&dyn Testable]) -> (write: PortWrite)
    ensures
        write == (PortWrite { port: QEMU_EXIT_PORT, value: QemuExitCode::Success.code() }),
{
    let mut index: usize = 0;
    while index < tests.len()
        invariant
            index <= tests@.len(),
        decreases tests@.len() - index,
    {
        tests[index].run();
        index += 1;
    }
    exit_qemu(QemuExitCode::Success)
}

} // verus!
