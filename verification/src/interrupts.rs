//! The interrupt descriptor table of the kernel and what its handlers decide.

use crate::gdt::DOUBLE_FAULT_IST_INDEX;
use crate::task::keyboard::{
    add_scancode_outcome, after_add_scancode, ScancodeOutcome, ScancodeQueue,
};
use vstd::prelude::*;

verus! {

/// First interrupt vector of the master PIC. The vectors below it belong to
/// the exceptions of the CPU.
pub const PIC_1_OFFSET: u8 = 32;

/// First interrupt vector of the slave PIC.
pub const PIC_2_OFFSET: u8 = PIC_1_OFFSET + 8;

/// Number of interrupt lines of one PIC.
pub const PIC_LINES: u8 = 8;

/// Number of slots of the interrupt descriptor table.
pub const IDT_ENTRIES: usize = 256;

/// Vector of the breakpoint exception.
pub const BREAKPOINT_VECTOR: usize = 3;

/// Vector of the double-fault exception.
pub const DOUBLE_FAULT_VECTOR: usize = 8;

/// Vector of the page-fault exception.
pub const PAGE_FAULT_VECTOR: usize = 14;

/// I/O port from which the scancode of the keyboard is read.
pub const KEYBOARD_DATA_PORT: u16 = 0x60;

/// The hardware interrupts that the kernel handles.
#[derive(Debug, Clone, Copy, PartialEq, Eq, Structural)]
pub enum InterruptIndex {
    Timer,
    Keyboard,
}

impl InterruptIndex {
    /// The interrupt vector as a number: the timer has the first vector of
    /// the master PIC, the keyboard the one after it.
    pub open spec fn vector(self) -> u8 {
        match self {
            InterruptIndex::Timer => PIC_1_OFFSET,
            InterruptIndex::Keyboard => (PIC_1_OFFSET + 1) as u8,
        }
    }

    pub fn as_u8(self) -> (vector: u8)
        ensures
            vector == self.vector(),
    {
        match self {
            InterruptIndex::Timer => PIC_1_OFFSET,
            InterruptIndex::Keyboard => PIC_1_OFFSET + 1,
        }
    }

    pub fn as_usize(self) -> (vector: usize)
        ensures
            vector == self.vector(),
    {
        self.as_u8() as usize
    }
}

/// The handlers that the kernel installs.
#[derive(Debug, Clone, Copy, PartialEq, Eq, Structural)]
pub enum Handler {
    Breakpoint,
    DoubleFault,
    PageFault,
    Timer,
    Keyboard,
}

/// A slot of the interrupt descriptor table that is in use: the handler, and
/// the slot of the interrupt stack table whose stack the handler runs on, if
/// it does not run on the stack that was interrupted.
#[derive(Debug, Clone, Copy, PartialEq, Eq, Structural)]
pub struct IdtEntry {
    pub handler: Handler,
    pub stack_index: Option<u16>,
}

/// What the slot of `vector` holds in the table of the kernel.
pub open spec fn idt_entry(vector: int) -> Option<IdtEntry> {
    if vector == BREAKPOINT_VECTOR {
        Some(IdtEntry { handler: Handler::Breakpoint, stack_index: None })
    } else if vector == DOUBLE_FAULT_VECTOR {
        Some(IdtEntry { handler: Handler::DoubleFault, stack_index: Some(DOUBLE_FAULT_IST_INDEX) })
    } else if vector == PAGE_FAULT_VECTOR {
        Some(IdtEntry { handler: Handler::PageFault, stack_index: None })
    } else if vector == InterruptIndex::Timer.vector() {
        Some(IdtEntry { handler: Handler::Timer, stack_index: None })
    } else if vector == InterruptIndex::Keyboard.vector() {
        Some(IdtEntry { handler: Handler::Keyboard, stack_index: None })
    } else {
        None
    }
}

/// Builds the interrupt descriptor table of the kernel, one slot for each of
/// the 256 vectors. The caller installs it.
pub fn init_idt() -> (idt: Vec<Option<IdtEntry>>)
    ensures
        idt@.len() == IDT_ENTRIES,
        forall|vector: int| 0 <= vector < IDT_ENTRIES ==> #[trigger] idt@[vector] == idt_entry(vector),
{
    let mut idt: Vec<Option<IdtEntry>> = Vec::new();
    while idt.len() < IDT_ENTRIES
        invariant
            idt@.len() <= IDT_ENTRIES,
            forall|vector: int| 0 <= vector < idt@.len() ==> (#[trigger] idt@[vector]) is None,
        decreases IDT_ENTRIES - idt@.len(),
    {
        idt.push(None);
    }
    idt[BREAKPOINT_VECTOR] = Some(IdtEntry { handler: Handler::Breakpoint, stack_index: None });
    idt[DOUBLE_FAULT_VECTOR] = Some(
        IdtEntry { handler: Handler::DoubleFault, stack_index: Some(DOUBLE_FAULT_IST_INDEX) },
    );
    idt[InterruptIndex::Timer.as_usize()] = Some(
        IdtEntry { handler: Handler::Timer, stack_index: None },
    );
    idt[InterruptIndex::Keyboard.as_usize()] = Some(
        IdtEntry { handler: Handler::Keyboard, stack_index: None },
    );
    idt[PAGE_FAULT_VECTOR] = Some(IdtEntry { handler: Handler::PageFault, stack_index: None });
    idt
}

/// How the kernel goes on after an exception.
#[derive(Debug, Clone, Copy, PartialEq, Eq, Structural)]
pub enum Resumption {
    /// Return to what was interrupted.
    Return,
    /// Halt the CPU for good.
    HaltLoop,
    /// Panic.
    Panic,
}

/// What the handler of an exception does: the line that it logs before the
/// details of the fault, and how the kernel goes on.
pub struct ExceptionResponse {
    pub message: &'static str,
    pub resumption: Resumption,
}

/// A breakpoint is logged, and the kernel returns to what was interrupted.
pub fn breakpoint_handler() -> (response: ExceptionResponse)
    ensures
        response.message@ == "EXCEPTION: BREAKPOINT"@,
        response.resumption == Resumption::Return,
{
    ExceptionResponse { message: "EXCEPTION: BREAKPOINT", resumption: Resumption::Return }
}

/// A double fault makes the kernel panic.
pub fn double_fault_handler() -> (response: ExceptionResponse)
    ensures
        response.message@ == "EXCEPTION: DOUBLE FAULT"@,
        response.resumption == Resumption::Panic,
{
    ExceptionResponse { message: "EXCEPTION: DOUBLE FAULT", resumption: Resumption::Panic }
}

/// A page fault is logged, with the address that was accessed, and the
/// kernel halts.
pub fn page_fault_handler() -> (response: ExceptionResponse)
    ensures
        response.message@ == "EXCEPTION: PAGE FAULT"@,
        response.resumption == Resumption::HaltLoop,
{
    ExceptionResponse { message: "EXCEPTION: PAGE FAULT", resumption: Resumption::HaltLoop }
}

/// The PICs that get an end-of-interrupt signal.
#[derive(Debug, Clone, Copy, PartialEq, Eq, Structural)]
pub struct EndOfInterrupt {
    pub master: bool,
    pub slave: bool,
}

/// The PICs to acknowledge for an interrupt vector: the master for every
/// vector of the two PICs, and the slave as well for the vectors of the
/// slave, which reach the CPU through the master. No PIC for any other vector.
pub open spec fn end_of_interrupt_spec(vector: u8) -> EndOfInterrupt {
    EndOfInterrupt {
        master: PIC_1_OFFSET <= vector < PIC_2_OFFSET + PIC_LINES,
        slave: PIC_2_OFFSET <= vector < PIC_2_OFFSET + PIC_LINES,
    }
}

/// Tells which PICs are to get the end-of-interrupt signal for `vector`.
pub fn notify_end_of_interrupt(vector: u8) -> (signal: EndOfInterrupt)
    ensures
        signal == end_of_interrupt_spec(vector),
{
    let handled_by_master = PIC_1_OFFSET <= vector && vector < PIC_1_OFFSET + PIC_LINES;
    let handled_by_slave = PIC_2_OFFSET <= vector && vector < PIC_2_OFFSET + PIC_LINES;
    EndOfInterrupt { master: handled_by_master || handled_by_slave, slave: handled_by_slave }
}

/// What the handler of the timer interrupt does: it prints a dot, and then
/// acknowledges the interrupt.
pub struct TimerResponse {
    pub print: &'static str,
    pub end_of_interrupt: EndOfInterrupt,
}

/// Handles a timer interrupt.
pub fn timer_interrupt_handler() -> (response: TimerResponse)
    ensures
        response.print@ == "."@,
        response.end_of_interrupt == end_of_interrupt_spec(InterruptIndex::Timer.vector()),
{
    TimerResponse {
        print: ".",
        end_of_interrupt: notify_end_of_interrupt(InterruptIndex::Timer.as_u8()),
    }
}

/// What the handler of the keyboard interrupt does after it has read the
/// scancode: what became of the scancode, with the waker to wake, and then
/// the acknowledgement of the interrupt.
pub struct KeyboardResponse {
    pub outcome: ScancodeOutcome,
    pub end_of_interrupt: EndOfInterrupt,
}

/// Handles a keyboard interrupt whose scancode was read from the data port:
/// the scancode goes to the scancode queue, and the interrupt is acknowledged
/// whatever became of the scancode.
pub fn keyboard_interrupt_handler(state: &mut ScancodeQueue, scancode: u8) -> (response:
    KeyboardResponse)
    requires
        old(state).wf(),
    ensures
        final(state).wf(),
        response.outcome == add_scancode_outcome(old(state)@, scancode),
        final(state)@ == after_add_scancode(old(state)@, scancode),
        response.end_of_interrupt == end_of_interrupt_spec(InterruptIndex::Keyboard.vector()),
{
    let outcome = state.add_scancode(scancode);
    KeyboardResponse {
        outcome,
        end_of_interrupt: notify_end_of_interrupt(InterruptIndex::Keyboard.as_u8()),
    }
}

/// The warning that the kernel prints for a scancode that was dropped.
pub fn scancode_warning(outcome: ScancodeOutcome) -> (warning: Option<&'static str>)
    ensures
        match outcome {
            ScancodeOutcome::Queued(_) => warning is None,
            ScancodeOutcome::QueueFull => warning matches Some(text) && text@
                == "WARNING: scancode queue full; dropping keyboard input"@,
            ScancodeOutcome::Uninitialized => warning matches Some(text) && text@
                == "WARNING: scancode queue uninitialized"@,
        },
{
    match outcome {
        ScancodeOutcome::Queued(_) => None,
        ScancodeOutcome::QueueFull => Some("WARNING: scancode queue full; dropping keyboard input"),
        ScancodeOutcome::Uninitialized => Some("WARNING: scancode queue uninitialized"),
    }
}

/// Every interrupt that the kernel handles is acknowledged once at the PIC
/// that raised it: the vector lies with the master PIC, the handler signals
/// the master and not the slave.
pub proof fn lemma_interrupt_is_acknowledged(index: InterruptIndex)
    ensures
        PIC_1_OFFSET <= index.vector() < PIC_2_OFFSET,
        end_of_interrupt_spec(index.vector()) == (EndOfInterrupt { master: true, slave: false }),
{
}

/// For every vector of the two PICs the PIC that raised the interrupt is
/// acknowledged: the master for its own vectors, the slave and the master,
/// through which it is chained, for those of the slave. The vectors of the
/// CPU's exceptions acknowledge no PIC.
pub proof fn lemma_end_of_interrupt(vector: u8)
    ensures
        vector < PIC_1_OFFSET ==> end_of_interrupt_spec(vector) == (EndOfInterrupt {
            master: false,
            slave: false,
        }),
        PIC_1_OFFSET <= vector < PIC_2_OFFSET ==> end_of_interrupt_spec(vector) == (EndOfInterrupt {
            master: true,
            slave: false,
        }),
        PIC_2_OFFSET <= vector < PIC_2_OFFSET + PIC_LINES ==> end_of_interrupt_spec(vector) == (
        EndOfInterrupt { master: true, slave: true }),
{
}

} // verus!
