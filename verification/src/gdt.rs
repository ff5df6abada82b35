//! The stack that the task state segment keeps for the double-fault handler.

use crate::memory::{is_canonical, virt_addr_offset};
use vstd::prelude::*;

verus! {

/// The slot of the interrupt stack table that holds the stack of the
/// double-fault handler.
pub const DOUBLE_FAULT_IST_INDEX: u16 = 0;

/// Bytes of the stack of the double-fault handler.
pub const STACK_SIZE: u64 = 4096 * 5;

/// The address that goes into the interrupt stack table for a stack that
/// begins at `stack_start`: stacks grow downwards, so it is the address behind
/// the last byte of the stack.
pub fn double_fault_stack_end(stack_start: u64) -> (stack_end: u64)
    requires
        is_canonical(stack_start),
        stack_start + STACK_SIZE <= u64::MAX,
        is_canonical((stack_start + STACK_SIZE) as u64),
    ensures
        stack_end == stack_start + STACK_SIZE,
{
    virt_addr_offset(stack_start, STACK_SIZE)
}

} // verus!
