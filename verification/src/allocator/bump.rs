//! A bump allocator.

use crate::allocator::{align_up_spec, checked_align_up, lemma_align_up_is_least_multiple, Layout};
use vstd::prelude::*;

verus! {

/// What a bump allocator stands for: the bounds of its heap, the first byte
/// that was never handed out, and the number of blocks that are in use.
pub struct BumpView {
    pub heap_start: u64,
    pub heap_end: u64,
    pub next: u64,
    pub allocations: u64,
}

/// Where a block for `layout` starts when the first unused byte is `next`.
pub open spec fn bump_start(next: u64, layout: Layout) -> int {
    align_up_spec(next as int, layout.spec_align() as int)
}

/// The address that `allocate` returns: the first unused address aligned up,
/// if the block ends inside the heap.
pub open spec fn bump_result(v: BumpView, layout: Layout) -> Option<u64> {
    if bump_start(v.next, layout) + layout.spec_size() <= v.heap_end {
        Some(bump_start(v.next, layout) as u64)
    } else {
        None
    }
}

/// The allocator after `allocate`.
pub open spec fn after_bump_alloc(v: BumpView, layout: Layout) -> BumpView {
    match bump_result(v, layout) {
        Some(start) => BumpView {
            next: (start + layout.spec_size()) as u64,
            allocations: (v.allocations + 1) as u64,
            ..v
        },
        None => v,
    }
}

/// The allocator after `deallocate`: with the last block the whole heap is
/// free again.
pub open spec fn after_bump_dealloc(v: BumpView) -> BumpView {
    BumpView {
        allocations: (v.allocations - 1) as u64,
        next: if v.allocations == 1 {
            v.heap_start
        } else {
            v.next
        },
        ..v
    }
}

/// Two blocks that are allocated one after the other share no byte: the
/// second starts at or behind the end of the first.
pub proof fn lemma_bump_blocks_apart(v: BumpView, first: Layout, second: Layout)
    requires
        first.wf(),
        second.wf(),
        bump_result(v, first) is Some,
        bump_result(after_bump_alloc(v, first), second) is Some,
    ensures
        bump_result(v, first).unwrap() + first.spec_size() <= bump_result(
            after_bump_alloc(v, first),
            second,
        ).unwrap(),
        v.next <= bump_result(v, first).unwrap(),
        bump_result(after_bump_alloc(v, first), second).unwrap() + second.spec_size()
            <= v.heap_end,
{
    lemma_align_up_is_least_multiple(v.next as int, first.spec_align() as int);
    lemma_align_up_is_least_multiple(
        after_bump_alloc(v, first).next as int,
        second.spec_align() as int,
    );
}

/// An allocator that hands out the heap from its start to its end, and takes
/// memory back only when every block has been freed.
pub struct BumpAllocator {
    heap_start: u64,
    heap_end: u64,
    next: u64,
    allocations: u64,
}

impl View for BumpAllocator {
    type V = BumpView;

    closed spec fn view(&self) -> BumpView {
        BumpView {
            heap_start: self.heap_start,
            heap_end: self.heap_end,
            next: self.next,
            allocations: self.allocations,
        }
    }
}

impl BumpAllocator {
    /// Creates a new empty bump allocator.
    pub fn new() -> (allocator: Self)
        ensures
            allocator@ == (BumpView { heap_start: 0, heap_end: 0, next: 0, allocations: 0 }),
    {
        BumpAllocator { heap_start: 0, heap_end: 0, next: 0, allocations: 0 }
    }

    /// Initializes the bump allocator with the given heap bounds.
    pub fn init(&mut self, heap_start: u64, heap_size: u64)
        requires
            heap_start + heap_size <= u64::MAX,
        ensures
            final(self)@ == (BumpView {
                heap_start,
                heap_end: (heap_start + heap_size) as u64,
                next: heap_start,
                allocations: old(self)@.allocations,
            }),
    {
        self.heap_start = heap_start;
        self.heap_end = heap_start + heap_size;
        self.next = heap_start;
    }

    /// Allocates the next block of the heap for `layout`. The block starts at
    /// or behind every byte handed out since the heap was last empty.
    pub fn allocate(&mut self, layout: Layout) -> (r: Option<u64>)
        requires
            old(self)@.allocations < u64::MAX,
        ensures
            r == bump_result(old(self)@, layout),
            final(self)@ == after_bump_alloc(old(self)@, layout),
            r matches Some(a) ==> {
                &&& a % layout.spec_align() == 0
                &&& old(self)@.next <= a
                &&& a + layout.spec_size() == final(self)@.next
                &&& final(self)@.next <= old(self)@.heap_end
            },
    {
        let align = layout.align();
        proof {
            lemma_align_up_is_least_multiple(self.next as int, align as int);
        }
        let alloc_start = match checked_align_up(self.next, align) {
            Some(alloc_start) => alloc_start,
            None => { return None; },
        };
        let alloc_end = match alloc_start.checked_add(layout.size()) {
            Some(end) => end,
            None => { return None; },
        };
        if alloc_end > self.heap_end {
            None  // out of memory
        } else {
            self.next = alloc_end;
            self.allocations += 1;
            Some(alloc_start)
        }
    }

    /// Counts one block as freed.
    pub fn deallocate(&mut self, _ptr: u64, _layout: Layout)
        requires
            old(self)@.allocations > 0,
        ensures
            final(self)@ == after_bump_dealloc(old(self)@),
    {
        self.allocations -= 1;
        if self.allocations == 0 {
            self.next = self.heap_start;
        }
    }
}

} // verus!
