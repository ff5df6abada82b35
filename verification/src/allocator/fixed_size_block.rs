//! A segregated-fit allocator: fixed block sizes in front of a linked-list
//! allocator.

use crate::allocator::linked_list::{
    after_add_free_region, after_alloc, after_dealloc, alloc_result, block_wf, disjoint,
    heap_within, heap_wf, lemma_alloc, lemma_alloc_stays_within, lemma_dealloc,
    lemma_dealloc_stays_within, lemma_size_align, region_fit, size_align_spec, HeapView,
    LinkedListAllocator,
};
use crate::allocator::{is_power_of_two, valid_layout, Layout};
use vstd::prelude::*;

verus! {

/// The block sizes of the size classes. Each is a power of two, because a
/// class's size is also the alignment of its blocks, and none is smaller than
/// the link that a free block holds in its first eight bytes.
pub const BLOCK_SIZES: [u64; 9] = [8, 16, 32, 64, 128, 256, 512, 1024, 2048];

/// The size class that serves `layout`: the one with the smallest block that
/// holds `max(size, align)` bytes; `None` above the largest block size.
pub open spec fn list_index_spec(layout: Layout) -> Option<usize> {
    let required = if layout.spec_size() >= layout.spec_align() {
        layout.spec_size()
    } else {
        layout.spec_align()
    };
    if required <= 8 {
        Some(0usize)
    } else if required <= 16 {
        Some(1usize)
    } else if required <= 32 {
        Some(2usize)
    } else if required <= 64 {
        Some(3usize)
    } else if required <= 128 {
        Some(4usize)
    } else if required <= 256 {
        Some(5usize)
    } else if required <= 512 {
        Some(6usize)
    } else if required <= 1024 {
        Some(7usize)
    } else if required <= 2048 {
        Some(8usize)
    } else {
        None
    }
}

/// Chooses the size class for `layout`, as an index into `BLOCK_SIZES`.
pub fn list_index(layout: &Layout) -> (r: Option<usize>)
    ensures
        r == list_index_spec(*layout),
        r matches Some(index) ==> {
            &&& index < 9
            &&& layout.spec_size() <= BLOCK_SIZES[index as int]
            &&& layout.spec_align() <= BLOCK_SIZES[index as int]
        },
{
    let required_block_size = if layout.size() >= layout.align() {
        layout.size()
    } else {
        layout.align()
    };
    let mut index: usize = 0;
    while index < 9
        invariant
            0 <= index <= 9,
            required_block_size == if layout.spec_size() >= layout.spec_align() {
                layout.spec_size()
            } else {
                layout.spec_align()
            },
            forall|j: int| 0 <= j < index ==> #[trigger] BLOCK_SIZES[j] < required_block_size,
        decreases 9 - index,
    {
        if BLOCK_SIZES[index] >= required_block_size {
            assert(index == 0 || BLOCK_SIZES[index - 1] < required_block_size);
            return Some(index);
        }
        index += 1;
    }
    assert(BLOCK_SIZES[8] < required_block_size);
    None
}

/// The layout of a block of class `index`: its size is its alignment.
pub open spec fn block_layout(index: int) -> Layout {
    Layout::spec_new(BLOCK_SIZES[index], BLOCK_SIZES[index])
}

/// The bytes that the fallback allocator reserves for a block allocated with
/// `layout`: a whole block of its class, or what the fallback's own rule gives.
pub open spec fn reserved_size(layout: Layout) -> u64 {
    match list_index_spec(layout) {
        Some(index) => BLOCK_SIZES[index as int],
        None => match size_align_spec(layout) {
            Some((size, _)) => size,
            None => 0,
        },
    }
}

/// What the allocator stands for: for each size class the free blocks of the
/// class, the one at the end being the head of the list; the fallback heap;
/// and the blocks that callers hold, each with the layout it was asked with.
pub struct BlockHeapView {
    pub lists: Seq<Seq<u64>>,
    pub fallback: HeapView,
    pub live: Map<u64, Layout>,
}

/// The invariant of the allocator. Every block in a list and every block that
/// a caller holds is a live block of the fallback heap, reserved in full for
/// its class or layout; no block is in two places; a block of a class is
/// aligned to the class's size.
pub open spec fn block_heap_wf(v: BlockHeapView) -> bool {
    &&& v.lists.len() == 9
    &&& heap_wf(v.fallback)
    &&& forall|c: int, k: int|
        0 <= c < 9 && 0 <= k < v.lists[c].len() ==> {
            let a = #[trigger] v.lists[c][k];
            &&& v.fallback.live.contains_key(a)
            &&& v.fallback.live[a] == BLOCK_SIZES[c]
            &&& a % BLOCK_SIZES[c] == 0
            &&& !v.live.contains_key(a)
        }
    &&& forall|c: int, k: int, d: int, l: int|
        0 <= c < 9 && 0 <= k < v.lists[c].len() && 0 <= d < 9 && 0 <= l < v.lists[d].len() && (c
            != d || k != l) ==> #[trigger] v.lists[c][k] != #[trigger] v.lists[d][l]
    &&& forall|a: u64| #[trigger]
        v.live.contains_key(a) ==> {
            &&& v.live[a].wf()
            &&& v.fallback.live.contains_key(a)
            &&& v.fallback.live[a] == reserved_size(v.live[a])
            &&& list_index_spec(v.live[a]) is None ==> size_align_spec(v.live[a]) is Some
            &&& a % v.live[a].spec_align() == 0
            &&& list_index_spec(v.live[a]) matches Some(index) ==> a % BLOCK_SIZES[index as int]
                == 0
        }
}

/// The address that `allocate` returns: the head of the class's list; where
/// the list is empty, a fresh block of the class's size and alignment from the
/// fallback heap; where no class serves the layout, a block from the fallback
/// heap.
pub open spec fn block_alloc_result(v: BlockHeapView, layout: Layout) -> Option<u64> {
    match list_index_spec(layout) {
        Some(index) => if v.lists[index as int].len() > 0 {
            Some(v.lists[index as int].last())
        } else {
            alloc_result(v.fallback, block_layout(index as int))
        },
        None => alloc_result(v.fallback, layout),
    }
}

/// The heap after `allocate`.
pub open spec fn after_block_alloc(v: BlockHeapView, layout: Layout) -> BlockHeapView {
    let live = match block_alloc_result(v, layout) {
        Some(a) => v.live.insert(a, layout),
        None => v.live,
    };
    match list_index_spec(layout) {
        Some(index) => if v.lists[index as int].len() > 0 {
            BlockHeapView {
                lists: v.lists.update(index as int, v.lists[index as int].drop_last()),
                fallback: v.fallback,
                live,
            }
        } else {
            BlockHeapView {
                lists: v.lists,
                fallback: after_alloc(v.fallback, block_layout(index as int)),
                live,
            }
        },
        None => BlockHeapView { lists: v.lists, fallback: after_alloc(v.fallback, layout), live },
    }
}

/// The heap after `deallocate`: a block of a class is the new head of the
/// class's list, any other block goes back to the fallback heap.
pub open spec fn after_block_dealloc(v: BlockHeapView, ptr: u64, layout: Layout) -> BlockHeapView {
    match list_index_spec(layout) {
        Some(index) => BlockHeapView {
            lists: v.lists.update(index as int, v.lists[index as int].push(ptr)),
            fallback: v.fallback,
            live: v.live.remove(ptr),
        },
        None => BlockHeapView {
            lists: v.lists,
            fallback: after_dealloc(v.fallback, ptr, layout),
            live: v.live.remove(ptr),
        },
    }
}

/// A block's layout is valid, and the fallback heap reserves exactly the
/// block's size for it.
pub proof fn lemma_block_layout(index: int)
    requires
        0 <= index < 9,
    ensures
        valid_layout(BLOCK_SIZES[index], BLOCK_SIZES[index]),
        block_layout(index).wf(),
        block_layout(index).spec_size() == BLOCK_SIZES[index],
        block_layout(index).spec_align() == BLOCK_SIZES[index],
        size_align_spec(block_layout(index)) == Some((BLOCK_SIZES[index], BLOCK_SIZES[index])),
{
    let size = BLOCK_SIZES[index];
    assert(is_power_of_two(8) && is_power_of_two(16) && is_power_of_two(32) && is_power_of_two(64)
        && is_power_of_two(128) && is_power_of_two(256) && is_power_of_two(512)
        && is_power_of_two(1024) && is_power_of_two(2048)) by (bit_vector);
    assert(size % size == 0);
    Layout::lemma_spec_new(size, size);
    lemma_size_align(block_layout(index));
}

/// A power of two that is not above the block size of a class divides it.
pub proof fn lemma_block_size_multiple(a: u64, align: u64, index: int)
    requires
        0 <= index < 9,
        is_power_of_two(align),
        align <= BLOCK_SIZES[index],
        a % BLOCK_SIZES[index] == 0,
    ensures
        a % align == 0,
{
    assert(align > 0 && align & ((align - 1) as u64) == 0 && align <= 2048 ==> align == 1 || align
        == 2 || align == 4 || align == 8 || align == 16 || align == 32 || align == 64 || align
        == 128 || align == 256 || align == 512 || align == 1024 || align == 2048)
        by (bit_vector);
    let size = BLOCK_SIZES[index] as int;
    let factor = size / (align as int);
    assert(size == factor * align && factor > 0) by {
        assert(size == 8 || size == 16 || size == 32 || size == 64 || size == 128 || size == 256
            || size == 512 || size == 1024 || size == 2048);
    }
    vstd::arithmetic::div_mod::lemma_mod_mod(a as int, align as int, factor);
    assert((align as int) * factor == size) by (nonlinear_arith)
        requires
            size == factor * align,
    ;
}

/// The fallback heap reserves at least the bytes that the layout asks for.
pub proof fn lemma_reserved_size(layout: Layout)
    requires
        layout.wf(),
        list_index_spec(layout) is None ==> size_align_spec(layout) is Some,
    ensures
        layout.spec_size() <= reserved_size(layout),
{
    lemma_size_align(layout);
}

/// Every block that `allocate` hands out is not null, is aligned as the
/// layout asks and shares no byte with a block that a caller holds; and the
/// heap stays well formed.
pub proof fn lemma_block_alloc(v: BlockHeapView, layout: Layout)
    requires
        block_heap_wf(v),
        layout.wf(),
    ensures
        block_heap_wf(after_block_alloc(v, layout)),
        block_alloc_result(v, layout) matches Some(a) ==> {
            &&& a > 0
            &&& a % layout.spec_align() == 0
            &&& !v.live.contains_key(a)
            &&& forall|b: u64| #[trigger]
                v.live.contains_key(b) ==> disjoint(
                    a,
                    layout.spec_size(),
                    b,
                    v.live[b].spec_size(),
                )
        },
        block_alloc_result(v, layout) is None ==> after_block_alloc(v, layout) == v,
{
    let w = after_block_alloc(v, layout);
    lemma_size_align(layout);
    assert forall|b: u64| #[trigger] v.live.contains_key(b) implies v.live[b].spec_size()
        <= v.fallback.live[b] && block_wf(b, v.fallback.live[b]) by {
        lemma_reserved_size(v.live[b]);
    }
    match list_index_spec(layout) {
        Some(index) => {
            let c = index as int;
            let size = BLOCK_SIZES[c];
            lemma_block_layout(c);
            if v.lists[c].len() > 0 {
                let last = v.lists[c].len() - 1;
                let a = v.lists[c][last];
                assert(block_wf(a, v.fallback.live[a]));
                lemma_block_size_multiple(a, layout.spec_align(), c);
                assert forall|b: u64| #[trigger] v.live.contains_key(b) implies disjoint(
                    a,
                    layout.spec_size(),
                    b,
                    v.live[b].spec_size(),
                ) by {
                    assert(disjoint(a, v.fallback.live[a], b, v.fallback.live[b]));
                }
                assert forall|d: int, k: int| 0 <= d < 9 && 0 <= k < w.lists[d].len() implies {
                    let x = #[trigger] w.lists[d][k];
                    &&& v.fallback.live.contains_key(x)
                    &&& v.fallback.live[x] == BLOCK_SIZES[d]
                    &&& x % BLOCK_SIZES[d] == 0
                    &&& !w.live.contains_key(x)
                } by {
                    assert(w.lists[d][k] == v.lists[d][k]);
                    assert(v.lists[d][k] != v.lists[c][last]);
                }
                assert forall|d: int, k: int, e: int, l: int|
                    0 <= d < 9 && 0 <= k < w.lists[d].len() && 0 <= e < 9 && 0 <= l
                        < w.lists[e].len() && (d != e || k != l) implies #[trigger] w.lists[d][k]
                    != #[trigger] w.lists[e][l] by {
                    assert(w.lists[d][k] == v.lists[d][k]);
                    assert(w.lists[e][l] == v.lists[e][l]);
                }
                assert(block_heap_wf(w));
            } else {
                lemma_alloc(v.fallback, block_layout(c));
                match alloc_result(v.fallback, block_layout(c)) {
                    Some(a) => {
                        lemma_block_size_multiple(a, layout.spec_align(), c);
                        assert forall|b: u64| #[trigger] v.live.contains_key(b) implies disjoint(
                            a,
                            layout.spec_size(),
                            b,
                            v.live[b].spec_size(),
                        ) by {
                            assert(v.fallback.live.contains_key(b));
                            assert(disjoint(a, size, b, v.fallback.live[b]));
                        }
                        assert forall|d: int, k: int|
                            0 <= d < 9 && 0 <= k < w.lists[d].len() implies {
                            let x = #[trigger] w.lists[d][k];
                            &&& w.fallback.live.contains_key(x)
                            &&& w.fallback.live[x] == BLOCK_SIZES[d]
                            &&& x % BLOCK_SIZES[d] == 0
                            &&& !w.live.contains_key(x)
                        } by {
                            assert(v.fallback.live.contains_key(v.lists[d][k]));
                        }
                        assert(block_heap_wf(w));
                    },
                    None => {
                        assert(w == v);
                    },
                }
            }
        },
        None => {
            lemma_alloc(v.fallback, layout);
            match alloc_result(v.fallback, layout) {
                Some(a) => {
                    let size = size_align_spec(layout).unwrap().0;
                    assert forall|b: u64| #[trigger] v.live.contains_key(b) implies disjoint(
                        a,
                        layout.spec_size(),
                        b,
                        v.live[b].spec_size(),
                    ) by {
                        assert(v.fallback.live.contains_key(b));
                        assert(disjoint(a, layout.spec_size(), b, v.fallback.live[b]));
                    }
                    assert forall|d: int, k: int| 0 <= d < 9 && 0 <= k < w.lists[d].len() implies {
                        let x = #[trigger] w.lists[d][k];
                        &&& w.fallback.live.contains_key(x)
                        &&& w.fallback.live[x] == BLOCK_SIZES[d]
                        &&& x % BLOCK_SIZES[d] == 0
                        &&& !w.live.contains_key(x)
                    } by {
                        assert(v.fallback.live.contains_key(v.lists[d][k]));
                    }
                    assert(block_heap_wf(w));
                },
                None => {
                    assert(w == v);
                },
            }
        },
    }
}

/// `allocate` returns a block wherever the allocator can satisfy the layout:
/// it fails only where the list of the class is empty, or no class serves the
/// layout, and no free region of the fallback heap fits what is asked of it.
pub proof fn lemma_block_alloc_fails_only_without_fit(v: BlockHeapView, layout: Layout)
    requires
        block_heap_wf(v),
        layout.wf(),
    ensures
        block_alloc_result(v, layout) is None <==> match list_index_spec(layout) {
            Some(index) => v.lists[index as int].len() == 0 && forall|i: int|
                0 <= i < v.fallback.free.len() ==> region_fit(
                    #[trigger] v.fallback.free[i],
                    BLOCK_SIZES[index as int],
                    BLOCK_SIZES[index as int],
                ) is None,
            None => match size_align_spec(layout) {
                Some((size, align)) => forall|i: int|
                    0 <= i < v.fallback.free.len() ==> region_fit(
                        #[trigger] v.fallback.free[i],
                        size,
                        align,
                    ) is None,
                None => true,
            },
        },
{
    match list_index_spec(layout) {
        Some(index) => {
            lemma_block_layout(index as int);
            lemma_alloc(v.fallback, block_layout(index as int));
        },
        None => {
            lemma_alloc(v.fallback, layout);
        },
    }
}

/// Every block that `allocate` hands out lies inside the range that was
/// handed to the allocator, and the fallback heap stays inside it.
pub proof fn lemma_block_alloc_stays_within(
    v: BlockHeapView,
    layout: Layout,
    start: u64,
    end: u64,
)
    requires
        block_heap_wf(v),
        layout.wf(),
        heap_within(v.fallback, start, end),
    ensures
        heap_within(after_block_alloc(v, layout).fallback, start, end),
        block_alloc_result(v, layout) matches Some(a) ==> start <= a && a + layout.spec_size()
            <= end,
{
    match list_index_spec(layout) {
        Some(index) => {
            let c = index as int;
            lemma_block_layout(c);
            if v.lists[c].len() > 0 {
                let a = v.lists[c][v.lists[c].len() - 1];
                assert(v.fallback.live.contains_key(a));
            } else {
                lemma_alloc_stays_within(v.fallback, block_layout(c), start, end);
            }
        },
        None => {
            lemma_alloc_stays_within(v.fallback, layout, start, end);
        },
    }
}

/// The fallback heap stays inside the range that was handed to the
/// allocator when a block is freed.
pub proof fn lemma_block_dealloc_stays_within(
    v: BlockHeapView,
    ptr: u64,
    layout: Layout,
    start: u64,
    end: u64,
)
    requires
        block_heap_wf(v),
        v.live.contains_key(ptr),
        v.live[ptr] == layout,
        heap_within(v.fallback, start, end),
    ensures
        heap_within(after_block_dealloc(v, ptr, layout).fallback, start, end),
{
    if list_index_spec(layout) is None {
        lemma_dealloc_stays_within(v.fallback, ptr, layout, start, end);
    }
}

/// Freeing a block that a caller holds, with the layout it was allocated
/// with, keeps the heap well formed.
pub proof fn lemma_block_dealloc(v: BlockHeapView, ptr: u64, layout: Layout)
    requires
        block_heap_wf(v),
        v.live.contains_key(ptr),
        v.live[ptr] == layout,
    ensures
        block_heap_wf(after_block_dealloc(v, ptr, layout)),
{
    let w = after_block_dealloc(v, ptr, layout);
    match list_index_spec(layout) {
        Some(index) => {
            let c = index as int;
            assert forall|d: int, k: int| 0 <= d < 9 && 0 <= k < w.lists[d].len() implies {
                let x = #[trigger] w.lists[d][k];
                &&& v.fallback.live.contains_key(x)
                &&& v.fallback.live[x] == BLOCK_SIZES[d]
                &&& x % BLOCK_SIZES[d] == 0
                &&& !w.live.contains_key(x)
                &&& (d == c && k == v.lists[c].len() && x == ptr) || (k < v.lists[d].len() && x
                    == v.lists[d][k] && x != ptr)
            } by {
                if d == c && k == v.lists[c].len() {
                } else {
                    assert(w.lists[d][k] == v.lists[d][k]);
                }
            }
            assert forall|d: int, k: int, e: int, l: int|
                0 <= d < 9 && 0 <= k < w.lists[d].len() && 0 <= e < 9 && 0 <= l < w.lists[e].len()
                    && (d != e || k != l) implies #[trigger] w.lists[d][k]
                != #[trigger] w.lists[e][l] by {
                if k < v.lists[d].len() && l < v.lists[e].len() {
                    assert(v.lists[d][k] != v.lists[e][l]);
                }
            }
            assert(block_heap_wf(w));
        },
        None => {
            lemma_dealloc(v.fallback, ptr, layout);
            assert forall|d: int, k: int| 0 <= d < 9 && 0 <= k < w.lists[d].len() implies {
                let x = #[trigger] w.lists[d][k];
                &&& w.fallback.live.contains_key(x)
                &&& w.fallback.live[x] == BLOCK_SIZES[d]
                &&& x % BLOCK_SIZES[d] == 0
                &&& !w.live.contains_key(x)
            } by {
                assert(v.fallback.live.contains_key(v.lists[d][k]));
            }
            assert(block_heap_wf(w));
        },
    }
}

/// A block of a size class that is freed is the next block that an allocation
/// of the same class returns.
pub proof fn lemma_freed_block_is_next(v: BlockHeapView, ptr: u64, freed: Layout, asked: Layout)
    requires
        v.lists.len() == 9,
        list_index_spec(freed) is Some,
        list_index_spec(freed) == list_index_spec(asked),
    ensures
        block_alloc_result(after_block_dealloc(v, ptr, freed), asked) == Some(ptr),
        after_block_alloc(after_block_dealloc(v, ptr, freed), asked).lists =~= v.lists,
{
    let index = list_index_spec(freed).unwrap() as int;
    let w = after_block_dealloc(v, ptr, freed);
    assert(w.lists[index] == v.lists[index].push(ptr));
    assert(w.lists[index].drop_last() =~= v.lists[index]);
}

/// A segregated-fit allocator: one list of free blocks for each size class of
/// `BLOCK_SIZES`, and a linked-list allocator behind them that supplies fresh
/// blocks and serves what no class holds.
pub struct FixedSizeBlockAllocator {
    list_heads: Vec<Vec<u64>>,
    fallback_allocator: LinkedListAllocator,
    live: Ghost<Map<u64, Layout>>,
}

impl View for FixedSizeBlockAllocator {
    type V = BlockHeapView;

    closed spec fn view(&self) -> BlockHeapView {
        BlockHeapView {
            lists: self.list_heads@.map_values(|list: Vec<u64>| list@),
            fallback: self.fallback_allocator@,
            live: self.live@,
        }
    }
}

impl FixedSizeBlockAllocator {
    pub open spec fn wf(&self) -> bool {
        block_heap_wf(self@)
    }

    /// Creates an allocator with empty lists that manages no memory yet.
    pub fn new() -> (allocator: Self)
        ensures
            allocator.wf(),
            allocator@.lists == Seq::new(9, |c: int| Seq::<u64>::empty()),
            allocator@.fallback.free == Seq::<crate::allocator::linked_list::ListNode>::empty(),
            allocator@.fallback.live == Map::<u64, u64>::empty(),
            allocator@.live == Map::<u64, Layout>::empty(),
    {
        let mut list_heads: Vec<Vec<u64>> = Vec::new();
        while list_heads.len() < 9
            invariant
                list_heads.len() <= 9,
                forall|c: int| 0 <= c < list_heads.len() ==> (#[trigger] list_heads[c])@.len() == 0,
            decreases 9 - list_heads.len(),
        {
            list_heads.push(Vec::new());
        }
        let allocator = FixedSizeBlockAllocator {
            list_heads,
            fallback_allocator: LinkedListAllocator::new(),
            live: Ghost(Map::empty()),
        };
        assert(allocator@.lists =~~= Seq::new(9, |c: int| Seq::<u64>::empty()));
        allocator
    }

    /// Hands the heap `[heap_start, heap_start + heap_size)` to an allocator
    /// that manages nothing yet.
    pub fn init(&mut self, heap_start: u64, heap_size: u64)
        requires
            old(self).wf(),
            old(self)@.fallback.free.len() == 0,
            old(self)@.fallback.live == Map::<u64, u64>::empty(),
            block_wf(heap_start, heap_size),
        ensures
            final(self).wf(),
            final(self)@.lists == old(self)@.lists,
            final(self)@.live == old(self)@.live,
            final(self)@.fallback == after_add_free_region(
                old(self)@.fallback,
                heap_start,
                heap_size,
            ),
    {
        self.fallback_allocator.init(heap_start, heap_size);
    }

    /// Allocates from the fallback heap.
    fn fallback_alloc(&mut self, layout: Layout) -> (r: Option<u64>)
        requires
            heap_wf(old(self)@.fallback),
        ensures
            r == alloc_result(old(self)@.fallback, layout),
            final(self)@.fallback == after_alloc(old(self)@.fallback, layout),
            final(self)@.lists == old(self)@.lists,
            final(self)@.live == old(self)@.live,
    {
        self.fallback_allocator.allocate(layout)
    }

    /// Allocates a block for `layout`: the head of its size class's list, a
    /// fresh block of the class where the list is empty, or a block of the
    /// fallback heap where no class serves the layout. `None` where the
    /// fallback heap has to supply the block and no free region of it fits.
    pub fn allocate(&mut self, layout: Layout) -> (r: Option<u64>)
        requires
            old(self).wf(),
        ensures
            final(self).wf(),
            r == block_alloc_result(old(self)@, layout),
            final(self)@ == after_block_alloc(old(self)@, layout),
            r matches Some(a) ==> {
                &&& a > 0
                &&& a % layout.spec_align() == 0
                &&& forall|b: u64| #[trigger]
                    old(self)@.live.contains_key(b) ==> disjoint(
                        a,
                        layout.spec_size(),
                        b,
                        old(self)@.live[b].spec_size(),
                    )
            },
    {
        proof {
            use_type_invariant(&layout);
            lemma_block_alloc(self@, layout);
        }
        match list_index(&layout) {
            Some(index) => {
                match self.list_heads[index].pop() {
                    Some(node) => {
                        self.live = Ghost(self.live@.insert(node, layout));
                        assert(self@.lists =~~= after_block_alloc(old(self)@, layout).lists);
                        Some(node)
                    },
                    None => {
                        // no block exists in list => allocate new block
                        let block_size = BLOCK_SIZES[index];
                        // only works if all block sizes are a power of 2
                        let block_align = block_size;
                        proof {
                            lemma_block_layout(index as int);
                        }
                        match Layout::from_size_align(block_size, block_align) {
                            Ok(block) => {
                                let r = self.fallback_alloc(block);
                                if let Some(a) = r {
                                    self.live = Ghost(self.live@.insert(a, layout));
                                }
                                assert(self@.lists =~~= old(self)@.lists);
                                r
                            },
                            Err(_) => None,
                        }
                    },
                }
            },
            None => {
                let r = self.fallback_alloc(layout);
                if let Some(a) = r {
                    self.live = Ghost(self.live@.insert(a, layout));
                }
                r
            },
        }
    }

    /// Frees the block at `ptr`, which was allocated with `layout`: a block of
    /// a size class becomes the head of the class's list, any other block
    /// goes back to the fallback heap.
    pub fn deallocate(&mut self, ptr: u64, layout: Layout)
        requires
            old(self).wf(),
            old(self)@.live.contains_key(ptr),
            old(self)@.live[ptr] == layout,
        ensures
            final(self).wf(),
            final(self)@ == after_block_dealloc(old(self)@, ptr, layout),
    {
        proof {
            lemma_block_dealloc(self@, ptr, layout);
        }
        match list_index(&layout) {
            Some(index) => {
                self.list_heads[index].push(ptr);
                self.live = Ghost(self.live@.remove(ptr));
                assert(self@.lists =~~= after_block_dealloc(old(self)@, ptr, layout).lists);
            },
            None => {
                self.fallback_allocator.deallocate(ptr, layout);
                self.live = Ghost(self.live@.remove(ptr));
            },
        }
    }
}

} // verus!
