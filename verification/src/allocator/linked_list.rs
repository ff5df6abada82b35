//! A first-fit allocator over a list of free regions.

use crate::allocator::{align_up_spec, checked_align_up, is_power_of_two, Layout};
use vstd::prelude::*;

verus! {

/// Bytes that the header of a free region takes; no free region is smaller.
pub const NODE_SIZE: u64 = 8;

/// Alignment of the header of a free region.
pub const NODE_ALIGN: u64 = 8;

/// A free region of the heap. `start` is the address at which the region, and
/// with it the region's own header, begins.
#[derive(Clone, Copy, Debug, PartialEq, Eq, Structural)]
pub struct ListNode {
    pub start: u64,
    pub size: u64,
}

impl ListNode {
    pub fn new(start: u64, size: u64) -> (node: Self)
        ensures
            node == (ListNode { start, size }),
    {
        ListNode { start, size }
    }

    pub open spec fn spec_end(&self) -> int {
        self.start + self.size
    }

    pub fn start_addr(&self) -> (addr: u64)
        ensures
            addr == self.start,
    {
        self.start
    }

    pub fn end_addr(&self) -> (addr: u64)
        requires
            self.spec_end() <= u64::MAX,
        ensures
            addr == self.spec_end(),
    {
        self.start + self.size
    }
}

/// The blocks `[s1, s1 + n1)` and `[s2, s2 + n2)` share no byte.
pub open spec fn disjoint(s1: u64, n1: u64, s2: u64, n2: u64) -> bool {
    s1 + n1 <= s2 || s2 + n2 <= s1
}

/// A block that can hold a list node: not at address zero, aligned for the
/// header, large enough for it, and inside the address space.
pub open spec fn block_wf(start: u64, size: u64) -> bool {
    &&& start > 0
    &&& start % NODE_ALIGN == 0
    &&& size >= NODE_SIZE
    &&& start + size <= u64::MAX
}

/// What the allocator stands for: the free list, front first, and the blocks
/// that are handed out, each start address with the number of bytes reserved.
pub struct HeapView {
    pub free: Seq<ListNode>,
    pub live: Map<u64, u64>,
}

/// Free regions and live blocks are well formed and pairwise disjoint.
pub open spec fn heap_wf(v: HeapView) -> bool {
    &&& forall|i: int| 0 <= i < v.free.len() ==> block_wf(#[trigger] v.free[i].start, v.free[i].size)
    &&& forall|i: int, j: int|
        0 <= i < j < v.free.len() ==> disjoint(
            #[trigger] v.free[i].start,
            v.free[i].size,
            #[trigger] v.free[j].start,
            v.free[j].size,
        )
    &&& forall|a: u64| #[trigger] v.live.contains_key(a) ==> block_wf(a, v.live[a])
    &&& forall|a: u64, b: u64|
        #[trigger] v.live.contains_key(a) && #[trigger] v.live.contains_key(b) && a != b
            ==> disjoint(a, v.live[a], b, v.live[b])
    &&& forall|i: int, a: u64|
        0 <= i < v.free.len() && #[trigger] v.live.contains_key(a) ==> disjoint(
            #[trigger] v.free[i].start,
            v.free[i].size,
            a,
            v.live[a],
        )
}

/// Where an allocation of `size` bytes aligned to `align` starts inside
/// `region`, if the region can take it: the aligned block must end inside the
/// region, and what is left behind it must be nothing or enough for a node.
pub open spec fn region_fit(region: ListNode, size: u64, align: u64) -> Option<u64> {
    let alloc_start = align_up_spec(region.start as int, align as int);
    let alloc_end = alloc_start + size;
    let excess = region.spec_end() - alloc_end;
    if alloc_end <= u64::MAX && excess >= 0 && (excess == 0 || excess >= NODE_SIZE) {
        Some(alloc_start as u64)
    } else {
        None
    }
}

/// Index of the first region at or after `from` that fits, or the length of
/// the list where none does.
pub open spec fn first_fit_from(free: Seq<ListNode>, size: u64, align: u64, from: int) -> int
    decreases free.len() - from,
{
    if from < 0 || from >= free.len() {
        free.len() as int
    } else if region_fit(free[from], size, align) is Some {
        from
    } else {
        first_fit_from(free, size, align, from + 1)
    }
}

/// Index of the first region of the list that fits, or its length.
pub open spec fn first_fit(free: Seq<ListNode>, size: u64, align: u64) -> int {
    first_fit_from(free, size, align, 0)
}

/// `first_fit_from` is the least fitting index at or after `from`.
pub proof fn lemma_first_fit_from(free: Seq<ListNode>, size: u64, align: u64, from: int)
    requires
        0 <= from <= free.len(),
    ensures
        from <= first_fit_from(free, size, align, from) <= free.len(),
        first_fit_from(free, size, align, from) < free.len() ==> region_fit(
            free[first_fit_from(free, size, align, from)],
            size,
            align,
        ) is Some,
        forall|j: int|
            from <= j < first_fit_from(free, size, align, from) ==> region_fit(
                #[trigger] free[j],
                size,
                align,
            ) is None,
    decreases free.len() - from,
{
    if from < free.len() && region_fit(free[from], size, align) is None {
        lemma_first_fit_from(free, size, align, from + 1);
    }
}

/// The size and alignment that the allocator reserves for `layout`: the
/// alignment raised to that of a node, the size rounded up to it and raised to
/// the size of a node. `None` where the rounded size is no valid block size.
pub open spec fn size_align_spec(layout: Layout) -> Option<(u64, u64)> {
    match layout.spec_align_to(NODE_ALIGN) {
        Ok(aligned) => {
            let padded = aligned.spec_pad_to_align();
            Some(
                (
                    if padded.spec_size() >= NODE_SIZE {
                        padded.spec_size()
                    } else {
                        NODE_SIZE
                    },
                    padded.spec_align(),
                ),
            )
        },
        Err(_) => None,
    }
}

/// A multiple of a multiple of the node alignment is a multiple of it.
pub proof fn lemma_multiple_of_node_align(x: int, m: int)
    requires
        m > 0,
        m % (NODE_ALIGN as int) == 0,
        x % m == 0,
    ensures
        x % (NODE_ALIGN as int) == 0,
{
    let b = m / (NODE_ALIGN as int);
    vstd::arithmetic::div_mod::lemma_fundamental_div_mod(m, NODE_ALIGN as int);
    assert(b > 0);
    vstd::arithmetic::div_mod::lemma_mod_mod(x, NODE_ALIGN as int, b);
}

/// What `size_align_spec` reserves: at least the bytes asked for, a multiple
/// of the node alignment, at an alignment that serves both the caller and a node.
pub proof fn lemma_size_align(layout: Layout)
    requires
        layout.wf(),
    ensures
        size_align_spec(layout) matches Some((size, align)) ==> {
            &&& is_power_of_two(align)
            &&& align == if layout.spec_align() >= NODE_ALIGN {
                layout.spec_align()
            } else {
                NODE_ALIGN
            }
            &&& align % NODE_ALIGN == 0
            &&& size >= NODE_SIZE
            &&& size >= layout.spec_size()
            &&& size % NODE_ALIGN == 0
            &&& size <= crate::allocator::MAX_BLOCK_SIZE
        },
        size_align_spec(layout) is None <==> !crate::allocator::valid_layout(
            layout.spec_size(),
            if layout.spec_align() >= NODE_ALIGN {
                layout.spec_align()
            } else {
                NODE_ALIGN
            },
        ),
{
    let larger = if layout.spec_align() >= NODE_ALIGN {
        layout.spec_align()
    } else {
        NODE_ALIGN
    };
    Layout::lemma_spec_new(layout.spec_size(), larger);
    assert(is_power_of_two(8u64)) by (bit_vector);
    let a = layout.spec_align();
    assert(a > 0 && a & ((a - 1) as u64) == 0 && a >= 8 ==> a % 8 == 0) by (bit_vector);
    if size_align_spec(layout) is Some {
        let padded_size = align_up_spec(layout.spec_size() as int, larger as int);
        crate::allocator::lemma_align_up_is_least_multiple(layout.spec_size() as int, larger as int);
        Layout::lemma_spec_new(padded_size as u64, larger);
        lemma_multiple_of_node_align(padded_size, larger as int);
    }
}

/// The heap after a region is put at the front of the free list.
pub open spec fn after_add_free_region(v: HeapView, addr: u64, size: u64) -> HeapView {
    HeapView { free: seq![ListNode { start: addr, size }] + v.free, live: v.live }
}

/// The block `[addr, addr + size)` shares no byte with a free region or a live
/// block of `v`.
pub open spec fn new_region_is_apart(v: HeapView, addr: u64, size: u64) -> bool {
    &&& forall|i: int|
        0 <= i < v.free.len() ==> disjoint(addr, size, (#[trigger] v.free[i]).start, v.free[i].size)
    &&& forall|a: u64| #[trigger] v.live.contains_key(a) ==> disjoint(addr, size, a, v.live[a])
}

/// A well-formed block that is apart from the heap may join its free list.
pub proof fn lemma_add_free_region(v: HeapView, addr: u64, size: u64)
    requires
        heap_wf(v),
        block_wf(addr, size),
        new_region_is_apart(v, addr, size),
    ensures
        heap_wf(after_add_free_region(v, addr, size)),
{
    let before = v.free;
    let w = after_add_free_region(v, addr, size);
    let after = w.free;
    assert forall|i: int| 0 <= i < after.len() implies block_wf(
        #[trigger] after[i].start,
        after[i].size,
    ) by {
        if i > 0 {
            assert(after[i] == before[i - 1]);
        }
    }
    assert forall|i: int, j: int| 0 <= i < j < after.len() implies disjoint(
        #[trigger] after[i].start,
        after[i].size,
        #[trigger] after[j].start,
        after[j].size,
    ) by {
        assert(after[j] == before[j - 1]);
        if i > 0 {
            assert(after[i] == before[i - 1]);
        }
    }
    assert forall|i: int, a: u64|
        0 <= i < after.len() && #[trigger] w.live.contains_key(a) implies disjoint(
        #[trigger] after[i].start,
        after[i].size,
        a,
        w.live[a],
    ) by {
        if i > 0 {
            assert(after[i] == before[i - 1]);
            assert(disjoint(before[i - 1].start, before[i - 1].size, a, v.live[a]));
        } else {
            assert(disjoint(addr, size, a, v.live[a]));
        }
    }
}

/// The address that `alloc` returns on the heap `v`: the fitting address in
/// the first region of the free list that fits, `None` where none does.
pub open spec fn alloc_result(v: HeapView, layout: Layout) -> Option<u64> {
    match size_align_spec(layout) {
        Some((size, align)) => {
            let i = first_fit(v.free, size, align);
            if i < v.free.len() {
                region_fit(v.free[i], size, align)
            } else {
                None
            }
        },
        None => None,
    }
}

/// The heap after `alloc`: the first fitting region has left the free list,
/// what it holds behind the new block is back at the front of the list, and
/// the new block is live.
pub open spec fn after_alloc(v: HeapView, layout: Layout) -> HeapView {
    match (size_align_spec(layout), alloc_result(v, layout)) {
        (Some((size, align)), Some(alloc_start)) => {
            let i = first_fit(v.free, size, align);
            let alloc_end = (alloc_start + size) as u64;
            let excess = (v.free[i].spec_end() - alloc_end) as u64;
            let rest = v.free.remove(i);
            HeapView {
                free: if excess > 0 {
                    seq![ListNode { start: alloc_end, size: excess }] + rest
                } else {
                    rest
                },
                live: v.live.insert(alloc_start, size),
            }
        },
        _ => v,
    }
}

/// The heap after `dealloc`: the block is no longer live, and the bytes that
/// were reserved for it are a region at the front of the free list.
pub open spec fn after_dealloc(v: HeapView, ptr: u64, layout: Layout) -> HeapView {
    match size_align_spec(layout) {
        Some((size, _)) => HeapView {
            free: seq![ListNode { start: ptr, size }] + v.free,
            live: v.live.remove(ptr),
        },
        None => v,
    }
}

/// Taking a region out of the free list keeps the heap well formed, and the
/// region shares no byte with what stays.
pub proof fn lemma_take_region(v: HeapView, i: int)
    requires
        heap_wf(v),
        0 <= i < v.free.len(),
    ensures
        heap_wf(HeapView { free: v.free.remove(i), live: v.live }),
        block_wf(v.free[i].start, v.free[i].size),
        new_region_is_apart(
            HeapView { free: v.free.remove(i), live: v.live },
            v.free[i].start,
            v.free[i].size,
        ),
{
    let node = v.free[i];
    let rest = v.free.remove(i);
    assert forall|k: int| 0 <= k < rest.len() implies {
        &&& block_wf(#[trigger] rest[k].start, rest[k].size)
        &&& disjoint(node.start, node.size, rest[k].start, rest[k].size)
    } by {
        let k0 = if k < i {
            k
        } else {
            k + 1
        };
        assert(rest[k] == v.free[k0]);
        assert(block_wf(v.free[k0].start, v.free[k0].size));
        if k0 < i {
            assert(disjoint(v.free[k0].start, v.free[k0].size, v.free[i].start, v.free[i].size));
        } else {
            assert(disjoint(v.free[i].start, v.free[i].size, v.free[k0].start, v.free[k0].size));
        }
    }
    assert forall|k: int, l: int| 0 <= k < l < rest.len() implies disjoint(
        #[trigger] rest[k].start,
        rest[k].size,
        #[trigger] rest[l].start,
        rest[l].size,
    ) by {
        let k0 = if k < i {
            k
        } else {
            k + 1
        };
        let l0 = if l < i {
            l
        } else {
            l + 1
        };
        assert(rest[k] == v.free[k0]);
        assert(rest[l] == v.free[l0]);
        assert(disjoint(v.free[k0].start, v.free[k0].size, v.free[l0].start, v.free[l0].size));
    }
    assert forall|b: u64| #[trigger] v.live.contains_key(b) implies disjoint(
        node.start,
        node.size,
        b,
        v.live[b],
    ) by {
        assert(disjoint(v.free[i].start, v.free[i].size, b, v.live[b]));
    }
    assert forall|k: int, b: u64|
        0 <= k < rest.len() && #[trigger] v.live.contains_key(b) implies disjoint(
        #[trigger] rest[k].start,
        rest[k].size,
        b,
        v.live[b],
    ) by {
        let k0 = if k < i {
            k
        } else {
            k + 1
        };
        assert(rest[k] == v.free[k0]);
        assert(disjoint(v.free[k0].start, v.free[k0].size, b, v.live[b]));
    }
}

/// A part of a block that is apart from the heap is apart from it too.
pub proof fn lemma_part_is_apart(v: HeapView, start: u64, size: u64, part: u64, part_size: u64)
    requires
        new_region_is_apart(v, start, size),
        start <= part,
        part + part_size <= start + size,
    ensures
        new_region_is_apart(v, part, part_size),
{
    assert forall|i: int| 0 <= i < v.free.len() implies disjoint(
        part,
        part_size,
        (#[trigger] v.free[i]).start,
        v.free[i].size,
    ) by {
        assert(disjoint(start, size, v.free[i].start, v.free[i].size));
    }
    assert forall|a: u64| #[trigger] v.live.contains_key(a) implies disjoint(
        part,
        part_size,
        a,
        v.live[a],
    ) by {
        assert(disjoint(start, size, a, v.live[a]));
    }
}

/// A well-formed block that is apart from the heap may become a live block.
pub proof fn lemma_place_block(v: HeapView, a: u64, size: u64)
    requires
        heap_wf(v),
        block_wf(a, size),
        new_region_is_apart(v, a, size),
    ensures
        !v.live.contains_key(a),
        heap_wf(HeapView { free: v.free, live: v.live.insert(a, size) }),
{
    let w = HeapView { free: v.free, live: v.live.insert(a, size) };
    if v.live.contains_key(a) {
        assert(disjoint(a, size, a, v.live[a]));
        assert(block_wf(a, v.live[a]));
    }
    assert forall|b: u64, c: u64|
        #[trigger] w.live.contains_key(b) && #[trigger] w.live.contains_key(c) && b
            != c implies disjoint(b, w.live[b], c, w.live[c]) by {
        if b == a {
            assert(disjoint(a, size, c, v.live[c]));
        } else if c == a {
            assert(disjoint(a, size, b, v.live[b]));
        }
    }
    assert forall|i: int, b: u64|
        0 <= i < w.free.len() && #[trigger] w.live.contains_key(b) implies disjoint(
        #[trigger] w.free[i].start,
        w.free[i].size,
        b,
        w.live[b],
    ) by {
        if b == a {
            assert(disjoint(a, size, v.free[i].start, v.free[i].size));
        }
    }
}

/// Every block that `alloc` hands out is not null, is aligned as the layout
/// asks, holds at least the bytes asked for and shares no byte with a block
/// that is live; `alloc` fails only where no free region fits; and the heap
/// stays well formed.
pub proof fn lemma_alloc(v: HeapView, layout: Layout)
    requires
        heap_wf(v),
        layout.wf(),
    ensures
        heap_wf(after_alloc(v, layout)),
        alloc_result(v, layout) matches Some(a) ==> {
            &&& a > 0
            &&& a % layout.spec_align() == 0
            &&& !v.live.contains_key(a)
            &&& size_align_spec(layout) matches Some((size, _)) && size >= layout.spec_size()
                && after_alloc(v, layout).live == v.live.insert(a, size)
            &&& forall|b: u64| #[trigger]
                v.live.contains_key(b) ==> disjoint(a, layout.spec_size(), b, v.live[b])
        },
        alloc_result(v, layout) is None ==> after_alloc(v, layout) == v,
        alloc_result(v, layout) is Some <==> (size_align_spec(layout) matches Some((size, align))
            && exists|i: int|
            0 <= i < v.free.len() && region_fit(#[trigger] v.free[i], size, align) is Some),
{
    lemma_size_align(layout);
    match size_align_spec(layout) {
        None => {},
        Some((size, align)) => {
            lemma_first_fit_from(v.free, size, align, 0);
            let i = first_fit(v.free, size, align);
            if i < v.free.len() {
                let node = v.free[i];
                let a = region_fit(node, size, align).unwrap();
                lemma_take_region(v, i);
                crate::allocator::lemma_align_up_is_least_multiple(node.start as int, align as int);
                lemma_multiple_of_node_align(a as int, align as int);
                lemma_aligned_for_layout(a, layout);
                let rest = v.free.remove(i);
                let alloc_end = (a + size) as u64;
                let excess = (node.spec_end() - alloc_end) as u64;
                let taken = HeapView { free: rest, live: v.live };
                lemma_part_is_apart(taken, node.start, node.size, a, size);
                lemma_place_block(taken, a, size);
                let placed = HeapView { free: rest, live: v.live.insert(a, size) };
                assert forall|b: u64| #[trigger] v.live.contains_key(b) implies disjoint(
                    a,
                    layout.spec_size(),
                    b,
                    v.live[b],
                ) by {
                    assert(disjoint(a, size, b, v.live[b]));
                }
                if excess > 0 {
                    lemma_part_is_apart(taken, node.start, node.size, alloc_end, excess);
                    assert(new_region_is_apart(placed, alloc_end, excess)) by {
                        assert forall|b: u64| #[trigger] placed.live.contains_key(b) implies disjoint(
                            alloc_end,
                            excess,
                            b,
                            placed.live[b],
                        ) by {
                            if b != a {
                                assert(v.live.contains_key(b));
                            }
                        }
                    }
                    lemma_add_free_region(placed, alloc_end, excess);
                    assert(after_alloc(v, layout) == after_add_free_region(
                        placed,
                        alloc_end,
                        excess,
                    ));
                } else {
                    assert(after_alloc(v, layout) == placed);
                }
            } else {
                assert forall|j: int| 0 <= j < v.free.len() implies region_fit(
                    #[trigger] v.free[j],
                    size,
                    align,
                ) is None by {}
            }
        },
    }
}

/// An address aligned for the reserved alignment of a layout is aligned for
/// the layout.
pub proof fn lemma_aligned_for_layout(a: u64, layout: Layout)
    requires
        layout.wf(),
        size_align_spec(layout) matches Some((_, align)) && a % align == 0,
    ensures
        a % layout.spec_align() == 0,
{
    lemma_size_align(layout);
    let align = size_align_spec(layout).unwrap().1;
    let p = layout.spec_align();
    assert(p > 0 && p & ((p - 1) as u64) == 0 && p < 8 ==> p == 1 || p == 2 || p == 4)
        by (bit_vector);
    if p < 8 {
        assert(a % 8 == 0);
        if p == 1 {
            assert(a % 1 == 0);
        } else if p == 2 {
            assert(a % 2 == 0);
        } else {
            assert(a % 4 == 0);
        }
    }
}

/// Freeing a live block with the layout it was allocated with keeps the heap
/// well formed.
pub proof fn lemma_dealloc(v: HeapView, ptr: u64, layout: Layout)
    requires
        heap_wf(v),
        v.live.contains_key(ptr),
        size_align_spec(layout) matches Some((size, _)) && v.live[ptr] == size,
    ensures
        heap_wf(after_dealloc(v, ptr, layout)),
{
    let w = after_dealloc(v, ptr, layout);
    let size = v.live[ptr];
    assert(block_wf(ptr, size));
    assert forall|k: int| 0 <= k < w.free.len() implies block_wf(
        #[trigger] w.free[k].start,
        w.free[k].size,
    ) by {
        if k > 0 {
            assert(w.free[k] == v.free[k - 1]);
        }
    }
    assert forall|k: int, l: int| 0 <= k < l < w.free.len() implies disjoint(
        #[trigger] w.free[k].start,
        w.free[k].size,
        #[trigger] w.free[l].start,
        w.free[l].size,
    ) by {
        assert(w.free[l] == v.free[l - 1]);
        if k > 0 {
            assert(w.free[k] == v.free[k - 1]);
        } else {
            assert(disjoint(v.free[l - 1].start, v.free[l - 1].size, ptr, v.live[ptr]));
        }
    }
    assert forall|k: int, b: u64|
        0 <= k < w.free.len() && #[trigger] w.live.contains_key(b) implies disjoint(
        #[trigger] w.free[k].start,
        w.free[k].size,
        b,
        w.live[b],
    ) by {
        assert(v.live.contains_key(b));
        if k > 0 {
            assert(w.free[k] == v.free[k - 1]);
            assert(disjoint(v.free[k - 1].start, v.free[k - 1].size, b, v.live[b]));
        }
    }
}

/// Every free region and every live block lies in `[start, end)`.
pub open spec fn heap_within(v: HeapView, start: u64, end: u64) -> bool {
    &&& forall|i: int|
        0 <= i < v.free.len() ==> start <= (#[trigger] v.free[i]).start && v.free[i].spec_end()
            <= end
    &&& forall|a: u64| #[trigger] v.live.contains_key(a) ==> start <= a && a + v.live[a] <= end
}

/// The heap never grows: what lies inside the range that was handed to the
/// allocator stays inside it when a block is allocated, and the block lies
/// inside it too.
pub proof fn lemma_alloc_stays_within(v: HeapView, layout: Layout, start: u64, end: u64)
    requires
        heap_wf(v),
        layout.wf(),
        heap_within(v, start, end),
    ensures
        heap_within(after_alloc(v, layout), start, end),
        alloc_result(v, layout) matches Some(a) ==> start <= a && a + layout.spec_size() <= end,
{
    lemma_alloc(v, layout);
    lemma_size_align(layout);
    match size_align_spec(layout) {
        None => {},
        Some((size, align)) => {
            lemma_first_fit_from(v.free, size, align, 0);
            let i = first_fit(v.free, size, align);
            if i < v.free.len() {
                let node = v.free[i];
                let a = region_fit(node, size, align).unwrap();
                crate::allocator::lemma_align_up_is_least_multiple(node.start as int, align as int);
                let w = after_alloc(v, layout);
                let rest = v.free.remove(i);
                let alloc_end = (a + size) as u64;
                let excess = (node.spec_end() - alloc_end) as u64;
                assert forall|k: int| 0 <= k < rest.len() implies start <= (#[trigger] rest[k]).start
                    && rest[k].spec_end() <= end by {
                    let k0 = if k < i {
                        k
                    } else {
                        k + 1
                    };
                    assert(rest[k] == v.free[k0]);
                }
                assert forall|k: int| 0 <= k < w.free.len() implies start <= (#[trigger] w.free[k]).start
                    && w.free[k].spec_end() <= end by {
                    if excess > 0 {
                        if k > 0 {
                            assert(w.free[k] == rest[k - 1]);
                        }
                    } else {
                        assert(w.free[k] == rest[k]);
                    }
                }
            }
        },
    }
}

/// What lies inside the range that was handed to the allocator stays inside
/// it when a block is freed.
pub proof fn lemma_dealloc_stays_within(
    v: HeapView,
    ptr: u64,
    layout: Layout,
    start: u64,
    end: u64,
)
    requires
        heap_within(v, start, end),
        v.live.contains_key(ptr),
        size_align_spec(layout) matches Some((size, _)) && v.live[ptr] == size,
    ensures
        heap_within(after_dealloc(v, ptr, layout), start, end),
{
    let w = after_dealloc(v, ptr, layout);
    assert forall|k: int| 0 <= k < w.free.len() implies start <= (#[trigger] w.free[k]).start
        && w.free[k].spec_end() <= end by {
        if k > 0 {
            assert(w.free[k] == v.free[k - 1]);
        }
    }
}

/// After `init` the heap lies inside the range that was handed over.
pub proof fn lemma_init_is_within(heap_start: u64, heap_size: u64)
    requires
        heap_start + heap_size <= u64::MAX,
    ensures
        heap_within(
            after_add_free_region(
                HeapView { free: Seq::empty(), live: Map::empty() },
                heap_start,
                heap_size,
            ),
            heap_start,
            (heap_start + heap_size) as u64,
        ),
{
}

/// A first-fit allocator over a list of free regions. It splits a region when
/// it allocates from it and never merges two regions.
pub struct LinkedListAllocator {
    head: Vec<ListNode>,
    live: Ghost<Map<u64, u64>>,
}

impl View for LinkedListAllocator {
    type V = HeapView;

    closed spec fn view(&self) -> HeapView {
        HeapView { free: self.head@, live: self.live@ }
    }
}

impl LinkedListAllocator {
    pub open spec fn wf(&self) -> bool {
        heap_wf(self@)
    }

    /// Creates an allocator that manages no memory yet.
    pub fn new() -> (allocator: Self)
        ensures
            allocator@.free == Seq::<ListNode>::empty(),
            allocator@.live == Map::<u64, u64>::empty(),
            allocator.wf(),
    {
        LinkedListAllocator { head: Vec::new(), live: Ghost(Map::empty()) }
    }

    /// Hands the heap `[heap_start, heap_start + heap_size)` to an allocator
    /// that manages nothing yet.
    pub fn init(&mut self, heap_start: u64, heap_size: u64)
        requires
            old(self)@.free.len() == 0,
            old(self)@.live == Map::<u64, u64>::empty(),
            block_wf(heap_start, heap_size),
        ensures
            final(self)@ == after_add_free_region(old(self)@, heap_start, heap_size),
            final(self).wf(),
    {
        assert(old(self)@.live.dom() =~= Set::<u64>::empty());
        self.add_free_region(heap_start, heap_size);
    }

    /// Puts the region `[addr, addr + size)` at the front of the free list.
    /// The heap stays well formed where the region shares no byte with a free
    /// region or a live block.
    pub fn add_free_region(&mut self, addr: u64, size: u64)
        requires
            block_wf(addr, size),
        ensures
            final(self)@ == after_add_free_region(old(self)@, addr, size),
            old(self).wf() && new_region_is_apart(old(self)@, addr, size) ==> final(self).wf(),
    {
        let node = ListNode::new(addr, size);
        self.head.insert(0, node);
        proof {
            assert(self@.free =~= seq![node] + old(self)@.free);
            if old(self).wf() && new_region_is_apart(old(self)@, addr, size) {
                lemma_add_free_region(old(self)@, addr, size);
            }
        }
    }

    /// Tries to place `size` bytes aligned to `align` in `region`, and returns
    /// the address at which the block would start.
    pub fn alloc_from_region(region: &ListNode, size: u64, align: u64) -> (r: Result<u64, ()>)
        requires
            align > 0,
            region.spec_end() <= u64::MAX,
        ensures
            r == match region_fit(*region, size, align) {
                Some(alloc_start) => Ok::<u64, ()>(alloc_start),
                None => Err::<u64, ()>(()),
            },
    {
        proof {
            crate::allocator::lemma_align_up_is_least_multiple(region.start as int, align as int);
        }
        let alloc_start = match checked_align_up(region.start_addr(), align) {
            Some(alloc_start) => alloc_start,
            None => { return Err(()); },
        };
        let alloc_end = match alloc_start.checked_add(size) {
            Some(alloc_end) => alloc_end,
            None => { return Err(()); },
        };
        if alloc_end > region.end_addr() {
            // region too small
            return Err(());
        }
        let excess_size = region.end_addr() - alloc_end;
        if excess_size > 0 && excess_size < NODE_SIZE {
            // rest of region too small to hold a node
            return Err(());
        }
        Ok(alloc_start)
    }

    /// Takes the first region that fits out of the free list, and returns it
    /// with the address at which the block starts in it.
    pub fn find_region(&mut self, size: u64, align: u64) -> (r: Option<(ListNode, u64)>)
        requires
            old(self).wf(),
            align > 0,
        ensures
            final(self)@.live == old(self)@.live,
            ({
                let free = old(self)@.free;
                let i = first_fit(free, size, align);
                if i < free.len() {
                    &&& region_fit(free[i], size, align) matches Some(alloc_start)
                    &&& r == Some((free[i], alloc_start))
                    &&& final(self)@.free == free.remove(i)
                } else {
                    &&& r is None
                    &&& final(self)@.free == free
                }
            }),
    {
        let mut i: usize = 0;
        while i < self.head.len()
            invariant
                0 <= i <= self.head.len(),
                align > 0,
                *self == *old(self),
                self.wf(),
                first_fit(self@.free, size, align) == first_fit_from(
                    self@.free,
                    size,
                    align,
                    i as int,
                ),
            decreases self.head.len() - i,
        {
            let region = self.head[i];
            match Self::alloc_from_region(&region, size, align) {
                Ok(alloc_start) => {
                    let node = self.head.remove(i);
                    return Some((node, alloc_start));
                },
                Err(_) => {
                    i += 1;
                },
            }
        }
        None
    }

    /// The size and alignment that the allocator reserves for `layout`.
    pub fn size_align(layout: Layout) -> (r: Option<(u64, u64)>)
        ensures
            r == size_align_spec(layout),
    {
        match layout.align_to(NODE_ALIGN) {
            Ok(aligned) => {
                let padded = aligned.pad_to_align();
                let size = if padded.size() >= NODE_SIZE {
                    padded.size()
                } else {
                    NODE_SIZE
                };
                Some((size, padded.align()))
            },
            Err(_) => None,
        }
    }

    /// Allocates a block for `layout` from the first free region that fits,
    /// and returns its address, or `None` where no region fits.
    pub fn allocate(&mut self, layout: Layout) -> (r: Option<u64>)
        requires
            old(self).wf(),
        ensures
            final(self).wf(),
            r == alloc_result(old(self)@, layout),
            final(self)@ == after_alloc(old(self)@, layout),
            r is Some <==> (size_align_spec(layout) matches Some((size, align)) && exists|i: int|
                0 <= i < old(self)@.free.len() && region_fit(
                    #[trigger] old(self)@.free[i],
                    size,
                    align,
                ) is Some),
            r matches Some(a) ==> {
                &&& a > 0
                &&& a % layout.spec_align() == 0
                &&& forall|b: u64| #[trigger]
                    old(self)@.live.contains_key(b) ==> disjoint(
                        a,
                        layout.spec_size(),
                        b,
                        old(self)@.live[b],
                    )
            },
    {
        proof {
            use_type_invariant(&layout);
            lemma_alloc(self@, layout);
            lemma_size_align(layout);
        }
        let (size, align) = match Self::size_align(layout) {
            Some(size_align) => size_align,
            None => { return None; },
        };
        match self.find_region(size, align) {
            Some((region, alloc_start)) => {
                proof {
                    let i = first_fit(old(self)@.free, size, align);
                    lemma_first_fit_from(old(self)@.free, size, align, 0);
                    assert(block_wf(old(self)@.free[i].start, old(self)@.free[i].size));
                    crate::allocator::lemma_align_up_is_least_multiple(
                        region.start as int,
                        align as int,
                    );
                }
                let alloc_end = alloc_start + size;
                let excess_size = region.end_addr() - alloc_end;
                self.live = Ghost(self.live@.insert(alloc_start, size));
                if excess_size > 0 {
                    proof {
                        let after = after_alloc(old(self)@, layout);
                        assert(after.free[0] == ListNode { start: alloc_end, size: excess_size });
                        assert(block_wf(after.free[0].start, after.free[0].size));
                    }
                    self.add_free_region(alloc_end, excess_size);
                }
                assert(self@.free =~= after_alloc(old(self)@, layout).free);
                Some(alloc_start)
            },
            None => None,
        }
    }

    /// Frees the block at `ptr`, which was allocated with `layout`: the bytes
    /// reserved for it go to the front of the free list.
    pub fn deallocate(&mut self, ptr: u64, layout: Layout)
        requires
            old(self).wf(),
            old(self)@.live.contains_key(ptr),
            size_align_spec(layout) matches Some((size, _)) && old(self)@.live[ptr] == size,
        ensures
            final(self).wf(),
            final(self)@ == after_dealloc(old(self)@, ptr, layout),
    {
        proof {
            lemma_dealloc(self@, ptr, layout);
        }
        match Self::size_align(layout) {
            Some((size, _)) => {
                self.live = Ghost(self.live@.remove(ptr));
                self.add_free_region(ptr, size);
                assert(self@.free =~= after_dealloc(old(self)@, ptr, layout).free);
            },
            None => {},
        }
    }
}

} // verus!
