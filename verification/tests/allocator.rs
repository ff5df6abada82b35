use blog_os::allocator::bump::BumpAllocator;
use blog_os::allocator::fixed_size_block::{list_index, FixedSizeBlockAllocator, BLOCK_SIZES};
use blog_os::allocator::linked_list::{LinkedListAllocator, ListNode, NODE_ALIGN, NODE_SIZE};
use blog_os::allocator::{
    align_up, checked_align_up, init_heap, HeapInitStep, Layout, LayoutError, HEAP_PAGES,
    HEAP_SIZE, HEAP_START, MAX_BLOCK_SIZE,
};
use blog_os::memory::{MapToError, Mapping, Page, PhysFrame};
use std::rc::Rc;

fn layout(size: u64, align: u64) -> Layout {
    Layout::from_size_align(size, align).unwrap()
}

fn overlap(a: u64, a_size: u64, b: u64, b_size: u64) -> bool {
    a < b + b_size && b < a + a_size
}

#[test]
fn align_up_rounds_to_the_next_multiple() {
    assert_eq!(align_up(0x1001, 0x1000), 0x2000);
    assert_eq!(align_up(0x1000, 0x1000), 0x1000);
    assert_eq!(align_up(0, 8), 0);
    assert_eq!(align_up(1, 8), 8);
    assert_eq!(align_up(13, 1), 13);
    assert_eq!(align_up(u64::MAX - 15, 8), u64::MAX - 15);
    assert_eq!(align_up(0x7fff_ffff_ffff_ffff, 0x8000_0000_0000_0000), 0x8000_0000_0000_0000);
}

#[test]
fn checked_align_up_detects_overflow() {
    assert_eq!(checked_align_up(17, 16), Some(32));
    assert_eq!(checked_align_up(u64::MAX, 1), Some(u64::MAX));
    assert_eq!(checked_align_up(u64::MAX, 2), None);
    assert_eq!(checked_align_up(u64::MAX - 6, 8), None);
}

#[test]
fn layout_accepts_powers_of_two_only() {
    assert!(Layout::from_size_align(24, 8).is_ok());
    assert!(Layout::from_size_align(0, 1).is_ok());
    assert_eq!(Layout::from_size_align(24, 0).unwrap_err(), LayoutError);
    assert_eq!(Layout::from_size_align(24, 3).unwrap_err(), LayoutError);
    assert_eq!(Layout::from_size_align(24, 24).unwrap_err(), LayoutError);
    let l = layout(24, 8);
    assert_eq!(l.size(), 24);
    assert_eq!(l.align(), 8);
}

#[test]
fn layout_rejects_a_size_that_overflows_when_padded() {
    assert!(Layout::from_size_align(MAX_BLOCK_SIZE, 1).is_ok());
    assert!(Layout::from_size_align(MAX_BLOCK_SIZE + 1, 1).is_err());
    assert!(Layout::from_size_align(MAX_BLOCK_SIZE - 6, 8).is_err());
    assert!(Layout::from_size_align(MAX_BLOCK_SIZE - 7, 8).is_ok());
    assert!(Layout::from_size_align(u64::MAX, 8).is_err());
}

#[test]
fn layout_align_to_and_pad_to_align() {
    let l = layout(10, 4);
    let a = l.align_to(8).unwrap();
    assert_eq!((a.size(), a.align()), (10, 8));
    let p = a.pad_to_align();
    assert_eq!((p.size(), p.align()), (16, 8));
    let same = layout(10, 16).align_to(8).unwrap();
    assert_eq!((same.size(), same.align()), (10, 16));
    assert!(layout(MAX_BLOCK_SIZE, 1).align_to(8).is_err());
    // the larger of the two alignments counts
    assert_eq!(layout(10, 4).align_to(3).unwrap().align(), 4);
    assert!(layout(10, 2).align_to(3).is_err());
}

#[test]
fn size_align_reserves_room_for_a_node() {
    assert_eq!(LinkedListAllocator::size_align(layout(1, 1)), Some((8, 8)));
    assert_eq!(LinkedListAllocator::size_align(layout(0, 1)), Some((8, 8)));
    assert_eq!(LinkedListAllocator::size_align(layout(9, 2)), Some((16, 8)));
    assert_eq!(LinkedListAllocator::size_align(layout(24, 16)), Some((32, 16)));
    assert_eq!(LinkedListAllocator::size_align(layout(0, 32)), Some((8, 32)));
    assert_eq!(LinkedListAllocator::size_align(layout(MAX_BLOCK_SIZE, 1)), None);
    assert_eq!(NODE_SIZE, 8);
    assert_eq!(NODE_ALIGN, 8);
}

#[test]
fn list_node_addresses() {
    let node = ListNode::new(0x1000, 0x40);
    assert_eq!(node.start_addr(), 0x1000);
    assert_eq!(node.end_addr(), 0x1040);
}

#[test]
fn alloc_from_region_fits_or_fails() {
    let region = ListNode::new(0x1008, 0x38);
    assert_eq!(LinkedListAllocator::alloc_from_region(&region, 0x38, 8), Ok(0x1008));
    assert_eq!(LinkedListAllocator::alloc_from_region(&region, 0x30, 8), Ok(0x1008));
    // the four bytes left over could not hold a node
    assert_eq!(LinkedListAllocator::alloc_from_region(&region, 0x34, 8), Err(()));
    // too large
    assert_eq!(LinkedListAllocator::alloc_from_region(&region, 0x40, 8), Err(()));
    // aligned start at 0x1010, 0x30 bytes up to the end
    assert_eq!(LinkedListAllocator::alloc_from_region(&region, 0x30, 16), Ok(0x1010));
    assert_eq!(LinkedListAllocator::alloc_from_region(&region, 0x38, 16), Err(()));
    // alignment beyond the region
    assert_eq!(LinkedListAllocator::alloc_from_region(&region, 8, 0x1000), Err(()));
    let top = ListNode::new(u64::MAX - 15, 15);
    assert_eq!(LinkedListAllocator::alloc_from_region(&top, 8, 1 << 63), Err(()));
    assert_eq!(LinkedListAllocator::alloc_from_region(&top, u64::MAX, 8), Err(()));
}

#[test]
fn linked_list_allocates_first_fit_and_splits() {
    let mut heap = LinkedListAllocator::new();
    assert_eq!(heap.allocate(layout(8, 8)), None);
    heap.init(0x1000, 0x100);
    let a = heap.allocate(layout(32, 8)).unwrap();
    assert_eq!(a, 0x1000);
    let b = heap.allocate(layout(1, 1)).unwrap();
    assert_eq!(b, 0x1020);
    let c = heap.allocate(layout(16, 64)).unwrap();
    assert_eq!(c, 0x1040);
    // c was padded to its alignment, the rest starts behind it
    let d = heap.allocate(layout(8, 8)).unwrap();
    assert_eq!(d, 0x1080);
}

#[test]
fn linked_list_returns_none_when_nothing_fits() {
    let mut heap = LinkedListAllocator::new();
    heap.init(0x1000, 0x40);
    assert_eq!(heap.allocate(layout(0x48, 8)), None);
    assert_eq!(heap.allocate(layout(0x3c, 8)), Some(0x1000));
    assert_eq!(heap.allocate(layout(1, 1)), None);
}

#[test]
fn linked_list_frees_to_the_front_and_merges_nothing() {
    let mut heap = LinkedListAllocator::new();
    heap.init(0x1000, 0x40);
    let a = heap.allocate(layout(0x20, 8)).unwrap();
    let b = heap.allocate(layout(0x20, 8)).unwrap();
    assert_eq!((a, b), (0x1000, 0x1020));
    heap.deallocate(a, layout(0x20, 8));
    heap.deallocate(b, layout(0x20, 8));
    // the two neighbours are free, and stay two regions
    assert_eq!(heap.allocate(layout(0x40, 8)), None);
    // the region freed last is found first
    assert_eq!(heap.allocate(layout(0x20, 8)), Some(b));
    assert_eq!(heap.allocate(layout(0x20, 8)), Some(a));
}

#[test]
fn linked_list_blocks_are_aligned_and_apart() {
    let mut heap = LinkedListAllocator::new();
    heap.init(0x10000, 0x4000);
    let requests = [(1u64, 1u64), (24, 8), (100, 64), (7, 2), (512, 256), (33, 32), (8, 4)];
    let mut live: Vec<(u64, Layout)> = Vec::new();
    for round in 0..4 {
        for (size, align) in requests {
            let l = layout(size, align);
            let a = heap.allocate(l).unwrap();
            assert_ne!(a, 0);
            assert_eq!(a % align, 0);
            assert!(a >= 0x10000 && a + size <= 0x14000);
            for (b, other) in live.iter() {
                assert!(!overlap(a, size, *b, other.size()));
            }
            live.push((a, l));
        }
        // free every other block that is live
        let mut kept: Vec<(u64, Layout)> = Vec::new();
        for (index, (a, l)) in live.drain(..).enumerate() {
            if (index + round) % 2 == 0 {
                heap.deallocate(a, l);
            } else {
                kept.push((a, l));
            }
        }
        live = kept;
    }
}

#[test]
fn bump_allocator_hands_out_the_heap_in_order() {
    let mut bump = BumpAllocator::new();
    assert_eq!(bump.allocate(layout(1, 1)), None);
    bump.init(0x1000, 0x100);
    assert_eq!(bump.allocate(layout(3, 1)), Some(0x1000));
    assert_eq!(bump.allocate(layout(8, 8)), Some(0x1008));
    assert_eq!(bump.allocate(layout(1, 64)), Some(0x1040));
    assert_eq!(bump.allocate(layout(0x100, 1)), None);
    assert_eq!(bump.allocate(layout(0xbf, 1)), Some(0x1041));
    assert_eq!(bump.allocate(layout(1, 1)), None);
}

#[test]
fn bump_allocator_starts_over_when_all_is_freed() {
    let mut bump = BumpAllocator::new();
    bump.init(0x1000, 0x100);
    let a = bump.allocate(layout(16, 8)).unwrap();
    let b = bump.allocate(layout(16, 8)).unwrap();
    bump.deallocate(a, layout(16, 8));
    assert_eq!(bump.allocate(layout(16, 8)), Some(0x1020));
    bump.deallocate(b, layout(16, 8));
    bump.deallocate(0x1020, layout(16, 8));
    assert_eq!(bump.allocate(layout(16, 8)), Some(0x1000));
}

#[test]
fn block_sizes_are_the_nine_classes() {
    assert_eq!(BLOCK_SIZES, [8, 16, 32, 64, 128, 256, 512, 1024, 2048]);
    for size in BLOCK_SIZES {
        assert!(size.is_power_of_two());
    }
}

#[test]
fn list_index_picks_the_smallest_class_that_fits() {
    assert_eq!(list_index(&layout(0, 1)), Some(0));
    assert_eq!(list_index(&layout(1, 1)), Some(0));
    assert_eq!(list_index(&layout(8, 8)), Some(0));
    assert_eq!(list_index(&layout(9, 1)), Some(1));
    assert_eq!(list_index(&layout(4, 16)), Some(1));
    assert_eq!(list_index(&layout(17, 16)), Some(2));
    assert_eq!(list_index(&layout(2048, 1)), Some(8));
    assert_eq!(list_index(&layout(1, 2048)), Some(8));
    assert_eq!(list_index(&layout(2049, 1)), None);
    assert_eq!(list_index(&layout(1, 4096)), None);
}

#[test]
fn fixed_size_blocks_come_from_the_fallback_with_class_size() {
    let mut heap = FixedSizeBlockAllocator::new();
    assert_eq!(heap.allocate(layout(8, 8)), None);
    heap.init(0x20000, 0x10000);
    // class 32: a block of 32 bytes, aligned to 32
    let a = heap.allocate(layout(20, 4)).unwrap();
    assert_eq!(a, 0x20000);
    // class 64 is served behind it, aligned to 64
    let b = heap.allocate(layout(33, 1)).unwrap();
    assert_eq!(b, 0x20040);
    // no class: the fallback serves the layout itself
    let c = heap.allocate(layout(5000, 8)).unwrap();
    assert_eq!(c % 8, 0);
    assert!(!overlap(c, 5000, a, 32));
    assert!(!overlap(c, 5000, b, 64));
}

#[test]
fn freed_block_is_the_next_of_its_class() {
    let mut heap = FixedSizeBlockAllocator::new();
    heap.init(0x20000, 0x10000);
    let a = heap.allocate(layout(100, 8)).unwrap();
    let b = heap.allocate(layout(128, 8)).unwrap();
    let other = heap.allocate(layout(16, 8)).unwrap();
    assert_ne!(a, b);
    heap.deallocate(a, layout(100, 8));
    heap.deallocate(other, layout(16, 8));
    // another class does not take the block
    let small = heap.allocate(layout(9, 1)).unwrap();
    assert_eq!(small, other);
    // the same class does, whatever the layout of that class
    assert_eq!(heap.allocate(layout(65, 2)), Some(a));
    // last in, first out
    heap.deallocate(a, layout(65, 2));
    heap.deallocate(b, layout(128, 8));
    assert_eq!(heap.allocate(layout(128, 128)), Some(b));
    assert_eq!(heap.allocate(layout(128, 128)), Some(a));
}

#[test]
fn fixed_size_large_blocks_go_back_to_the_fallback() {
    let mut heap = FixedSizeBlockAllocator::new();
    heap.init(0x20000, 0x4000);
    let a = heap.allocate(layout(0x3000, 8)).unwrap();
    assert_eq!(heap.allocate(layout(0x3000, 8)), None);
    heap.deallocate(a, layout(0x3000, 8));
    assert_eq!(heap.allocate(layout(0x3000, 8)), Some(a));
}

#[test]
fn fixed_size_blocks_are_aligned_and_apart() {
    let mut heap = FixedSizeBlockAllocator::new();
    heap.init(HEAP_START, HEAP_SIZE);
    let requests =
        [(1u64, 1u64), (24, 8), (100, 64), (7, 2), (512, 256), (33, 32), (3000, 16), (2048, 2048)];
    let mut live: Vec<(u64, Layout)> = Vec::new();
    for round in 0..6 {
        for (size, align) in requests {
            let l = layout(size, align);
            let a = heap.allocate(l).unwrap();
            assert_ne!(a, 0);
            assert_eq!(a % align, 0);
            assert!(a >= HEAP_START && a + size <= HEAP_START + HEAP_SIZE);
            for (b, other) in live.iter() {
                assert!(!overlap(a, size, *b, other.size()));
            }
            live.push((a, l));
        }
        if round % 2 == 1 {
            while let Some((a, l)) = live.pop() {
                heap.deallocate(a, l);
            }
        }
    }
}

#[test]
fn heap_round_trip() {
    // a boxed integer, then a vector that grows to 500 integers
    let mut heap = FixedSizeBlockAllocator::new();
    heap.init(HEAP_START, HEAP_SIZE);
    let in_heap = |a: u64, size: u64| a >= HEAP_START && a + size <= HEAP_START + HEAP_SIZE;
    let boxed = layout(4, 4);
    let heap_value = heap.allocate(boxed).unwrap();
    assert!(in_heap(heap_value, 4));
    let mut capacity: u64 = 4;
    let mut buffer = heap.allocate(layout(capacity * 4, 4)).unwrap();
    assert!(in_heap(buffer, capacity * 4));
    for len in 0..500u64 {
        if len == capacity {
            let grown = heap.allocate(layout(capacity * 8, 4)).unwrap();
            assert!(in_heap(grown, capacity * 8));
            assert!(!overlap(grown, capacity * 8, buffer, capacity * 4));
            assert!(!overlap(grown, capacity * 8, heap_value, 4));
            heap.deallocate(buffer, layout(capacity * 4, 4));
            buffer = grown;
            capacity *= 2;
        }
    }
    assert_eq!(capacity, 512);
    heap.deallocate(buffer, layout(capacity * 4, 4));
    heap.deallocate(heap_value, boxed);
    // the block of the boxed integer is the next of its class
    assert_eq!(heap.allocate(layout(8, 8)), Some(heap_value));
}

#[test]
fn reference_counted_drop() {
    let reference_counted = Rc::new(vec![1, 2, 3]);
    let cloned_reference = reference_counted.clone();
    assert_eq!(Rc::strong_count(&cloned_reference), 2);
    core::mem::drop(reference_counted);
    assert_eq!(Rc::strong_count(&cloned_reference), 1);
    // what that does to the heap: one block for the vector's buffer, one for
    // the counted box; the clone and the first drop touch neither
    let mut heap = FixedSizeBlockAllocator::new();
    heap.init(HEAP_START, HEAP_SIZE);
    let buffer = heap.allocate(layout(12, 4)).unwrap();
    let counted = heap.allocate(layout(40, 8)).unwrap();
    assert!(!overlap(buffer, 12, counted, 40));
    heap.deallocate(counted, layout(40, 8));
    heap.deallocate(buffer, layout(12, 4));
    assert_eq!(heap.allocate(layout(16, 8)), Some(buffer));
    assert_eq!(heap.allocate(layout(64, 8)), Some(counted));
}

#[test]
fn init_heap_maps_every_page_then_hands_over_the_range() {
    assert_eq!(HEAP_START, 0x4444_4444_0000);
    assert_eq!(HEAP_SIZE, 100 * 1024);
    assert_eq!(HEAP_PAGES, 25);
    for mapped in 0..HEAP_PAGES {
        let frame = PhysFrame { start_address: 0x10_0000 + mapped * 0x1000 };
        let step = init_heap(mapped, Some(frame)).unwrap();
        assert_eq!(
            step,
            HeapInitStep::MapPage(Mapping {
                page: Page { start_address: HEAP_START + mapped * 4096 },
                frame,
                flags: 3,
            })
        );
    }
    assert_eq!(
        init_heap(HEAP_PAGES, None),
        Ok(HeapInitStep::InitAllocator { heap_start: HEAP_START, heap_size: HEAP_SIZE })
    );
    assert_eq!(
        init_heap(HEAP_PAGES, Some(PhysFrame { start_address: 0 })),
        Ok(HeapInitStep::InitAllocator { heap_start: HEAP_START, heap_size: HEAP_SIZE })
    );
}

#[test]
fn init_heap_fails_without_a_frame() {
    assert_eq!(init_heap(0, None), Err(MapToError::FrameAllocationFailed));
    assert_eq!(init_heap(24, None), Err(MapToError::FrameAllocationFailed));
}
