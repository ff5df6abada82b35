//! Pages, frames and mappings, and the allocator of the frames that the
//! bootloader found usable.

use bootloader::bootinfo::{MemoryMap, MemoryRegionType};
use vstd::prelude::*;

verus! {

/// Bytes in a page and in a frame.
pub const PAGE_SIZE: u64 = 4096;

/// First address that is no physical address: physical addresses have 52 bits.
pub const PHYS_ADDR_LIMIT: u64 = 0x10_0000_0000_0000;

/// First frame number that is no frame number.
pub const FRAME_NUMBER_LIMIT: u64 = 0x100_0000_0000;

/// A virtual address is canonical where its bits 47 to 63 are all equal.
pub open spec fn is_canonical(addr: u64) -> bool {
    addr < 0x8000_0000_0000 || addr >= 0xffff_8000_0000_0000
}

/// A 4 KiB block of physical memory, named by the address of its first byte.
#[derive(Clone, Copy, Debug, PartialEq, Eq, Structural)]
pub struct PhysFrame {
    pub start_address: u64,
}

/// A 4 KiB block of virtual memory, named by the address of its first byte.
#[derive(Clone, Copy, Debug, PartialEq, Eq, Structural)]
pub struct Page {
    pub start_address: u64,
}

/// The start of the block of `PAGE_SIZE` bytes that holds `addr`.
pub open spec fn align_down_spec(addr: u64) -> u64 {
    (addr - addr % PAGE_SIZE) as u64
}

/// Calls `PhysFrame::containing_address` of x86_64 on `PhysAddr::new(addr)`,
/// which panics on an address of more than 52 bits: the result is the start
/// address of the 4 KiB frame that holds `addr`.
#[verifier::external_body]
fn frame_containing_address(addr: u64) -> (start: u64)
    requires
        addr < PHYS_ADDR_LIMIT,
    ensures
        start == align_down_spec(addr),
{
    let frame: x86_64::structures::paging::PhysFrame =
        x86_64::structures::paging::PhysFrame::containing_address(x86_64::PhysAddr::new(addr));
    frame.start_address().as_u64()
}

/// Calls `Page::containing_address` of x86_64 on `VirtAddr::new(addr)`, which
/// keeps a canonical address as it is: the result is the start address of the
/// 4 KiB page that holds `addr`.
#[verifier::external_body]
fn page_containing_address(addr: u64) -> (start: u64)
    requires
        is_canonical(addr),
    ensures
        start == align_down_spec(addr),
{
    let page: x86_64::structures::paging::Page =
        x86_64::structures::paging::Page::containing_address(x86_64::VirtAddr::new(addr));
    page.start_address().as_u64()
}

/// Calls `VirtAddr + u64` of x86_64, which adds the offset to the address and
/// panics where the sum overflows or is not canonical.
#[verifier::external_body]
pub(crate) fn virt_addr_offset(addr: u64, offset: u64) -> (sum: u64)
    requires
        is_canonical(addr),
        addr + offset <= u64::MAX,
        is_canonical((addr + offset) as u64),
    ensures
        sum == addr + offset,
{
    (x86_64::VirtAddr::new(addr) + offset).as_u64()
}

/// Calls `PageTableFlags::bits` of x86_64 on `PRESENT | WRITABLE`: bit 0 and
/// bit 1 of a page-table entry.
#[verifier::external_body]
pub(crate) fn present_writable_bits() -> (bits: u64)
    ensures
        bits == 3,
{
    (x86_64::structures::paging::PageTableFlags::PRESENT
        | x86_64::structures::paging::PageTableFlags::WRITABLE).bits()
}

impl PhysFrame {
    /// The frame that holds the physical address `addr`.
    pub fn containing_address(addr: u64) -> (frame: Self)
        requires
            addr < PHYS_ADDR_LIMIT,
        ensures
            frame.start_address == align_down_spec(addr),
    {
        PhysFrame { start_address: frame_containing_address(addr) }
    }
}

impl Page {
    /// The page that holds the virtual address `addr`.
    pub fn containing_address(addr: u64) -> (page: Self)
        requires
            is_canonical(addr),
        ensures
            page.start_address == align_down_spec(addr),
    {
        Page { start_address: page_containing_address(addr) }
    }
}

/// Why the library asks for no mapping of a page.
#[derive(Clone, Copy, Debug, PartialEq, Eq)]
pub enum MapToError {
    /// A frame was needed and the frame allocator had none left.
    FrameAllocationFailed,
}

/// A request to map `page` to `frame` with the flag bits `flags`.
#[derive(Clone, Copy, Debug, PartialEq, Eq)]
pub struct Mapping {
    pub page: Page,
    pub frame: PhysFrame,
    pub flags: u64,
}

/// Flag bit of a page-table entry that is present.
pub const PRESENT: u64 = 1;

impl Mapping {
    /// The physical address that `addr` stands for under this mapping: the
    /// byte at the same offset in the frame, for an address in the page of a
    /// mapping that is present; `None` for any other.
    pub open spec fn translate_spec(self, addr: u64) -> Option<u64> {
        if self.flags & PRESENT == PRESENT && self.page.start_address <= addr
            < self.page.start_address + PAGE_SIZE {
            Some((self.frame.start_address + (addr - self.page.start_address)) as u64)
        } else {
            None
        }
    }

    /// Translates a virtual address that lies in the page of this mapping.
    pub fn translate(&self, addr: u64) -> (phys: Option<u64>)
        requires
            self.page.start_address + PAGE_SIZE <= u64::MAX,
            self.frame.start_address + PAGE_SIZE <= u64::MAX,
        ensures
            phys == self.translate_spec(addr),
    {
        if self.flags & PRESENT == PRESENT && self.page.start_address <= addr && addr
            < self.page.start_address + PAGE_SIZE {
            Some(self.frame.start_address + (addr - self.page.start_address))
        } else {
            None
        }
    }
}

/// Every byte of a page that is mapped with the present flag is found at the
/// same offset in its frame, and the twelve low bits of the address are
/// those of the offset.
pub proof fn lemma_mapping_round_trip(mapping: Mapping, offset: u64)
    requires
        mapping.flags & PRESENT == PRESENT,
        mapping.page.start_address % PAGE_SIZE == 0,
        mapping.frame.start_address % PAGE_SIZE == 0,
        mapping.page.start_address + PAGE_SIZE <= u64::MAX,
        mapping.frame.start_address + PAGE_SIZE <= u64::MAX,
        offset < PAGE_SIZE,
    ensures
        mapping.translate_spec((mapping.page.start_address + offset) as u64) == Some(
            (mapping.frame.start_address + offset) as u64,
        ),
        (mapping.frame.start_address + offset) % (PAGE_SIZE as int) == (mapping.page.start_address
            + offset) % (PAGE_SIZE as int),
{
}

/// Flag bits of a page-table entry that is present and writable.
pub const PRESENT_WRITABLE: u64 = 3;

/// Physical address of the VGA text buffer.
pub const VGA_BUFFER_ADDRESS: u64 = 0xb8000;

/// The mapping of `page` to the frame of the VGA text buffer, present and
/// writable.
pub fn create_example_mapping(page: Page) -> (mapping: Mapping)
    ensures
        mapping == (Mapping {
            page,
            frame: PhysFrame { start_address: VGA_BUFFER_ADDRESS },
            flags: PRESENT_WRITABLE,
        }),
{
    let frame = PhysFrame::containing_address(VGA_BUFFER_ADDRESS);
    let flags = present_writable_bits();
    Mapping { page, frame, flags }
}

/// The virtual address at which the level 4 page table is found, where the
/// whole of physical memory is mapped at `physical_memory_offset` and the
/// table lies in the frame at `level_4_table_frame`.
pub fn active_level_4_table(physical_memory_offset: u64, level_4_table_frame: PhysFrame) -> (virt:
    u64)
    requires
        is_canonical(physical_memory_offset),
        physical_memory_offset + level_4_table_frame.start_address <= u64::MAX,
        is_canonical((physical_memory_offset + level_4_table_frame.start_address) as u64),
    ensures
        virt == physical_memory_offset + level_4_table_frame.start_address,
{
    virt_addr_offset(physical_memory_offset, level_4_table_frame.start_address)
}

/// The virtual address at which the level 4 page table is found, or `None`
/// where the offset or the sum is no canonical address.
pub fn try_active_level_4_table(physical_memory_offset: u64, level_4_table_frame: PhysFrame) -> (r:
    Option<u64>)
    ensures
        r == if is_canonical(physical_memory_offset) && physical_memory_offset
            + level_4_table_frame.start_address <= u64::MAX && is_canonical(
            (physical_memory_offset + level_4_table_frame.start_address) as u64,
        ) {
            Some((physical_memory_offset + level_4_table_frame.start_address) as u64)
        } else {
            None
        },
{
    if !(physical_memory_offset < 0x8000_0000_0000 || physical_memory_offset
        >= 0xffff_8000_0000_0000) {
        return None;
    }
    match physical_memory_offset.checked_add(level_4_table_frame.start_address) {
        Some(sum) => {
            if sum < 0x8000_0000_0000 || sum >= 0xffff_8000_0000_0000 {
                Some(active_level_4_table(physical_memory_offset, level_4_table_frame))
            } else {
                None
            }
        },
        None => None,
    }
}

/// A frame allocator that has no frames.
pub struct EmptyFrameAllocator;

impl EmptyFrameAllocator {
    pub fn allocate_frame(&mut self) -> (frame: Option<PhysFrame>)
        ensures
            frame is None,
    {
        None
    }
}

/// The memory map that the bootloader hands over.
#[verifier::external_type_specification]
#[verifier::external_body]
pub struct ExMemoryMap(MemoryMap);

/// An entry of the bootloader's memory map.
#[verifier::external_type_specification]
#[verifier::external_body]
pub struct ExMemoryMapEntry(bootloader::bootinfo::MemoryRegion);

/// A region of physical memory as the memory map describes it: the frames
/// from `start_frame_number` up to, and without, `end_frame_number`, and
/// whether the region is tagged as usable.
#[derive(Clone, Copy, Debug, PartialEq, Eq, Structural)]
pub struct FrameRegion {
    pub start_frame_number: u64,
    pub end_frame_number: u64,
    pub usable: bool,
}

/// The regions that a memory map holds, in the order of the map.
pub uninterp spec fn memory_regions(map: MemoryMap) -> Seq<FrameRegion>;

/// Takes the length of the slice that a `MemoryMap` of bootloader derefs to:
/// the number of regions in the map.
#[verifier::external_body]
fn region_count(map: &MemoryMap) -> (count: usize)
    ensures
        count == memory_regions(*map).len(),
{
    map.len()
}

/// Indexes the slice that a `MemoryMap` of bootloader derefs to, and hands out
/// the region's frame range and whether its type is `Usable`.
#[verifier::external_body]
fn region_at(map: &MemoryMap, index: usize) -> (region: FrameRegion)
    requires
        index < memory_regions(*map).len(),
    ensures
        region == memory_regions(*map)[index as int],
{
    let region = &map[index];
    FrameRegion {
        start_frame_number: region.range.start_frame_number,
        end_frame_number: region.range.end_frame_number,
        usable: match region.region_type {
            MemoryRegionType::Usable => true,
            _ => false,
        },
    }
}

/// The number of frames that a region offers to the allocator.
pub open spec fn usable_frame_count(region: FrameRegion) -> int {
    if region.usable && region.start_frame_number < region.end_frame_number {
        region.end_frame_number - region.start_frame_number
    } else {
        0
    }
}

/// The start address of the `n`-th frame, counted from zero, among the frames
/// of the usable regions, taken region by region in the order of the map.
pub open spec fn nth_usable_frame(regions: Seq<FrameRegion>, n: int) -> Option<int>
    decreases regions.len(),
{
    if regions.len() == 0 || n < 0 {
        None
    } else if n < usable_frame_count(regions[0]) {
        Some((regions[0].start_frame_number + n) * PAGE_SIZE)
    } else {
        nth_usable_frame(regions.drop_first(), n - usable_frame_count(regions[0]))
    }
}

/// The total number of frames in the usable regions.
pub open spec fn usable_frames_len(regions: Seq<FrameRegion>) -> int
    decreases regions.len(),
{
    if regions.len() == 0 {
        0
    } else {
        usable_frame_count(regions[0]) + usable_frames_len(regions.drop_first())
    }
}

/// Every frame of every usable region has a physical address.
pub open spec fn valid_regions(regions: Seq<FrameRegion>) -> bool {
    forall|i: int|
        0 <= i < regions.len() && usable_frame_count(#[trigger] regions[i]) > 0
            ==> regions[i].end_frame_number <= FRAME_NUMBER_LIMIT
}

/// There is an `n`-th usable frame exactly for `n` below the number of usable
/// frames, and it is aligned and a physical address.
pub proof fn lemma_nth_usable_frame(regions: Seq<FrameRegion>, n: int)
    requires
        valid_regions(regions),
    ensures
        0 <= usable_frames_len(regions),
        nth_usable_frame(regions, n) is Some <==> 0 <= n < usable_frames_len(regions),
        nth_usable_frame(regions, n) matches Some(addr) ==> 0 <= addr < PHYS_ADDR_LIMIT && addr
            % (PAGE_SIZE as int) == 0,
    decreases regions.len(),
{
    if regions.len() > 0 {
        let rest = regions.drop_first();
        assert forall|i: int|
            0 <= i < rest.len() && usable_frame_count(
                #[trigger] rest[i],
            ) > 0 implies rest[i].end_frame_number <= FRAME_NUMBER_LIMIT by {
            assert(rest[i] == regions[i + 1]);
        }
        lemma_nth_usable_frame(rest, n - usable_frame_count(regions[0]));
        if 0 <= n < usable_frame_count(regions[0]) {
            let number = regions[0].start_frame_number + n;
            assert(number < FRAME_NUMBER_LIMIT);
            assert(number * 4096 < 0x10_0000_0000_0000 && (number * 4096) % 4096 == 0)
                by (nonlinear_arith)
                requires
                    0 <= number < 0x100_0000_0000,
            ;
        }
    }
}

/// Two different usable frames of a map whose usable regions do not overlap
/// have different addresses: the allocator hands out no frame twice.
pub proof fn lemma_usable_frames_distinct(regions: Seq<FrameRegion>, m: int, n: int)
    requires
        forall|i: int, j: int|
            0 <= i < j < regions.len() && usable_frame_count(#[trigger] regions[i]) > 0
                && usable_frame_count(#[trigger] regions[j]) > 0 ==> regions[i].end_frame_number
                <= regions[j].start_frame_number || regions[j].end_frame_number
                <= regions[i].start_frame_number,
        0 <= m < n,
        nth_usable_frame(regions, n) is Some,
    ensures
        nth_usable_frame(regions, m) is Some,
        nth_usable_frame(regions, m) != nth_usable_frame(regions, n),
    decreases regions.len(),
{
    let first = regions[0];
    let count = usable_frame_count(first);
    let rest = regions.drop_first();
    assert forall|i: int, j: int|
        0 <= i < j < rest.len() && usable_frame_count(#[trigger] rest[i]) > 0
            && usable_frame_count(#[trigger] rest[j]) > 0 implies rest[i].end_frame_number
        <= rest[j].start_frame_number || rest[j].end_frame_number <= rest[i].start_frame_number by {
        assert(rest[i] == regions[i + 1]);
        assert(rest[j] == regions[j + 1]);
    }
    if n < count {
        assert((first.start_frame_number + m) * 4096 != (first.start_frame_number + n) * 4096);
    } else if m < count {
        lemma_frame_in_region(rest, n - count);
        let j = choose|j: int|
            0 <= j < rest.len() && region_holds(
                #[trigger] rest[j],
                nth_usable_frame(rest, n - count).unwrap(),
            );
        assert(rest[j] == regions[j + 1]);
        let number = first.start_frame_number + m;
        let addr = nth_usable_frame(rest, n - count).unwrap();
        let s = rest[j].start_frame_number as int;
        let e = rest[j].end_frame_number as int;
        let fe = first.end_frame_number as int;
        let fs = first.start_frame_number as int;
        if fe <= s {
            assert(number * 4096 < s * 4096) by (nonlinear_arith)
                requires
                    number < fe,
                    fe <= s,
            ;
        } else {
            assert(e * 4096 <= number * 4096) by (nonlinear_arith)
                requires
                    e <= fs,
                    fs <= number,
            ;
        }
    } else {
        lemma_usable_frames_distinct(rest, m - count, n - count);
    }
}

/// The address `addr` lies in `region`, and the region is usable.
pub open spec fn region_holds(region: FrameRegion, addr: int) -> bool {
    usable_frame_count(region) > 0 && region.start_frame_number * PAGE_SIZE <= addr
        < region.end_frame_number * PAGE_SIZE
}

/// A usable frame lies in a usable region of the map.
pub proof fn lemma_frame_in_region(regions: Seq<FrameRegion>, n: int)
    requires
        nth_usable_frame(regions, n) is Some,
    ensures
        exists|j: int|
            0 <= j < regions.len() && region_holds(
                #[trigger] regions[j],
                nth_usable_frame(regions, n).unwrap(),
            ),
    decreases regions.len(),
{
    let first = regions[0];
    let count = usable_frame_count(first);
    if n < count {
        let number = first.start_frame_number + n;
        let e = first.end_frame_number as int;
        assert(number * 4096 < e * 4096) by (nonlinear_arith)
            requires
                number < e,
        ;
        assert(first.start_frame_number * 4096 <= number * 4096) by (nonlinear_arith)
            requires
                first.start_frame_number <= number,
        ;
        assert(region_holds(regions[0], nth_usable_frame(regions, n).unwrap()));
    } else {
        let rest = regions.drop_first();
        lemma_frame_in_region(rest, n - count);
        let j = choose|j: int|
            0 <= j < rest.len() && region_holds(
                #[trigger] rest[j],
                nth_usable_frame(rest, n - count).unwrap(),
            );
        assert(rest[j] == regions[j + 1]);
        assert(region_holds(regions[j + 1], nth_usable_frame(regions, n).unwrap()));
    }
}

/// Tells whether every frame of every usable region of `map` has a physical
/// address, which `BootInfoFrameAllocator::init` asks of its map.
pub fn memory_map_is_valid(map: &MemoryMap) -> (valid: bool)
    ensures
        valid == valid_regions(memory_regions(*map)),
{
    let count = region_count(map);
    let mut index: usize = 0;
    while index < count
        invariant
            0 <= index <= count,
            count == memory_regions(*map).len(),
            forall|i: int|
                0 <= i < index && usable_frame_count(#[trigger] memory_regions(*map)[i]) > 0
                    ==> memory_regions(*map)[i].end_frame_number <= FRAME_NUMBER_LIMIT,
        decreases count - index,
    {
        let region = region_at(map, index);
        if region.usable && region.start_frame_number < region.end_frame_number
            && region.end_frame_number > FRAME_NUMBER_LIMIT {
            return false;
        }
        index += 1;
    }
    true
}

/// A frame allocator that hands out the usable frames of the bootloader's
/// memory map, one after the other, and never takes one back.
pub struct BootInfoFrameAllocator {
    memory_map: &'static MemoryMap,
    next: usize,
}

impl BootInfoFrameAllocator {
    /// The regions of the memory map that the allocator reads.
    pub closed spec fn regions(&self) -> Seq<FrameRegion> {
        memory_regions(*self.memory_map)
    }

    /// The number of frames asked for so far.
    pub closed spec fn next(&self) -> usize {
        self.next
    }

    pub open spec fn wf(&self) -> bool {
        valid_regions(self.regions())
    }

    /// Creates a frame allocator from the passed memory map.
    pub fn init(memory_map: &'static MemoryMap) -> (allocator: Self)
        requires
            valid_regions(memory_regions(*memory_map)),
        ensures
            allocator.wf(),
            allocator.regions() == memory_regions(*memory_map),
            allocator.next() == 0,
    {
        BootInfoFrameAllocator { memory_map, next: 0 }
    }

    /// The number of frames asked for so far.
    pub fn frames_asked(&self) -> (next: usize)
        ensures
            next == self.next(),
    {
        self.next
    }

    /// The `n`-th of the usable frames of the memory map.
    pub fn usable_frames(&self, n: usize) -> (frame: Option<PhysFrame>)
        requires
            self.wf(),
        ensures
            frame == match nth_usable_frame(self.regions(), n as int) {
                Some(addr) => Some(PhysFrame { start_address: addr as u64 }),
                None => None,
            },
    {
        let count = region_count(self.memory_map);
        let mut index: usize = 0;
        let mut remaining: u64 = n as u64;
        assert(self.regions().skip(0) =~= self.regions());
        while index < count
            invariant
                0 <= index <= count,
                count == self.regions().len(),
                self.wf(),
                nth_usable_frame(self.regions(), n as int) == nth_usable_frame(
                    self.regions().skip(index as int),
                    remaining as int,
                ),
            decreases count - index,
        {
            let region = region_at(self.memory_map, index);
            proof {
                let tail = self.regions().skip(index as int);
                assert(tail[0] == region);
                assert(tail.drop_first() =~= self.regions().skip(index + 1));
                assert(self.regions()[index as int] == region);
            }
            if region.usable && region.start_frame_number < region.end_frame_number {
                let frames = region.end_frame_number - region.start_frame_number;
                if remaining < frames {
                    let number = region.start_frame_number + remaining;
                    assert(number * 4096 < 0x10_0000_0000_0000 && (number * 4096) % 4096 == 0)
                        by (nonlinear_arith)
                        requires
                            0 <= number < 0x100_0000_0000,
                    ;
                    let addr = number * PAGE_SIZE;
                    return Some(PhysFrame::containing_address(addr));
                }
                remaining -= frames;
            }
            index += 1;
        }
        assert(self.regions().skip(index as int).len() == 0);
        None
    }

    /// Hands out the next usable frame, and `None` once there is none left.
    /// Each call moves the cursor on by one.
    pub fn allocate_frame(&mut self) -> (frame: Option<PhysFrame>)
        requires
            old(self).wf(),
            old(self).next() < usize::MAX,
        ensures
            final(self).wf(),
            final(self).regions() == old(self).regions(),
            final(self).next() == old(self).next() + 1,
            frame == match nth_usable_frame(old(self).regions(), old(self).next() as int) {
                Some(addr) => Some(PhysFrame { start_address: addr as u64 }),
                None => None,
            },
    {
        let frame = self.usable_frames(self.next);
        self.next += 1;
        frame
    }
}

} // verus!
