//! The kernel heap: its place in the address space, the steps that map it,
//! layouts and their alignment, and the allocators that hand it out.

use crate::memory::{
    present_writable_bits, virt_addr_offset, MapToError, Mapping, Page, PhysFrame, PAGE_SIZE,
    PRESENT_WRITABLE,
};
use vstd::prelude::*;

pub mod bump;
pub mod fixed_size_block;
pub mod linked_list;

verus! {

/// First virtual address of the kernel heap.
pub const HEAP_START: u64 = 0x_4444_4444_0000;

/// Size of the kernel heap in bytes (100 KiB).
pub const HEAP_SIZE: u64 = 100 * 1024;

/// Number of pages that the kernel heap covers.
pub const HEAP_PAGES: u64 = 25;

/// What the initialisation of the heap asks of its caller next.
#[derive(Clone, Copy, Debug, PartialEq, Eq)]
pub enum HeapInitStep {
    /// Map the page to the frame, then ask for the step after it.
    MapPage(Mapping),
    /// Every page of the heap is mapped: hand the range to the heap allocator.
    InitAllocator { heap_start: u64, heap_size: u64 },
}

/// The `index`-th page of the heap.
pub open spec fn heap_page(index: int) -> Page {
    Page { start_address: (HEAP_START + index * PAGE_SIZE) as u64 }
}

/// The step of heap initialisation after `mapped` pages have been mapped,
/// where `frame` is what the frame allocator gave for the next page: the
/// pages of the heap are mapped in ascending order, each to the frame given
/// for it, present and writable; the lack of a frame ends the initialisation
/// with an error; after the last page the range goes to the heap allocator.
pub open spec fn init_heap_spec(mapped: u64, frame: Option<PhysFrame>) -> Result<
    HeapInitStep,
    MapToError,
> {
    if mapped >= HEAP_PAGES {
        Ok(HeapInitStep::InitAllocator { heap_start: HEAP_START, heap_size: HEAP_SIZE })
    } else {
        match frame {
            Some(frame) => Ok(
                HeapInitStep::MapPage(
                    Mapping { page: heap_page(mapped as int), frame, flags: PRESENT_WRITABLE },
                ),
            ),
            None => Err(MapToError::FrameAllocationFailed),
        }
    }
}

/// Every byte of the heap lies in one of its pages.
pub proof fn lemma_heap_pages_cover(addr: u64)
    requires
        HEAP_START <= addr < HEAP_START + HEAP_SIZE,
    ensures
        0 <= (addr - HEAP_START) / (PAGE_SIZE as int) < HEAP_PAGES,
        heap_page((addr - HEAP_START) / (PAGE_SIZE as int)).start_address <= addr < heap_page(
            (addr - HEAP_START) / (PAGE_SIZE as int),
        ).start_address + PAGE_SIZE,
{
}

/// Every byte of the heap is found through the mapping that `init_heap` asks
/// for its page: at the same offset in the frame that was given for the page.
pub proof fn lemma_heap_byte_is_mapped(addr: u64, frame: PhysFrame)
    requires
        HEAP_START <= addr < HEAP_START + HEAP_SIZE,
        frame.start_address + PAGE_SIZE <= u64::MAX,
    ensures
        init_heap_spec(((addr - HEAP_START) / (PAGE_SIZE as int)) as u64, Some(frame)) == Ok::<
            HeapInitStep,
            MapToError,
        >(
            HeapInitStep::MapPage(
                Mapping {
                    page: heap_page((addr - HEAP_START) / (PAGE_SIZE as int)),
                    frame,
                    flags: PRESENT_WRITABLE,
                },
            ),
        ),
        (Mapping {
            page: heap_page((addr - HEAP_START) / (PAGE_SIZE as int)),
            frame,
            flags: PRESENT_WRITABLE,
        }).translate_spec(addr) == Some(
            (frame.start_address + (addr - HEAP_START) % (PAGE_SIZE as int)) as u64,
        ),
{
    lemma_heap_pages_cover(addr);
    assert(PRESENT_WRITABLE & crate::memory::PRESENT == crate::memory::PRESENT) by (bit_vector);
}

/// One step of the initialisation of the kernel heap. The caller maps what
/// `MapPage` names and comes back with the number of pages mapped so far and the
/// next frame of its frame allocator.
pub fn init_heap(mapped: u64, frame: Option<PhysFrame>) -> (step: Result<HeapInitStep, MapToError>)
    ensures
        step == init_heap_spec(mapped, frame),
{
    let heap_start = HEAP_START;
    let heap_end = virt_addr_offset(heap_start, HEAP_SIZE - 1);
    let heap_start_page = Page::containing_address(heap_start);
    let heap_end_page = Page::containing_address(heap_end);
    let pages = (heap_end_page.start_address - heap_start_page.start_address) / PAGE_SIZE + 1;
    if mapped >= pages {
        return Ok(HeapInitStep::InitAllocator { heap_start: HEAP_START, heap_size: HEAP_SIZE });
    }
    let page = Page { start_address: heap_start_page.start_address + mapped * PAGE_SIZE };
    let frame = match frame {
        Some(frame) => frame,
        None => { return Err(MapToError::FrameAllocationFailed); },
    };
    let flags = present_writable_bits();
    Ok(HeapInitStep::MapPage(Mapping { page, frame, flags }))
}

/// A number with exactly one bit set.
pub open spec fn is_power_of_two(n: u64) -> bool {
    n > 0 && n & ((n - 1) as u64) == 0
}

/// The smallest multiple of `align` that is not below `addr`.
pub open spec fn align_up_spec(addr: int, align: int) -> int {
    if addr % align == 0 {
        addr
    } else {
        addr - addr % align + align
    }
}

/// `align_up_spec` is the only multiple of `align` in `[addr, addr + align)`.
pub proof fn lemma_align_up_is_least_multiple(addr: int, align: int)
    requires
        0 <= addr,
        0 < align,
    ensures
        align_up_spec(addr, align) % align == 0,
        addr <= align_up_spec(addr, align) < addr + align,
        forall|m: int| addr <= m && #[trigger] (m % align) == 0 ==> align_up_spec(addr, align) <= m,
{
    let r = align_up_spec(addr, align);
    vstd::arithmetic::div_mod::lemma_fundamental_div_mod(addr, align);
    if addr % align != 0 {
        let q = addr / align;
        assert(r == (q + 1) * align) by (nonlinear_arith)
            requires
                r == addr - addr % align + align,
                addr == align * q + addr % align,
        ;
        vstd::arithmetic::div_mod::lemma_mod_multiples_basic(q + 1, align);
    }
    assert forall|m: int| addr <= m && #[trigger] (m % align) == 0 implies r <= m by {
        if m < r {
            vstd::arithmetic::div_mod::lemma_fundamental_div_mod(m, align);
            let qm = m / align;
            let q = addr / align;
            assert(m == align * qm);
            assert(qm > q || qm <= q);
            if qm <= q {
                assert(align * qm <= align * q) by (nonlinear_arith)
                    requires
                        qm <= q,
                        0 < align,
                ;
            } else {
                assert(align * qm >= align * (q + 1)) by (nonlinear_arith)
                    requires
                        qm >= q + 1,
                        0 < align,
                ;
                assert(align * (q + 1) == align * q + align) by (nonlinear_arith);
            }
        }
    }
}

/// A power of two is two to the power of one of the exponents below 64.
proof fn lemma_power_of_two_exponent(a: u64) -> (k: nat)
    requires
        is_power_of_two(a),
    ensures
        k < 64,
        a == vstd::arithmetic::power2::pow2(k),
{
    assert(a > 0 && a & ((a - 1) as u64) == 0 ==> a == 0x1 || a == 0x2 || a == 0x4 || a == 0x8 || a == 0x10 || a == 0x20 || a == 0x40 || a == 0x80 || a == 0x100 || a == 0x200 || a == 0x400 || a == 0x800 || a == 0x1000 || a == 0x2000 || a == 0x4000 || a == 0x8000 || a == 0x10000 || a == 0x20000 || a == 0x40000 || a == 0x80000 || a == 0x100000 || a == 0x200000 || a == 0x400000 || a == 0x800000 || a == 0x1000000 || a == 0x2000000 || a == 0x4000000 || a == 0x8000000 || a == 0x10000000 || a == 0x20000000 || a == 0x40000000 || a == 0x80000000 || a == 0x100000000 || a == 0x200000000 || a == 0x400000000 || a == 0x800000000 || a == 0x1000000000 || a == 0x2000000000 || a == 0x4000000000 || a == 0x8000000000 || a == 0x10000000000 || a == 0x20000000000 || a == 0x40000000000 || a == 0x80000000000 || a == 0x100000000000 || a == 0x200000000000 || a == 0x400000000000 || a == 0x800000000000 || a == 0x1000000000000 || a == 0x2000000000000 || a == 0x4000000000000 || a == 0x8000000000000 || a == 0x10000000000000 || a == 0x20000000000000 || a == 0x40000000000000 || a == 0x80000000000000 || a == 0x100000000000000 || a == 0x200000000000000 || a == 0x400000000000000 || a == 0x800000000000000 || a == 0x1000000000000000 || a == 0x2000000000000000 || a == 0x4000000000000000 || a == 0x8000000000000000) by (bit_vector);
    vstd::arithmetic::power2::lemma2_to64();
    vstd::arithmetic::power2::lemma2_to64_rest();
    choose|k: nat| k < 64 && a == vstd::arithmetic::power2::pow2(k)
}

/// Clearing the bits below a power of two rounds down to a multiple of it,
/// so that the mask rounds `addr + align - 1` down to `addr` aligned upwards.
proof fn lemma_mask_aligns_up(addr: u64, align: u64)
    requires
        is_power_of_two(align),
        addr + align - 1 <= u64::MAX,
    ensures
        ((addr + align - 1) as u64) & !((align - 1) as u64) == align_up_spec(
            addr as int,
            align as int,
        ),
{
    let k = lemma_power_of_two_exponent(align);
    let y = (addr + align - 1) as u64;
    let m = (align - 1) as u64;
    vstd::bits::lemma_u64_low_bits_mask_is_mod(y, k);
    assert(y & m == y % align);
    assert(y & !m == y - (y & m)) by (bit_vector);
    let q = addr as int / align as int;
    let s = addr as int % align as int;
    vstd::arithmetic::div_mod::lemma_fundamental_div_mod(addr as int, align as int);
    assert(addr == q * align + s) by (nonlinear_arith)
        requires
            addr == align * q + s,
    ;
    if s == 0 {
        vstd::arithmetic::div_mod::lemma_fundamental_div_mod_converse(
            y as int,
            align as int,
            q,
            align - 1,
        );
    } else {
        assert(y == (q + 1) * align + (s - 1)) by (nonlinear_arith)
            requires
                y == addr + align - 1,
                addr == q * align + s,
        ;
        vstd::arithmetic::div_mod::lemma_fundamental_div_mod_converse(
            y as int,
            align as int,
            q + 1,
            s - 1,
        );
    }
}

/// Aligns `addr` upwards to `align`, a power of two, with a bit mask.
pub fn align_up(addr: u64, align: u64) -> (r: u64)
    requires
        is_power_of_two(align),
        addr + align <= u64::MAX,
    ensures
        r == align_up_spec(addr as int, align as int),
{
    proof {
        lemma_mask_aligns_up(addr, align);
    }
    (addr + align - 1) & !(align - 1)
}

/// Aligns `addr` upwards to `align`, or returns `None` where the aligned
/// address does not fit in 64 bits.
pub fn checked_align_up(addr: u64, align: u64) -> (r: Option<u64>)
    requires
        align > 0,
    ensures
        r == if align_up_spec(addr as int, align as int) <= u64::MAX {
            Some(align_up_spec(addr as int, align as int) as u64)
        } else {
            None
        },
{
    let remainder = addr % align;
    proof {
        vstd::arithmetic::div_mod::lemma_mod_decreases(addr as nat, align as nat);
    }
    if remainder == 0 {
        Some(addr)
    } else {
        (addr - remainder).checked_add(align)
    }
}

/// Largest size a block may have once rounded up to its alignment.
pub const MAX_BLOCK_SIZE: u64 = 0x7fff_ffff_ffff_ffff;

/// What a layout must satisfy: the alignment is a power of two, and the size,
/// rounded up to the alignment, does not exceed `MAX_BLOCK_SIZE`.
pub open spec fn valid_layout(size: u64, align: u64) -> bool {
    is_power_of_two(align) && align_up_spec(size as int, align as int) <= MAX_BLOCK_SIZE
}

/// The reason why `Layout::from_size_align` rejected its arguments.
#[derive(Clone, Copy, Debug, PartialEq, Eq)]
pub struct LayoutError;

/// Size and alignment of a block of memory.
#[derive(Clone, Copy, Debug)]
pub struct Layout {
    size: u64,
    align: u64,
}

impl Layout {
    #[verifier::type_invariant]
    pub closed spec fn inv(self) -> bool {
        valid_layout(self.size, self.align)
    }

    /// Every layout that executable code can hold is well formed; ghost values
    /// state it with this predicate.
    pub open spec fn wf(self) -> bool {
        valid_layout(self.spec_size(), self.spec_align())
    }

    pub closed spec fn spec_size(&self) -> u64 {
        self.size
    }

    pub closed spec fn spec_align(&self) -> u64 {
        self.align
    }

    /// The layout with the given size and alignment.
    pub closed spec fn spec_new(size: u64, align: u64) -> Layout {
        Layout { size, align }
    }

    /// A layout is determined by its size and its alignment.
    pub proof fn lemma_spec_new(size: u64, align: u64)
        ensures
            Self::spec_new(size, align).spec_size() == size,
            Self::spec_new(size, align).spec_align() == align,
            forall|l: Layout|
                l.spec_size() == size && l.spec_align() == align ==> l == Self::spec_new(
                    size,
                    align,
                ),
    {
    }

    /// Builds a layout, or fails where `size` and `align` are not a valid pair.
    pub fn from_size_align(size: u64, align: u64) -> (r: Result<Layout, LayoutError>)
        ensures
            r == Self::spec_from_size_align(size, align),
    {
        if align == 0 || align & (align - 1) != 0 {
            return Err(LayoutError);
        }
        match checked_align_up(size, align) {
            Some(padded) => {
                if padded <= MAX_BLOCK_SIZE {
                    Ok(Layout { size, align })
                } else {
                    Err(LayoutError)
                }
            },
            None => Err(LayoutError),
        }
    }

    pub open spec fn spec_from_size_align(size: u64, align: u64) -> Result<Layout, LayoutError> {
        if valid_layout(size, align) {
            Ok(Self::spec_new(size, align))
        } else {
            Err(LayoutError)
        }
    }

    #[verifier::when_used_as_spec(spec_size)]
    pub fn size(&self) -> (r: u64)
        ensures
            r == self.spec_size(),
    {
        self.size
    }

    #[verifier::when_used_as_spec(spec_align)]
    pub fn align(&self) -> (r: u64)
        ensures
            r == self.spec_align(),
            is_power_of_two(r),
    {
        proof {
            use_type_invariant(self);
        }
        self.align
    }

    /// The same size with an alignment of at least `align`.
    pub fn align_to(&self, align: u64) -> (r: Result<Layout, LayoutError>)
        ensures
            r == Self::spec_align_to(*self, align),
    {
        let larger = if self.align >= align {
            self.align
        } else {
            align
        };
        Layout::from_size_align(self.size, larger)
    }

    pub open spec fn spec_align_to(self, align: u64) -> Result<Layout, LayoutError> {
        let larger = if self.spec_align() >= align {
            self.spec_align()
        } else {
            align
        };
        Self::spec_from_size_align(self.spec_size(), larger)
    }

    /// The size rounded up to a multiple of the alignment.
    pub fn pad_to_align(&self) -> (r: Layout)
        ensures
            r == self.spec_pad_to_align(),
    {
        proof {
            use_type_invariant(self);
            lemma_align_up_is_least_multiple(self.size as int, self.align as int);
            lemma_align_up_is_least_multiple(
                align_up_spec(self.size as int, self.align as int),
                self.align as int,
            );
        }
        let align = self.align;
        assert(align > 0 && align & ((align - 1) as u64) == 0 ==> align <= 0x8000_0000_0000_0000)
            by (bit_vector);
        let padded = align_up(self.size, self.align);
        Layout { size: padded, align: self.align }
    }

    pub open spec fn spec_pad_to_align(self) -> Layout {
        Self::spec_new(
            align_up_spec(self.spec_size() as int, self.spec_align() as int) as u64,
            self.spec_align(),
        )
    }
}

} // verus!
