//! The kernel's physical memory allocators: bump allocators for page-table
//! frames, the kernel heap and the USB DMA region, and the checks on DMA
//! addresses and on physically contiguous buffers.

use vstd::prelude::*;

use crate::memory::{lemma_page_round_down, PAGE_SIZE};

verus! {

/// A bump allocator over `[next, end)`.
#[derive(Clone, Copy, Debug, PartialEq, Eq, Structural)]
pub struct BumpRegion {
    pub next: u64,
    pub end: u64,
}

/// The DMA region: allocations are carved from `next` upwards; `start`
/// stays where the region begins, so that earlier buffers still count as
/// inside it.
#[derive(Clone, Copy, Debug, PartialEq, Eq, Structural)]
pub struct DmaRegion {
    pub start: u64,
    pub next: u64,
    pub end: u64,
}

/// The three allocators, once their regions are set.
#[derive(Clone, Copy, Debug, PartialEq, Eq, Structural)]
pub struct Allocators {
    pub page_tables: BumpRegion,
    pub heap: BumpRegion,
    pub heap_initialized: bool,
    pub dma: DmaRegion,
}

/// Why a set of regions is refused: the message the kernel stops with.
pub open spec fn region_error_of(
    page_table_start: u64,
    page_table_end: u64,
    kernel_heap_start: u64,
    kernel_heap_end: u64,
    dma_start: u64,
    dma_end: u64,
) -> Option<&'static str> {
    if page_table_start >= page_table_end {
        Some("Rusty: invalid page-table allocator range")
    } else if kernel_heap_start >= kernel_heap_end {
        Some("Rusty: invalid kernel heap range")
    } else if dma_start >= dma_end {
        Some("Rusty: invalid DMA allocator range")
    } else if kernel_heap_end > dma_start {
        Some("Rusty: kernel heap overlaps DMA region")
    } else {
        None
    }
}

/// The first problem with a set of regions, if any.
pub fn region_error(
    page_table_start: u64,
    page_table_end: u64,
    kernel_heap_start: u64,
    kernel_heap_end: u64,
    dma_start: u64,
    dma_end: u64,
) -> (r: Option<&'static str>)
    ensures
        r == region_error_of(page_table_start, page_table_end, kernel_heap_start, kernel_heap_end, dma_start, dma_end),
{
    if page_table_start >= page_table_end {
        Some("Rusty: invalid page-table allocator range")
    } else if kernel_heap_start >= kernel_heap_end {
        Some("Rusty: invalid kernel heap range")
    } else if dma_start >= dma_end {
        Some("Rusty: invalid DMA allocator range")
    } else if kernel_heap_end > dma_start {
        Some("Rusty: kernel heap overlaps DMA region")
    } else {
        None
    }
}

impl Allocators {
    /// Allocators with no regions: every allocation fails.
    pub fn empty() -> (r: Self)
        ensures
            r.page_tables == (BumpRegion { next: 0, end: 0 }),
            r.heap == (BumpRegion { next: 0, end: 0 }),
            !r.heap_initialized,
            r.dma == (DmaRegion { start: 0, next: 0, end: 0 }),
    {
        Allocators {
            page_tables: BumpRegion { next: 0, end: 0 },
            heap: BumpRegion { next: 0, end: 0 },
            heap_initialized: false,
            dma: DmaRegion { start: 0, next: 0, end: 0 },
        }
    }

    /// The allocators over valid regions.
    pub fn init_regions(
        page_table_start: u64,
        page_table_end: u64,
        kernel_heap_start: u64,
        kernel_heap_end: u64,
        dma_start: u64,
        dma_end: u64,
    ) -> (r: Self)
        requires
            region_error_of(page_table_start, page_table_end, kernel_heap_start, kernel_heap_end, dma_start, dma_end)
                is None,
            kernel_heap_end <= usize::MAX,
        ensures
            r.page_tables == (BumpRegion { next: page_table_start, end: page_table_end }),
            r.heap == (BumpRegion { next: kernel_heap_start, end: kernel_heap_end }),
            r.heap_initialized,
            r.dma == (DmaRegion { start: dma_start, next: dma_start, end: dma_end }),
            r.wf(),
    {
        Allocators {
            page_tables: BumpRegion { next: page_table_start, end: page_table_end },
            heap: BumpRegion { next: kernel_heap_start, end: kernel_heap_end },
            heap_initialized: true,
            dma: DmaRegion { start: dma_start, next: dma_start, end: dma_end },
        }
    }

    /// The DMA bump pointer stays inside its region.
    pub open spec fn wf(&self) -> bool {
        &&& self.dma.start <= self.dma.next
        &&& self.heap.end <= usize::MAX
    }

    // ========================================================
    // Kernel heap
    // ========================================================

    /// Allocates `size` bytes aligned to the power of two `align` from the
    /// kernel heap; `None` before initialization or when the heap is
    /// exhausted.
    pub fn heap_alloc(&mut self, size: usize, align: usize) -> (r: Option<usize>)
        requires
            old(self).wf(),
            align > 0,
        ensures
            final(self).wf(),
            final(self).page_tables == old(self).page_tables,
            final(self).dma == old(self).dma,
            final(self).heap_initialized == old(self).heap_initialized,
            final(self).heap.end == old(self).heap.end,
            match heap_alloc_of(old(self).heap, old(self).heap_initialized, size, align) {
                Some(a) => r == Some(a) && final(self).heap.next == a + size,
                None => r is None && final(self).heap == old(self).heap,
            },
    {
        if !self.heap_initialized {
            return None;
        }
        let current = self.heap.next as usize;
        if self.heap.next > usize::MAX as u64 {
            return None;
        }
        let aligned = match current.checked_add(align - 1) {
            Some(value) => value & !(align - 1),
            None => return None,
        };
        let next = match aligned.checked_add(size) {
            Some(value) => value,
            None => return None,
        };
        if next as u64 > self.heap.end {
            return None;
        }
        self.heap.next = next as u64;
        Some(aligned)
    }

    // ========================================================
    // Page-table frames
    // ========================================================

    /// Takes the next page-table frame.  The bump pointer advances by a
    /// page on every attempt, as a fetch-and-add would.
    pub fn allocate_page_table_frame(&mut self) -> (r: Option<u64>)
        ensures
            final(self).heap == old(self).heap,
            final(self).heap_initialized == old(self).heap_initialized,
            final(self).dma == old(self).dma,
            final(self).page_tables.end == old(self).page_tables.end,
            final(self).page_tables.next == (if old(self).page_tables.next + PAGE_SIZE > u64::MAX {
                (old(self).page_tables.next + PAGE_SIZE - 0x1_0000_0000_0000_0000) as u64
            } else {
                (old(self).page_tables.next + PAGE_SIZE) as u64
            }),
            r == page_table_frame_of(old(self).page_tables),
    {
        let current = self.page_tables.next;
        self.page_tables.next = current.wrapping_add(PAGE_SIZE);
        if current >= self.page_tables.end {
            return None;
        }
        let next = match current.checked_add(PAGE_SIZE) {
            Some(value) => value,
            None => return None,
        };
        if next > self.page_tables.end {
            return None;
        }
        if current % PAGE_SIZE != 0 {
            return None;
        }
        Some(current)
    }

    // ========================================================
    // DMA
    // ========================================================

    /// Reserves whole pages for a DMA buffer of `size` bytes at an
    /// alignment of at least a page (the power of two `alignment`, if
    /// larger) that does not cross a multiple of `boundary`; a placement
    /// that would cross one is skipped and the search goes on after it.
    pub fn allocate_dma_region(&mut self, size: usize, alignment: usize, boundary: Option<usize>) -> (r: Option<u64>)
        requires
            old(self).wf(),
        ensures
            final(self).wf(),
            final(self).page_tables == old(self).page_tables,
            final(self).heap == old(self).heap,
            final(self).heap_initialized == old(self).heap_initialized,
            final(self).dma.start == old(self).dma.start,
            final(self).dma.end == old(self).dma.end,
            r is None ==> final(self).dma == old(self).dma,
            r matches Some(address) ==> {
                let align = if alignment < PAGE_SIZE { PAGE_SIZE as int } else { alignment as int };
                &&& size + 0xFFF <= u64::MAX
                &&& size > 0
                &&& is_power_of_two(alignment as int)
                &&& address & ((align - 1) as u64) == 0
                &&& old(self).dma.next <= address
                &&& address + dma_reserved_size(size) == final(self).dma.next
                &&& final(self).dma.next <= old(self).dma.end
                &&& size <= dma_reserved_size(size)
                &&& (boundary matches Some(b) ==> b > 0 && (address as int) / (b as int) == (address + size - 1) / (b as int))
            },
            size == 0 || !is_power_of_two(alignment as int) ==> r is None,
            size > 0 && is_power_of_two(alignment as int) && size + 0xFFF <= u64::MAX ==> r == dma_placement(
                old(self).dma.next,
                old(self).dma.end,
                (if alignment < PAGE_SIZE { PAGE_SIZE as int } else { alignment as int }) as u64,
                size as u64,
                dma_reserved_size(size) as u64,
                boundary,
            ),
    {
        if size == 0 {
            return None;
        }
        if !power_of_two(alignment) {
            return None;
        }
        let align = if alignment < PAGE_SIZE as usize { PAGE_SIZE as usize } else { alignment };
        let size_u64 = size as u64;
        let alignment_u64 = align as u64;
        let reserved_size = match size_u64.checked_add(PAGE_SIZE - 1) {
            Some(value) => value & !(PAGE_SIZE - 1),
            None => return None,
        };
        proof {
            lemma_page_round_down((size_u64 + 0xFFF) as u64);
        }
        let mut current = self.dma.next;
        let end = self.dma.end;
        loop
            invariant
                self.wf(),
                self.dma == old(self).dma,
                self.page_tables == old(self).page_tables,
                self.heap == old(self).heap,
                self.heap_initialized == old(self).heap_initialized,
                old(self).dma.next <= current,
                end == self.dma.end,
                size_u64 == size,
                size > 0,
                size + 0xFFF <= u64::MAX,
                alignment_u64 == align,
                align == (if alignment < PAGE_SIZE { PAGE_SIZE as int } else { alignment as int }),
                is_power_of_two(alignment as int),
                alignment_u64 >= PAGE_SIZE,
                reserved_size == dma_reserved_size(size),
                reserved_size >= size,
                reserved_size > 0,
                dma_placement(current, end, alignment_u64, size_u64, reserved_size, boundary) == dma_placement(
                    old(self).dma.next,
                    old(self).dma.end,
                    alignment_u64,
                    size_u64,
                    reserved_size,
                    boundary,
                ),
            decreases u64::MAX - current,
        {
            let aligned = match current.checked_add(alignment_u64 - 1) {
                Some(value) => value & !(alignment_u64 - 1),
                None => {
                    proof {
                        assert(dma_placement(current, end, alignment_u64, size_u64, reserved_size, boundary) is None);
                    }
                    return None;
                },
            };
            proof {
                lemma_round_up_mask(current, (alignment_u64 - 1) as u64);
            }
            let used_end = match aligned.checked_add(size_u64) {
                Some(value) => value,
                None => {
                    proof {
                        assert(dma_placement(current, end, alignment_u64, size_u64, reserved_size, boundary) is None);
                    }
                    return None;
                },
            };
            let reservation_end = match aligned.checked_add(reserved_size) {
                Some(value) => value,
                None => {
                    proof {
                        assert(dma_placement(current, end, alignment_u64, size_u64, reserved_size, boundary) is None);
                    }
                    return None;
                },
            };
            if reservation_end > end {
                return None;
            }
            match boundary {
                Some(boundary) => {
                    let boundary_u64 = boundary as u64;
                    if boundary_u64 == 0 {
                        return None;
                    }
                    let first_boundary = aligned / boundary_u64;
                    let last_boundary = (used_end - 1) / boundary_u64;
                    if first_boundary != last_boundary {
                        current = reservation_end;
                        continue;
                    }
                },
                None => {},
            }
            self.dma.next = reservation_end;
            return Some(aligned);
        }
    }

    /// Reserves DMA memory for `size` bytes at `alignment`: the physical
    /// address and the number of bytes reserved (whole pages).
    pub fn allocate_dma(&mut self, size: usize, alignment: usize) -> (r: Option<(u64, usize)>)
        requires
            old(self).wf(),
        ensures
            final(self).wf(),
            size == 0 ==> r is None && *final(self) == *old(self),
            r is None ==> *final(self) == *old(self),
            r == dma_allocation_of(old(self).dma, size, alignment),
            r matches Some((address, reserved)) ==> reserved == dma_reserved_size(size) && address + reserved
                == final(self).dma.next && address >= old(self).dma.next && final(self).dma.next <= old(self).dma.end,
    {
        if size == 0 {
            return None;
        }
        let sum = match size.checked_add(PAGE_SIZE as usize - 1) {
            Some(value) => value,
            None => return None,
        };
        proof {
            lemma_page_round_down(sum as u64);
        }
        let reserved_size = ((sum as u64) & !(PAGE_SIZE - 1)) as usize;
        match self.allocate_dma_region(size, alignment, None) {
            Some(physical) => Some((physical, reserved_size)),
            None => None,
        }
    }

    /// Whether `size` bytes at `address` lie inside the DMA region (from
    /// its start, not from the moving bump pointer).
    pub fn dma_address_valid(&self, address: u64, size: usize) -> (r: bool)
        ensures
            r == (size > 0 && address + size <= u64::MAX && address >= self.dma.start && address + size
                <= self.dma.end),
    {
        if size == 0 {
            return false;
        }
        let end = match address.checked_add(size as u64) {
            Some(value) => value,
            None => return false,
        };
        address >= self.dma.start && end <= self.dma.end
    }
}

/// Whether `n` is a power of two.
pub open spec fn is_power_of_two(n: int) -> bool
    decreases n,
{
    if n <= 0 {
        false
    } else if n == 1 {
        true
    } else {
        n % 2 == 0 && is_power_of_two(n / 2)
    }
}

/// Whether `n` is a power of two.
pub fn power_of_two(n: usize) -> (r: bool)
    ensures
        r == is_power_of_two(n as int),
{
    let mut m = n;
    while m > 1 && m % 2 == 0
        invariant
            is_power_of_two(m as int) == is_power_of_two(n as int),
        decreases m,
    {
        m = m / 2;
    }
    m == 1
}

/// Rounding `v` up with the mask `m`: the result has none of the bits of
/// `m` and is not below `v`.
pub proof fn lemma_round_up_mask(v: u64, m: u64)
    requires
        v + m <= u64::MAX,
    ensures
        ((v + m) as u64 & !m) & m == 0,
        v <= ((v + m) as u64 & !m),
        ((v + m) as u64 & !m) <= v + m,
{
    let s = (v + m) as u64;
    assert(s & !m == s - (s & m) && (s & m) <= m && (s & !m) & m == 0) by (bit_vector);
}

/// Where the DMA search starting at `current` places a buffer of `size`
/// bytes (`reserved` with its page rounding) at `align` below `end`
/// without crossing a multiple of `boundary`; `None` when it runs out.
pub open spec fn dma_placement(
    current: u64,
    end: u64,
    align: u64,
    size: u64,
    reserved: u64,
    boundary: Option<usize>,
) -> Option<u64>
    decreases u64::MAX - current,
{
    if current + (align - 1) > u64::MAX {
        None
    } else {
        let aligned = (current + (align - 1)) as u64 & !((align - 1) as u64);
        if aligned + size > u64::MAX || aligned + reserved > u64::MAX || aligned + reserved > end {
            None
        } else {
            match boundary {
                Some(b) => if b == 0 {
                    None
                } else if (aligned as int) / (b as int) != (aligned + size - 1) / (b as int) {
                    if aligned + reserved > current {
                        dma_placement((aligned + reserved) as u64, end, align, size, reserved, boundary)
                    } else {
                        None
                    }
                } else {
                    Some(aligned)
                },
                None => Some(aligned),
            }
        }
    }
}

/// Where a DMA reservation of `size` bytes at `alignment` goes in `dma`,
/// with the bytes it takes (whole pages): none for zero bytes, a size whose
/// page rounding overflows, an alignment that is not a power of two, or
/// when the region has no room; the alignment is at least a page.
pub open spec fn dma_allocation_of(dma: DmaRegion, size: usize, alignment: usize) -> Option<(u64, usize)> {
    if size == 0 || size + 0xFFF > usize::MAX || !is_power_of_two(alignment as int) {
        None
    } else {
        match dma_placement(
            dma.next,
            dma.end,
            (if alignment < PAGE_SIZE { PAGE_SIZE as int } else { alignment as int }) as u64,
            size as u64,
            dma_reserved_size(size) as u64,
            None,
        ) {
            Some(address) => Some((address, dma_reserved_size(size) as usize)),
            None => None,
        }
    }
}

/// The whole pages reserved for `size` bytes.
pub open spec fn dma_reserved_size(size: usize) -> int {
    ((size + 0xFFF) as u64 & !0xFFFu64) as int
}

/// The outcome of one heap allocation.
pub open spec fn heap_alloc_of(heap: BumpRegion, initialized: bool, size: usize, align: usize) -> Option<usize> {
    if !initialized || heap.next > usize::MAX || heap.next + (align - 1) > usize::MAX {
        None
    } else {
        let aligned = ((heap.next + (align - 1)) as usize & !((align - 1) as usize)) as int;
        if aligned + size > usize::MAX || aligned + size > heap.end {
            None
        } else {
            Some(aligned as usize)
        }
    }
}

/// The outcome of one page-table frame allocation.
pub open spec fn page_table_frame_of(region: BumpRegion) -> Option<u64> {
    if region.next >= region.end || region.next + PAGE_SIZE > u64::MAX || region.next + PAGE_SIZE > region.end
        || region.next % PAGE_SIZE != 0 {
        None
    } else {
        Some(region.next)
    }
}

/// The virtual address of `physical` in the direct map at `offset`.
pub fn physical_to_virtual(offset: u64, physical: u64) -> (r: u64)
    requires
        offset + physical <= u64::MAX,
    ensures
        r == offset + physical,
{
    offset + physical
}

/// The first and last pages touched by `size` bytes at `virtual_address`;
/// `None` for an empty or wrapping range.
pub open spec fn page_span_of(virtual_address: u64, size: usize) -> Option<(u64, u64)> {
    if size == 0 || virtual_address + size > u64::MAX {
        None
    } else {
        Some(
            (
                virtual_address & !0xFFFu64,
                ((virtual_address + size - 1) as u64) & !0xFFFu64,
            ),
        )
    }
}

/// The pages touched by a buffer.
pub fn page_span(virtual_address: u64, size: usize) -> (r: Option<(u64, u64)>)
    ensures
        r == page_span_of(virtual_address, size),
        r matches Some((first, last)) ==> first <= last && first % 4096 == 0 && last % 4096 == 0,
{
    if size == 0 {
        return None;
    }
    let end = match virtual_address.checked_add(size as u64) {
        Some(value) => value,
        None => return None,
    };
    if end <= virtual_address {
        return None;
    }
    proof {
        lemma_page_round_down(virtual_address);
        lemma_page_round_down((end - 1) as u64);
    }
    Some((virtual_address & !(PAGE_SIZE - 1), (end - 1) & !(PAGE_SIZE - 1)))
}

/// Whether the pages of a buffer map to consecutive physical pages from
/// `first_page`: page `k` must translate to `first_page + k` pages.
pub open spec fn pages_consecutive(first_page: u64, translations: Seq<Option<u64>>) -> bool {
    forall|k: int|
        0 <= k < translations.len() ==> first_page + k * PAGE_SIZE <= u64::MAX && #[trigger] translations[k] == Some(
            (first_page + k * PAGE_SIZE) as u64,
        )
}

/// The physical address of a buffer at `virtual_address` whose first byte
/// translates to `first_physical` and whose pages translate, in order, to
/// `translations`, when the buffer is physically contiguous.
pub fn check_contiguous_physical(
    virtual_address: u64,
    first_physical: Option<u64>,
    translations: &[Option<u64>],
) -> (r: Option<u64>)
    requires
        translations@.len() >= 1,
    ensures
        match first_physical {
            None => r is None,
            Some(p) => {
                let first_page = p & !0xFFFu64;
                if pages_consecutive(first_page, translations@) && first_page + (virtual_address & 0xFFFu64)
                    <= u64::MAX {
                    r == Some((first_page + (virtual_address & 0xFFFu64)) as u64)
                } else {
                    r is None
                }
            },
        },
{
    let physical_start = match first_physical {
        Some(p) => p,
        None => return None,
    };
    let first_offset = virtual_address & 0xFFFu64;
    let first_page = physical_start & !0xFFFu64;
    let mut expected = first_page;
    let mut k: usize = 0;
    while k < translations.len()
        invariant
            k <= translations@.len(),
            first_physical == Some(physical_start),
            first_page == physical_start & !0xFFFu64,
            k < translations@.len() ==> expected == first_page + k * PAGE_SIZE,
            forall|j: int|
                0 <= j < k ==> first_page + j * PAGE_SIZE <= u64::MAX && #[trigger] translations@[j] == Some(
                    (first_page + j * PAGE_SIZE) as u64,
                ),
        decreases translations@.len() - k,
    {
        let matches = match translations[k] {
            Some(physical) => physical == expected,
            None => false,
        };
        if !matches {
            proof {
                assert(translations@[k as int] != Some((first_page + k * PAGE_SIZE) as u64));
                assert(!pages_consecutive(first_page, translations@));
            }
            return None;
        }
        if k + 1 < translations.len() {
            expected = match expected.checked_add(PAGE_SIZE) {
                Some(value) => value,
                None => {
                    proof {
                        assert(!(first_page + (k + 1) * PAGE_SIZE <= u64::MAX));
                        assert(translations@[k + 1] == translations@[k + 1]);
                    }
                    return None;
                },
            };
        }
        k = k + 1;
    }
    first_page.checked_add(first_offset)
}


/// Whether the heap allocator has been given its region.
pub fn allocator_ready(allocators: &Allocators) -> (r: bool)
    ensures
        r == allocators.heap_initialized,
{
    allocators.heap_initialized
}

/// Where physical memory is mapped in the kernel's address space.
pub fn physical_memory_offset(status: &crate::memory::MemoryStatus) -> (r: u64)
    ensures
        r == status.physical_memory_offset,
{
    status.physical_memory_offset
}

} // verus!
