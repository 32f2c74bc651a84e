//! Physical and virtual memory layout: page sizes, the userspace range and
//! address arithmetic.

use vstd::prelude::*;

pub mod allocator;
pub mod dma;
pub mod user;

verus! {

/// Size of a small page.
pub const PAGE_SIZE: u64 = 0x1000;

/// Size of a large page.
pub const LARGE_PAGE_SIZE: u64 = 0x20_0000;

/// Lowest physical address the frame allocators hand out.
pub const MIN_ALLOCATOR_ADDRESS: u64 = 0x10_0000;

/// Physical memory set aside for page tables.
pub const PAGE_TABLE_RESERVE_SIZE: u64 = 0x40_0000;

/// Physical memory set aside for the kernel heap and USB DMA.
pub const DMA_REGION_SIZE: u64 = 0x800_0000;

/// The part of the DMA region that USB DMA gets.
pub const USB_DMA_SIZE: u64 = 0x1C0_0000;

/// Lowest userspace address.
pub const USER_MIN: u64 = 0x0000_0000_0000_1000;

/// End of userspace: the first address above it.
pub const USER_MAX: u64 = 0x0000_8000_0000_0000;

/// `value` rounded up to the bit mask of `alignment` (`value + alignment -
/// 1` with the bits of `alignment - 1` cleared); `None` for a zero
/// alignment or when the sum passes `u64::MAX`.
pub fn align_up(value: u64, alignment: u64) -> (r: Option<u64>)
    ensures
        alignment == 0 ==> r is None,
        alignment != 0 && value + (alignment - 1) > u64::MAX ==> r is None,
        alignment != 0 && value + (alignment - 1) <= u64::MAX ==> r == Some(
            ((value + (alignment - 1)) as u64) & !((alignment - 1) as u64),
        ),
{
    if alignment == 0 {
        return None;
    }
    match value.checked_add(alignment - 1) {
        Some(sum) => Some(sum & !(alignment - 1)),
        None => None,
    }
}

/// Clearing the low twelve bits rounds down to a page boundary.
pub proof fn lemma_page_round_down(x: u64)
    ensures
        x & !0xFFFu64 == x - x % 4096,
        (x & !0xFFFu64) % 4096 == 0,
{
    assert(x & !0xFFFu64 == x - x % 4096) by (bit_vector);
    assert((x & !0xFFFu64) % 4096 == 0) by (bit_vector);
}

/// Clearing the low twenty-one bits rounds down to a large-page boundary.
pub proof fn lemma_large_page_round_down(x: u64)
    ensures
        x & !0x1F_FFFFu64 == x - x % 0x20_0000,
        (x & !0x1F_FFFFu64) % 0x20_0000 == 0,
{
    assert(x & !0x1F_FFFFu64 == x - x % 0x20_0000) by (bit_vector);
    assert((x & !0x1F_FFFFu64) % 0x20_0000 == 0) by (bit_vector);
}

/// Rounding up to a page gives the least page boundary not below `value`.
pub proof fn lemma_align_up_page(value: u64)
    requires
        value + 0xFFF <= u64::MAX,
    ensures
        ({
            let r = ((value + 0xFFF) as u64) & !0xFFFu64;
            &&& r % 4096 == 0
            &&& value <= r < value + 4096
        }),
{
    lemma_page_round_down((value + 0xFFF) as u64);
}

/// Rounding up to a large page gives the least large-page boundary not
/// below `value`.
pub proof fn lemma_align_up_large_page(value: u64)
    requires
        value + 0x1F_FFFF <= u64::MAX,
    ensures
        ({
            let r = ((value + 0x1F_FFFF) as u64) & !0x1F_FFFFu64;
            &&& r % 0x20_0000 == 0
            &&& value <= r < value + 0x20_0000
        }),
{
    lemma_large_page_round_down((value + 0x1F_FFFF) as u64);
}

// ============================================================
// Boot memory map
// ============================================================

/// One region of the boot memory map.
#[derive(Clone, Copy, Debug, PartialEq, Eq, Structural)]
pub struct MemoryRegion {
    pub start: u64,
    pub end: u64,
    pub usable: bool,
}

/// Memory set aside for page tables and the DMA region together.
pub const DMA_RESERVATION: u64 = 0x840_0000;

/// Where the reservation goes in one region: at the first large page at
/// or above both the region start and `MIN_ALLOCATOR_ADDRESS`, if it fits
/// before the region ends.  `Err(())` when the address arithmetic
/// overflows, which ends the search.
pub open spec fn placement_in(region: MemoryRegion) -> Result<Option<(u64, u64)>, ()> {
    let minimum = if region.start < MIN_ALLOCATOR_ADDRESS { MIN_ALLOCATOR_ADDRESS } else { region.start };
    if minimum + (LARGE_PAGE_SIZE - 1) > u64::MAX {
        Err(())
    } else {
        let start = ((minimum + (LARGE_PAGE_SIZE - 1)) as u64) & !0x1F_FFFFu64;
        if start + DMA_RESERVATION > u64::MAX {
            Err(())
        } else if start + DMA_RESERVATION <= region.end {
            Ok(Some((start, (start + DMA_RESERVATION) as u64)))
        } else {
            Ok(None)
        }
    }
}

/// The reservation in the first usable region of `regions` from `i` that
/// holds it.
pub open spec fn dma_region_from(regions: Seq<MemoryRegion>, i: int) -> Option<(u64, u64)>
    decreases regions.len() - i,
{
    if i < 0 || i >= regions.len() {
        None
    } else if !regions[i].usable {
        dma_region_from(regions, i + 1)
    } else {
        match placement_in(regions[i]) {
            Err(_) => None,
            Ok(Some(found)) => Some(found),
            Ok(None) => dma_region_from(regions, i + 1),
        }
    }
}

/// Finds room for the page-table and DMA reservation (132 MiB, large-page
/// aligned, above 1 MiB) in the first usable region that holds it.
pub fn find_dma_region(regions: &[MemoryRegion]) -> (r: Option<(u64, u64)>)
    ensures
        r == dma_region_from(regions@, 0),
        r matches Some((start, end)) ==> end == start + DMA_RESERVATION && start % 0x20_0000 == 0
            && start >= MIN_ALLOCATOR_ADDRESS,
{
    let mut i: usize = 0;
    while i < regions.len()
        invariant
            i <= regions@.len(),
            dma_region_from(regions@, i as int) == dma_region_from(regions@, 0),
        decreases regions@.len() - i,
    {
        let region = regions[i];
        if !region.usable {
            i = i + 1;
            continue;
        }
        let minimum = if region.start < MIN_ALLOCATOR_ADDRESS { MIN_ALLOCATOR_ADDRESS } else { region.start };
        let start = match align_up(minimum, LARGE_PAGE_SIZE) {
            Some(value) => value,
            None => return None,
        };
        proof {
            assert(((LARGE_PAGE_SIZE - 1) as u64) == 0x1F_FFFFu64);
            lemma_align_up_large_page(minimum);
        }
        let end = match start.checked_add(DMA_RESERVATION) {
            Some(value) => value,
            None => return None,
        };
        if end <= region.end {
            return Some((start, end));
        }
        i = i + 1;
    }
    None
}

/// The split of the reservation at `[region_start, region_end)`: page
/// tables first, then the kernel heap, then USB DMA at the end.
#[derive(Clone, Copy, Debug, PartialEq, Eq, Structural)]
pub struct MemoryLayout {
    pub page_table_start: u64,
    pub page_table_end: u64,
    pub kernel_heap_start: u64,
    pub kernel_heap_end: u64,
    pub dma_start: u64,
    pub dma_end: u64,
}

/// The layout of the reservation, or the message the kernel stops with.
pub open spec fn memory_layout_of(region_start: u64, region_end: u64) -> Result<MemoryLayout, &'static str> {
    if region_start + PAGE_TABLE_RESERVE_SIZE > u64::MAX {
        Err("Rusty: page-table reserve overflow")
    } else if region_end < USB_DMA_SIZE {
        Err("Rusty: USB DMA region underflow")
    } else if region_end - USB_DMA_SIZE <= region_start + PAGE_TABLE_RESERVE_SIZE {
        Err("Rusty: USB DMA region leaves no kernel heap")
    } else {
        Ok(
            MemoryLayout {
                page_table_start: region_start,
                page_table_end: (region_start + PAGE_TABLE_RESERVE_SIZE) as u64,
                kernel_heap_start: (region_start + PAGE_TABLE_RESERVE_SIZE) as u64,
                kernel_heap_end: (region_end - USB_DMA_SIZE) as u64,
                dma_start: (region_end - USB_DMA_SIZE) as u64,
                dma_end: region_end,
            },
        )
    }
}

/// Splits the reservation into page tables, kernel heap and USB DMA.
pub fn memory_layout(region_start: u64, region_end: u64) -> (r: Result<MemoryLayout, &'static str>)
    ensures
        r == memory_layout_of(region_start, region_end),
        r matches Ok(l) ==> l.page_table_start < l.page_table_end == l.kernel_heap_start < l.kernel_heap_end
            == l.dma_start < l.dma_end,
{
    let page_table_end = match region_start.checked_add(PAGE_TABLE_RESERVE_SIZE) {
        Some(value) => value,
        None => return Err("Rusty: page-table reserve overflow"),
    };
    let kernel_heap_end = match region_end.checked_sub(USB_DMA_SIZE) {
        Some(value) => value,
        None => return Err("Rusty: USB DMA region underflow"),
    };
    if kernel_heap_end <= page_table_end {
        return Err("Rusty: USB DMA region leaves no kernel heap");
    }
    Ok(
        MemoryLayout {
            page_table_start: region_start,
            page_table_end,
            kernel_heap_start: page_table_end,
            kernel_heap_end,
            dma_start: kernel_heap_end,
            dma_end: region_end,
        },
    )
}

/// The pages to identity-map for `size` bytes of MMIO at `address`:
/// `Ok(None)` for an empty range, or the message the kernel stops with.
pub open spec fn mmio_pages_of(address: u64, size: usize) -> Result<Option<(u64, u64)>, &'static str> {
    if size == 0 {
        Ok(None)
    } else if address + size > u64::MAX {
        Err("Rusty: MMIO range overflow")
    } else if address + size + 0xFFF > u64::MAX {
        Err("Rusty: MMIO alignment overflow")
    } else {
        Ok(Some((address & !0xFFFu64, ((address + size + 0xFFF) as u64) & !0xFFFu64)))
    }
}

/// The page range of an MMIO window.
pub fn mmio_pages(address: u64, size: usize) -> (r: Result<Option<(u64, u64)>, &'static str>)
    ensures
        r == mmio_pages_of(address, size),
        r matches Ok(Some((start, end))) ==> start % 4096 == 0 && end % 4096 == 0 && start <= address && address
            + size <= end,
{
    if size == 0 {
        return Ok(None);
    }
    let start = address & !(PAGE_SIZE - 1);
    let end_unaligned = match address.checked_add(size as u64) {
        Some(value) => value,
        None => return Err("Rusty: MMIO range overflow"),
    };
    let end = match align_up(end_unaligned, PAGE_SIZE) {
        Some(value) => value,
        None => return Err("Rusty: MMIO alignment overflow"),
    };
    proof {
        assert(((PAGE_SIZE - 1) as u64) == 0xFFFu64);
        lemma_page_round_down(address);
        lemma_align_up_page(end_unaligned);
    }
    Ok(Some((start, end)))
}


/// What the kernel knows of its page-table mapper: whether it is set up,
/// and where physical memory is mapped in the kernel's address space.
#[derive(Clone, Copy, Debug)]
pub struct MemoryStatus {
    pub mapper_ready: bool,
    pub physical_memory_offset: u64,
}

/// Whether the page-table mapper is set up.
pub fn mapper_ready(status: &MemoryStatus) -> (r: bool)
    ensures
        r == status.mapper_ready,
{
    status.mapper_ready
}

} // verus!
