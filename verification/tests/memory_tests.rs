use rusty::memory::allocator::{
    allocator_ready, check_contiguous_physical, page_span, physical_memory_offset, physical_to_virtual,
    power_of_two, region_error, Allocators,
};
use rusty::memory::dma::{DmaLimits, DmaMapError, RustyDma};
use rusty::memory::user::{table_index, user_range_pages, validate_user_page, validate_user_range};
use rusty::memory::{align_up, find_dma_region, mapper_ready, memory_layout, mmio_pages, MemoryRegion, MemoryStatus};

#[test]
fn align_up_rounds_to_the_mask() {
    assert_eq!(align_up(0x1001, 0x1000), Some(0x2000));
    assert_eq!(align_up(0x2000, 0x1000), Some(0x2000));
    assert_eq!(align_up(5, 0), None);
    assert_eq!(align_up(u64::MAX, 2), None);
}

#[test]
fn memory_layout_splits_the_reservation() {
    let layout = memory_layout(0x100_0000, 0x100_0000 + 0x840_0000).unwrap();
    assert_eq!(layout.page_table_start, 0x100_0000);
    assert_eq!(layout.page_table_end, 0x140_0000);
    assert_eq!(layout.kernel_heap_start, 0x140_0000);
    assert_eq!(layout.dma_end, 0x940_0000);
    assert_eq!(layout.dma_start, 0x940_0000 - 0x1C0_0000);
}

#[test]
fn memory_layout_errors() {
    assert_eq!(memory_layout(u64::MAX - 10, u64::MAX), Err("Rusty: page-table reserve overflow"));
    assert_eq!(memory_layout(0, 0x100), Err("Rusty: USB DMA region underflow"));
    assert_eq!(memory_layout(0x100_0000, 0x100_0000 + 0x1C0_0000 + 0x40_0000), Err("Rusty: USB DMA region leaves no kernel heap"));
}

#[test]
fn dma_region_is_found_in_a_usable_region() {
    let regions = [
        MemoryRegion { start: 0, end: 0x9_F000, usable: true },
        MemoryRegion { start: 0x10_0000, end: 0x2000_0000, usable: true },
    ];
    let (start, end) = find_dma_region(&regions).unwrap();
    assert_eq!(start % 0x20_0000, 0);
    assert!(start >= 0x10_0000);
    assert_eq!(end - start, 0x840_0000);
    let none = [MemoryRegion { start: 0x10_0000, end: 0x2000_0000, usable: false }];
    assert_eq!(find_dma_region(&none), None);
}

#[test]
fn mmio_pages_cover_the_window() {
    assert_eq!(mmio_pages(0xFEE0_0010, 4), Ok(Some((0xFEE0_0000, 0xFEE0_1000))));
    assert_eq!(mmio_pages(0x1000, 0), Ok(None));
    assert_eq!(mmio_pages(u64::MAX, 2), Err("Rusty: MMIO range overflow"));
}

#[test]
fn heap_allocation_is_aligned_and_bounded() {
    assert_eq!(region_error(0x100_0000, 0x140_0000, 0x140_0000, 0x780_0000, 0x780_0000, 0x940_0000), None);
    let mut a = Allocators::init_regions(0x100_0000, 0x140_0000, 0x140_0000, 0x780_0000, 0x780_0000, 0x940_0000);
    assert!(allocator_ready(&a));
    let first = a.heap_alloc(10, 1).unwrap();
    assert_eq!(first, 0x140_0000);
    let second = a.heap_alloc(16, 16).unwrap();
    assert_eq!(second, 0x140_0010);
    assert_eq!(a.heap_alloc(0x1000_0000, 8), None);
    let mut empty = Allocators::empty();
    assert!(!allocator_ready(&empty));
    assert_eq!(empty.heap_alloc(1, 1), None);
}

#[test]
fn page_table_frames_come_in_order() {
    let mut a = Allocators::init_regions(0x100_0000, 0x100_2000, 0x140_0000, 0x780_0000, 0x780_0000, 0x940_0000);
    assert_eq!(a.allocate_page_table_frame(), Some(0x100_0000));
    assert_eq!(a.allocate_page_table_frame(), Some(0x100_1000));
    assert_eq!(a.allocate_page_table_frame(), None);
}

#[test]
fn dma_allocation_respects_alignment_and_boundary() {
    let mut a = Allocators::init_regions(0x100_0000, 0x140_0000, 0x140_0000, 0x780_0000, 0x780_1000, 0x940_0000);
    let address = a.allocate_dma_region(100, 0x1000, None).unwrap();
    assert_eq!(address % 0x1000, 0);
    assert!(a.dma_address_valid(address, 100));
    let crossing = a.allocate_dma_region(0x800, 0x1000, Some(0x10000)).unwrap();
    assert_eq!(crossing / 0x10000, (crossing + 0x7FF) / 0x10000);
    assert_eq!(a.allocate_dma_region(0, 8, None), None);
    assert_eq!(a.allocate_dma_region(16, 3, None), None);
}

#[test]
fn power_of_two_checks() {
    assert!(power_of_two(1));
    assert!(power_of_two(4096));
    assert!(!power_of_two(0));
    assert!(!power_of_two(12));
}

#[test]
fn page_spans_and_direct_map() {
    assert_eq!(page_span(0x1FFF, 2), Some((0x1000, 0x2000)));
    assert_eq!(page_span(0x1000, 0), None);
    assert_eq!(physical_to_virtual(0xFFFF_8000_0000_0000, 0x1234), 0xFFFF_8000_0000_1234);
    let status = MemoryStatus { mapper_ready: true, physical_memory_offset: 0x8000 };
    assert!(mapper_ready(&status));
    assert_eq!(physical_memory_offset(&status), 0x8000);
}

#[test]
fn contiguity_of_translations() {
    assert_eq!(check_contiguous_physical(0x5010, Some(0x9010), &[Some(0x9000), Some(0xA000)]), Some(0x9010));
    assert_eq!(check_contiguous_physical(0x5010, Some(0x9010), &[Some(0x9000), Some(0xC000)]), None);
    assert_eq!(check_contiguous_physical(0x5010, None, &[Some(0x9000)]), None);
}

#[test]
fn streaming_dma_uses_the_buffer_or_a_bounce() {
    let dma = RustyDma;
    assert_eq!(dma.page_size(), 4096);
    let mut a = Allocators::init_regions(0x100_0000, 0x140_0000, 0x140_0000, 0x780_0000, 0x780_0000, 0x940_0000);
    let limits = DmaLimits { align: 1, max_segment_size: None, addr_mask: u64::MAX, boundary: None };
    let direct = dma.map_streaming(&mut a, limits, 0x5000, 64, Some(0x9000)).unwrap();
    assert_eq!(direct.dma_address, 0x9000);
    assert!(!direct.bounce);
    let bounced = dma.map_streaming(&mut a, limits, 0x5000, 64, None).unwrap();
    assert!(bounced.bounce);
    let small = DmaLimits { align: 1, max_segment_size: Some(16), addr_mask: u64::MAX, boundary: None };
    assert_eq!(dma.map_streaming(&mut a, small, 0x5000, 64, None), Err(DmaMapError::SegmentTooLarge { size: 64, max: 16 }));
    let contiguous = dma.alloc_contiguous(&mut a, limits, 256, 64).unwrap();
    assert_eq!(contiguous % 64, 0);
}

#[test]
fn user_pages() {
    assert_eq!(table_index(0x0000_7FFF_FFFF_F000, 4), 255);
    assert_eq!(table_index(0x1000, 1), 1);
    assert!(validate_user_page(0x40_0000, Some(0x7), true));
    assert!(!validate_user_page(0x40_0000, Some(0x5), true));
    assert!(validate_user_page(0x40_0000, Some(0x5), false));
    assert!(!validate_user_page(0x0, Some(0x7), false));
    assert!(!validate_user_page(0x40_0000, None, false));
    assert_eq!(user_range_pages(0x40_0FFF, 2), Ok((0x40_0000, 0x40_1000)));
    assert_eq!(user_range_pages(0x40_0000, 0), Err(true));
    assert_eq!(user_range_pages(0x10, 4), Err(false));
    assert!(validate_user_range(0x40_0FFF, 2, true, &[Some(7), Some(7)]));
    assert!(!validate_user_range(0x40_0FFF, 2, true, &[Some(7), Some(5)]));
}
