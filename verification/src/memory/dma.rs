//! DMA for the USB stack: contiguous allocations from the DMA region and
//! streaming mappings that use a buffer in place when the device can reach
//! it, or a bounce buffer from the DMA region when it cannot.

use vstd::prelude::*;

use crate::memory::allocator::{
    dma_placement, dma_reserved_size, is_power_of_two, power_of_two, Allocators,
};
use crate::memory::PAGE_SIZE;

verus! {

/// What a device asks of its DMA buffers: alignment, largest segment,
/// highest reachable address and a boundary no buffer may cross.
#[derive(Clone, Copy, Debug, PartialEq, Eq, Structural)]
pub struct DmaLimits {
    pub align: usize,
    pub max_segment_size: Option<usize>,
    pub addr_mask: u64,
    pub boundary: Option<usize>,
}

/// Why a streaming mapping failed.
#[derive(Clone, Copy, Debug, PartialEq, Eq, Structural)]
pub enum DmaMapError {
    SegmentTooLarge { size: usize, max: usize },
    DmaMaskNotMatch { addr: u64, mask: u64 },
    AlignMismatch { required: usize, address: u64 },
    NoMemory,
    BoundaryCross { addr: u64, size: usize, boundary: usize },
}

/// A streaming mapping: the device address and whether it is a bounce
/// buffer rather than the caller's buffer itself.
#[derive(Clone, Copy, Debug, PartialEq, Eq, Structural)]
pub struct StreamingMapping {
    pub dma_address: u64,
    pub bounce: bool,
}

/// The larger of two sizes.
pub open spec fn max_usize(a: usize, b: usize) -> usize {
    if a < b {
        b
    } else {
        a
    }
}

/// Whether `size` bytes at `address` stay within one multiple of
/// `boundary` (any buffer does when there is no boundary; none does for a
/// zero boundary).
pub open spec fn within_boundary(address: u64, size: usize, boundary: Option<usize>) -> bool {
    match boundary {
        None => true,
        Some(b) => b != 0 && (address as int) / (b as int) == (address + size - 1) / (b as int),
    }
}

/// Whether the device can use `size` bytes at physical `address` as they
/// are: aligned, below the address mask and within the boundary.
pub open spec fn reachable(address: u64, size: usize, limits: DmaLimits) -> bool {
    &&& (address as int) % (max_usize(limits.align, 1) as int) == 0
    &&& address + size <= u64::MAX
    &&& address + size - 1 <= limits.addr_mask
    &&& within_boundary(address, size, limits.boundary)
}

/// The alignment used for a DMA buffer.
pub open spec fn dma_alignment(align: usize) -> u64 {
    (if align < PAGE_SIZE { PAGE_SIZE as int } else { align as int }) as u64
}

/// Where the DMA region places a buffer of `size` bytes at `align`.
pub open spec fn region_placement(allocators: Allocators, size: usize, align: usize, boundary: Option<usize>) -> Option<
    u64,
> {
    dma_placement(
        allocators.dma.next,
        allocators.dma.end,
        dma_alignment(align),
        size as u64,
        dma_reserved_size(size) as u64,
        boundary,
    )
}

/// The kernel's DMA backend for the USB stack: buffers come from the
/// dedicated DMA region, which is identity mapped and coherent.
pub struct RustyDma;

impl RustyDma {
    /// The page size DMA works in.
    pub fn page_size(&self) -> (r: usize)
        ensures
            r == 4096,
    {
        4096
    }

    /// Allocates `size` physically contiguous bytes for a layout aligned to
    /// `layout_align`: `None` for an empty request, an alignment that is not a
    /// power of two, a request above the largest segment, no room, or a
    /// buffer that ends above the address mask.  The pages reserved run
    /// from the result to the region's new bump pointer; the caller, which
    /// owns the memory, clears them before handing the buffer out.
    pub fn alloc_contiguous(&self, allocators: &mut Allocators, limits: DmaLimits, size: usize, layout_align: usize) -> (r:
        Option<u64>)
        requires
            old(allocators).wf(),
        ensures
            final(allocators).wf(),
            final(allocators).heap == old(allocators).heap,
            final(allocators).page_tables == old(allocators).page_tables,
            ({
                let align = max_usize(max_usize(layout_align, limits.align), 1);
                if size == 0 || !is_power_of_two(align as int) || (limits.max_segment_size matches Some(m) && size > m) {
                    r is None && *final(allocators) == *old(allocators)
                } else if size + 0xFFF > u64::MAX {
                    r is None && *final(allocators) == *old(allocators)
                } else {
                    match region_placement(*old(allocators), size, align, limits.boundary) {
                        None => r is None && *final(allocators) == *old(allocators),
                        Some(address) => {
                            &&& final(allocators).dma.next == address + dma_reserved_size(size)
                            &&& r == (if address + size - 1 <= limits.addr_mask {
                                Some(address)
                            } else {
                                None
                            })
                        },
                    }
                }
            }),
    {
        if size == 0 {
            return None;
        }
        let mut align = if layout_align < limits.align { limits.align } else { layout_align };
        if align < 1 {
            align = 1;
        }
        if !power_of_two(align) {
            return None;
        }
        match limits.max_segment_size {
            Some(max) => {
                if size > max {
                    return None;
                }
            },
            None => {},
        }
        let physical = match allocators.allocate_dma_region(size, align, limits.boundary) {
            Some(p) => p,
            None => return None,
        };
        let end = match physical.checked_add(size as u64) {
            Some(value) => value,
            None => return None,
        };
        let last_byte = end - 1;
        if last_byte > limits.addr_mask {
            return None;
        }
        Some(physical)
    }

    /// Maps `size` bytes at `virtual_address` for streaming DMA.  When the
    /// buffer is physically contiguous from `contiguous` and the device can
    /// reach it, it is used as it is; otherwise a bounce buffer is taken from
    /// the DMA region and checked against the address mask and boundary.
    pub fn map_streaming(
        &self,
        allocators: &mut Allocators,
        limits: DmaLimits,
        virtual_address: u64,
        size: usize,
        contiguous: Option<u64>,
    ) -> (r: Result<StreamingMapping, DmaMapError>)
        requires
            old(allocators).wf(),
            size > 0,
        ensures
            final(allocators).wf(),
            final(allocators).heap == old(allocators).heap,
            final(allocators).page_tables == old(allocators).page_tables,
            ({
                let align = max_usize(limits.align, 1);
                if limits.max_segment_size is Some && size > limits.max_segment_size->Some_0 {
                    r == Err::<StreamingMapping, DmaMapError>(
                        DmaMapError::SegmentTooLarge { size, max: limits.max_segment_size->Some_0 },
                    )
                        && *final(allocators) == *old(allocators)
                } else if contiguous is Some && contiguous->Some_0 + size > u64::MAX {
                    r == Err::<StreamingMapping, DmaMapError>(
                        DmaMapError::DmaMaskNotMatch { addr: contiguous->Some_0, mask: limits.addr_mask },
                    )
                        && *final(allocators) == *old(allocators)
                } else if contiguous is Some && reachable(contiguous->Some_0, size, limits) {
                    r == Ok::<StreamingMapping, DmaMapError>(
                        StreamingMapping { dma_address: contiguous->Some_0, bounce: false },
                    )
                        && *final(allocators) == *old(allocators)
                } else if !is_power_of_two(align as int) {
                    r == Err::<StreamingMapping, DmaMapError>(
                        DmaMapError::AlignMismatch { required: align, address: virtual_address },
                    ) && *final(allocators) == *old(allocators)
                } else if size + 0xFFF > u64::MAX {
                    r == Err::<StreamingMapping, DmaMapError>(DmaMapError::NoMemory) && *final(allocators) == *old(
                        allocators,
                    )
                } else {
                    match region_placement(*old(allocators), size, align, limits.boundary) {
                        None => r == Err::<StreamingMapping, DmaMapError>(DmaMapError::NoMemory) && *final(allocators)
                            == *old(allocators),
                        Some(address) => {
                            &&& final(allocators).dma.next == address + dma_reserved_size(size)
                            &&& r == (if address + size - 1 > limits.addr_mask {
                                Err(DmaMapError::DmaMaskNotMatch { addr: address, mask: limits.addr_mask })
                            } else if !within_boundary(address, size, limits.boundary) {
                                Err(
                                    DmaMapError::BoundaryCross {
                                        addr: address,
                                        size,
                                        boundary: limits.boundary->Some_0,
                                    },
                                )
                            } else {
                                Ok(StreamingMapping { dma_address: address, bounce: true })
                            })
                        },
                    }
                }
            }),
    {
        match limits.max_segment_size {
            Some(max) => {
                if size > max {
                    return Err(DmaMapError::SegmentTooLarge { size, max });
                }
            },
            None => {},
        }
        match contiguous {
            Some(physical_start) => {
                let required = if limits.align < 1 { 1 } else { limits.align };
                let alignment_ok = physical_start % (required as u64) == 0;
                let last_byte = match physical_start.checked_add(size as u64) {
                    Some(end) => end - 1,
                    None => return Err(DmaMapError::DmaMaskNotMatch { addr: physical_start, mask: limits.addr_mask }),
                };
                let mask_ok = last_byte <= limits.addr_mask;
                let boundary_ok = match limits.boundary {
                    None => true,
                    Some(boundary) => {
                        if boundary == 0 {
                            false
                        } else {
                            physical_start / (boundary as u64) == last_byte / (boundary as u64)
                        }
                    },
                };
                if alignment_ok && mask_ok && boundary_ok {
                    return Ok(StreamingMapping { dma_address: physical_start, bounce: false });
                }
            },
            None => {},
        }
        let alignment = if limits.align < 1 { 1 } else { limits.align };
        if !power_of_two(alignment) {
            return Err(DmaMapError::AlignMismatch { required: alignment, address: virtual_address });
        }
        let bounce = match allocators.allocate_dma_region(size, alignment, limits.boundary) {
            Some(p) => p,
            None => return Err(DmaMapError::NoMemory),
        };
        let last_byte = match bounce.checked_add(size as u64) {
            Some(end) => end - 1,
            None => return Err(DmaMapError::DmaMaskNotMatch { addr: bounce, mask: limits.addr_mask }),
        };
        if last_byte > limits.addr_mask {
            return Err(DmaMapError::DmaMaskNotMatch { addr: bounce, mask: limits.addr_mask });
        }
        match limits.boundary {
            Some(boundary) => {
                if boundary == 0 {
                    return Err(DmaMapError::BoundaryCross { addr: bounce, size, boundary });
                }
                if bounce / (boundary as u64) != last_byte / (boundary as u64) {
                    return Err(DmaMapError::BoundaryCross { addr: bounce, size, boundary });
                }
            },
            None => {},
        }
        Ok(StreamingMapping { dma_address: bounce, bounce: true })
    }
}

} // verus!
