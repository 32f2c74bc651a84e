//! Userspace address checks and the four-level page walk over a process's
//! page tables: each step takes the entry read at one level and says which
//! entry to read next, or what the walk found.

use vstd::prelude::*;

use crate::memory::{lemma_page_round_down, USER_MAX, USER_MIN};

verus! {

/// Entry flag: present.
pub const PTE_PRESENT: u64 = 0x1;

/// Entry flag: writable.
pub const PTE_WRITABLE: u64 = 0x2;

/// Entry flag: user accessible.
pub const PTE_USER_ACCESSIBLE: u64 = 0x4;

/// Entry flag: maps a huge page.
pub const PTE_HUGE_PAGE: u64 = 0x80;

/// The physical address bits of an entry.
pub const PTE_ADDRESS_MASK: u64 = 0x000F_FFFF_FFFF_F000;

/// The physical address an entry points to.
pub open spec fn entry_address(entry: u64) -> u64 {
    entry & PTE_ADDRESS_MASK
}

/// The flag bits of an entry: everything but the address.
pub open spec fn entry_flags(entry: u64) -> u64 {
    entry & !PTE_ADDRESS_MASK
}

/// The index into the table at `level` (4 for the top) of `address`.
pub open spec fn table_index_of(address: u64, level: u8) -> usize {
    ((address >> (12 + 9 * (level - 1)) as u64) & 0x1FF) as usize
}

/// The index into the table at `level` of `address`.
pub fn table_index(address: u64, level: u8) -> (r: usize)
    requires
        1 <= level <= 4,
    ensures
        r == table_index_of(address, level),
        r < 512,
{
    let shift: u64 = 12 + 9 * (level as u64 - 1);
    proof {
        assert((address >> shift) & 0x1FF <= 0x1FF) by (bit_vector);
    }
    ((address >> shift) & 0x1FF) as usize
}

/// Whether `address` is a userspace address.
pub open spec fn is_user_address(address: u64) -> bool {
    USER_MIN <= address < USER_MAX
}

/// What a walk step asks for or found.
#[derive(Clone, Copy, Debug, PartialEq, Eq, Structural)]
pub enum WalkStep {
    /// Read entry `index` of the table at physical address `table`.
    Read { table: u64, index: usize },
    /// The 4 KiB frame that maps the page.
    Frame(u64),
    /// The effective flags of the page.
    Flags(u64),
    /// The page is not mapped.
    Missing,
}

/// The first step of a walk for `address` from the top table at
/// `level_4_table`: userspace addresses only.
pub open spec fn walk_start_of(level_4_table: u64, address: u64) -> WalkStep {
    if !is_user_address(address) {
        WalkStep::Missing
    } else {
        WalkStep::Read { table: level_4_table, index: table_index_of(address, 4) }
    }
}

/// Starts a walk for `address`.
pub fn walk_start(level_4_table: u64, address: u64) -> (r: WalkStep)
    ensures
        r == walk_start_of(level_4_table, address),
{
    if address < USER_MIN || address >= USER_MAX {
        return WalkStep::Missing;
    }
    WalkStep::Read { table: level_4_table, index: table_index(address, 4) }
}

/// The frame of the 4 KiB page holding `address` inside a huge page
/// whose entry is `entry` and whose size mask is `offset_mask`; `None`
/// when it overflows or is not page aligned.
pub open spec fn huge_frame_of(entry: u64, address: u64, offset_mask: u64) -> Option<u64> {
    let page_offset = (address & !0xFFFu64) & offset_mask;
    let physical = entry_address(entry) + page_offset;
    if physical > u64::MAX || physical % 4096 != 0 {
        None
    } else {
        Some(physical as u64)
    }
}

/// The step after reading `entry` at `level` while looking for the frame
/// of `address`: a missing entry ends the walk, a huge page at level 3 or
/// 2 gives the frame inside it, level 1 gives the frame, and otherwise the
/// next table is read.
pub open spec fn frame_step_of(address: u64, level: u8, entry: u64) -> WalkStep {
    if entry & PTE_PRESENT == 0 {
        WalkStep::Missing
    } else if level == 4 {
        WalkStep::Read { table: entry_address(entry), index: table_index_of(address, 3) }
    } else if level == 3 && entry & PTE_HUGE_PAGE != 0 {
        match huge_frame_of(entry, address, 0x3FFF_FFFF) {
            Some(f) => WalkStep::Frame(f),
            None => WalkStep::Missing,
        }
    } else if level == 3 {
        WalkStep::Read { table: entry_address(entry), index: table_index_of(address, 2) }
    } else if level == 2 && entry & PTE_HUGE_PAGE != 0 {
        match huge_frame_of(entry, address, 0x1F_FFFF) {
            Some(f) => WalkStep::Frame(f),
            None => WalkStep::Missing,
        }
    } else if level == 2 {
        WalkStep::Read { table: entry_address(entry), index: table_index_of(address, 1) }
    } else {
        WalkStep::Frame(entry_address(entry))
    }
}

fn huge_frame(entry: u64, address: u64, offset_mask: u64) -> (r: Option<u64>)
    ensures
        r == huge_frame_of(entry, address, offset_mask),
{
    let page_offset = (address & !0xFFFu64) & offset_mask;
    match (entry & PTE_ADDRESS_MASK).checked_add(page_offset) {
        Some(physical) => {
            if physical % 4096 != 0 {
                None
            } else {
                Some(physical)
            }
        },
        None => None,
    }
}

/// One step of the walk for the frame of `address`, given the entry read
/// at `level` (4 to 1).
pub fn frame_walk_step(address: u64, level: u8, entry: u64) -> (r: WalkStep)
    requires
        1 <= level <= 4,
    ensures
        r == frame_step_of(address, level, entry),
        r matches WalkStep::Frame(f) ==> f % 4096 == 0,
        r matches WalkStep::Read { index, .. } ==> index < 512 && level > 1,
{
    if entry & PTE_PRESENT == 0 {
        return WalkStep::Missing;
    }
    proof {
        assert((entry & PTE_ADDRESS_MASK) % 4096 == 0) by (bit_vector);
    }
    if level == 4 {
        WalkStep::Read { table: entry & PTE_ADDRESS_MASK, index: table_index(address, 3) }
    } else if level == 3 && entry & PTE_HUGE_PAGE != 0 {
        match huge_frame(entry, address, 0x3FFF_FFFF) {
            Some(f) => WalkStep::Frame(f),
            None => WalkStep::Missing,
        }
    } else if level == 3 {
        WalkStep::Read { table: entry & PTE_ADDRESS_MASK, index: table_index(address, 2) }
    } else if level == 2 && entry & PTE_HUGE_PAGE != 0 {
        match huge_frame(entry, address, 0x1F_FFFF) {
            Some(f) => WalkStep::Frame(f),
            None => WalkStep::Missing,
        }
    } else if level == 2 {
        WalkStep::Read { table: entry & PTE_ADDRESS_MASK, index: table_index(address, 1) }
    } else {
        WalkStep::Frame(entry & PTE_ADDRESS_MASK)
    }
}

/// The step after reading `entry` at `level` while collecting the flags of
/// `address`, with `effective` the flags of the levels above (all bits at
/// the top): the flags of every level are combined with AND, and a huge
/// page or level 1 ends the walk.
pub open spec fn flags_step_of(address: u64, level: u8, entry: u64, effective: u64) -> (WalkStep, u64) {
    let combined = effective & entry_flags(entry);
    if entry & PTE_PRESENT == 0 {
        (WalkStep::Missing, effective)
    } else if level == 4 {
        (WalkStep::Read { table: entry_address(entry), index: table_index_of(address, 3) }, entry_flags(entry))
    } else if (level == 3 || level == 2) && entry & PTE_HUGE_PAGE != 0 {
        (WalkStep::Flags(combined), combined)
    } else if level == 3 {
        (WalkStep::Read { table: entry_address(entry), index: table_index_of(address, 2) }, combined)
    } else if level == 2 {
        (WalkStep::Read { table: entry_address(entry), index: table_index_of(address, 1) }, combined)
    } else {
        (WalkStep::Flags(combined), combined)
    }
}

/// One step of the walk for the flags of `address`.
pub fn flags_walk_step(address: u64, level: u8, entry: u64, effective: u64) -> (r: (WalkStep, u64))
    requires
        1 <= level <= 4,
    ensures
        r == flags_step_of(address, level, entry, effective),
{
    let flags = entry & !PTE_ADDRESS_MASK;
    let combined = effective & flags;
    if entry & PTE_PRESENT == 0 {
        (WalkStep::Missing, effective)
    } else if level == 4 {
        (WalkStep::Read { table: entry & PTE_ADDRESS_MASK, index: table_index(address, 3) }, flags)
    } else if (level == 3 || level == 2) && entry & PTE_HUGE_PAGE != 0 {
        (WalkStep::Flags(combined), combined)
    } else if level == 3 {
        (WalkStep::Read { table: entry & PTE_ADDRESS_MASK, index: table_index(address, 2) }, combined)
    } else if level == 2 {
        (WalkStep::Read { table: entry & PTE_ADDRESS_MASK, index: table_index(address, 1) }, combined)
    } else {
        (WalkStep::Flags(combined), combined)
    }
}

/// The walks read the tables of x86-64 four-level paging: the first read
/// is entry `(address >> 39) & 0x1FF` of the top table; after a present
/// entry at level `L` that points to a table, the next read is in the
/// table at the entry's address bits, at the index of the level below,
/// `(address >> (12 + 9 * (L - 2))) & 0x1FF`; a present level-1 entry gives
/// the frame at its address bits; an entry that is not present ends the
/// walk with nothing.
pub proof fn lemma_walk_follows_paging(level_4_table: u64, address: u64, level: u8, entry: u64, effective: u64)
    requires
        1 <= level <= 4,
    ensures
        walk_start_of(level_4_table, address) matches WalkStep::Read { table, index } ==> (table == level_4_table
            && index == ((address >> 39u64) & 0x1FF) as usize),
        frame_step_of(address, level, entry) matches WalkStep::Read { table, index } ==> (entry & 1 != 0 && 2
            <= level && table == entry & 0x000F_FFFF_FFFF_F000 && index == ((address >> (12 + 9 * (level - 2)) as u64)
            & 0x1FF) as usize),
        flags_step_of(address, level, entry, effective).0 matches WalkStep::Read { table, index } ==> (entry & 1
            != 0 && 2 <= level && table == entry & 0x000F_FFFF_FFFF_F000 && index == ((address >> (12 + 9 * (level
            - 2)) as u64) & 0x1FF) as usize),
        level == 1 && entry & 1 != 0 ==> frame_step_of(address, level, entry) == WalkStep::Frame(
            entry & 0x000F_FFFF_FFFF_F000,
        ),
        entry & 1 == 0 ==> frame_step_of(address, level, entry) == WalkStep::Missing && flags_step_of(
            address,
            level,
            entry,
            effective,
        ).0 == WalkStep::Missing,
        level >= 2 && entry & 1 != 0 && entry & 0x80 == 0 ==> frame_step_of(address, level, entry) is Read,
        (level == 3 || level == 2) && entry & 1 != 0 && entry & 0x80 != 0 ==> (frame_step_of(address, level, entry)
            matches WalkStep::Frame(f) ==> f == (entry & 0x000F_FFFF_FFFF_F000) + ((address & !0xFFFu64) & (
        if level == 3 {
            0x3FFF_FFFFu64
        } else {
            0x1F_FFFFu64
        }))),
{
}

/// Whether a page with effective flags `flags` (`None` when unmapped) may
/// be read, or written when `writable`, from userspace.
pub open spec fn page_access_ok_of(flags: Option<u64>, writable: bool) -> bool {
    match flags {
        None => false,
        Some(f) => f & PTE_PRESENT != 0 && f & PTE_USER_ACCESSIBLE != 0 && (!writable || f & PTE_WRITABLE != 0),
    }
}

/// Whether one userspace page at `page_address` with effective flags
/// `flags` may be used.
pub fn validate_user_page(page_address: u64, flags: Option<u64>, writable: bool) -> (r: bool)
    ensures
        r == (is_user_address(page_address) && page_access_ok_of(flags, writable)),
{
    if page_address < USER_MIN || page_address >= USER_MAX {
        return false;
    }
    match flags {
        None => false,
        Some(f) => {
            if f & PTE_PRESENT == 0 {
                return false;
            }
            if f & PTE_USER_ACCESSIBLE == 0 {
                return false;
            }
            if writable && f & PTE_WRITABLE == 0 {
                return false;
            }
            true
        },
    }
}

/// The pages a user range of `len` bytes at `ptr` touches, or the verdict
/// when no page needs looking at: an empty range is valid when `ptr` is a
/// userspace address; a range that starts below userspace, wraps or ends
/// above it is not.
pub open spec fn user_range_pages_of(ptr: u64, len: usize) -> Result<(u64, u64), bool> {
    if len == 0 {
        Err(is_user_address(ptr))
    } else if ptr < USER_MIN || ptr + len > u64::MAX || ptr + len > USER_MAX {
        Err(false)
    } else {
        Ok((ptr & !0xFFFu64, ((ptr + len - 1) as u64) & !0xFFFu64))
    }
}

/// The first and last page of a user range, or its verdict.
pub fn user_range_pages(ptr: u64, len: usize) -> (r: Result<(u64, u64), bool>)
    ensures
        r == user_range_pages_of(ptr, len),
        r matches Ok((first, last)) ==> first <= last && first % 4096 == 0 && last % 4096 == 0 && USER_MIN
            <= first && last < USER_MAX,
{
    if len == 0 {
        return Err(ptr >= USER_MIN && ptr < USER_MAX);
    }
    if ptr < USER_MIN {
        return Err(false);
    }
    let end = match ptr.checked_add(len as u64) {
        Some(value) => value,
        None => return Err(false),
    };
    if end > USER_MAX {
        return Err(false);
    }
    proof {
        lemma_page_round_down(ptr);
        lemma_page_round_down((end - 1) as u64);
    }
    Ok((ptr & !0xFFFu64, (end - 1) & !0xFFFu64))
}

/// Whether a user range of `len` bytes at `ptr` may be used, given the
/// effective flags of each page it touches, in order.  Every page must be
/// present, user accessible and, when `writable`, writable.
pub fn validate_user_range(ptr: u64, len: usize, writable: bool, page_flags: &[Option<u64>]) -> (r: bool)
    requires
        user_range_pages_of(ptr, len) matches Ok((first, last)) ==> page_flags@.len() == (last - first) / 4096 + 1,
    ensures
        r == match user_range_pages_of(ptr, len) {
            Err(verdict) => verdict,
            Ok((first, last)) => forall|k: int|
                0 <= k < page_flags@.len() ==> #[trigger] page_access_ok_of(page_flags@[k], writable),
        },
{
    let (first, last) = match user_range_pages(ptr, len) {
        Ok(pages) => pages,
        Err(verdict) => return verdict,
    };
    let mut k: usize = 0;
    let mut page_address = first;
    while k < page_flags.len()
        invariant
            k <= page_flags@.len(),
            k < page_flags@.len() ==> page_address == first + k * 4096,
            user_range_pages_of(ptr, len) == Ok::<(u64, u64), bool>((first, last)),
            first <= last < USER_MAX,
            page_flags@.len() == (last - first) / 4096 + 1,
            first % 4096 == 0,
            last % 4096 == 0,
            USER_MIN <= first,
            forall|j: int| 0 <= j < k ==> #[trigger] page_access_ok_of(page_flags@[j], writable),
        decreases page_flags@.len() - k,
    {
        proof {
            assert(page_address <= last) by (nonlinear_arith)
                requires
                    page_address == first + k * 4096,
                    k < (last - first) / 4096 + 1,
                    first <= last,
                    (last - first) % 4096 == 0,
            ;
        }
        if !validate_user_page(page_address, page_flags[k], writable) {
            return false;
        }
        if k + 1 < page_flags.len() {
            page_address = page_address + 4096;
        }
        k = k + 1;
    }
    true
}

} // verus!
