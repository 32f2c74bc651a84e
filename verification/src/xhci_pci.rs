//! The xHCI controller on the PCI bus: configuration-space addressing and
//! field access, capability and BAR decoding, the MSI/MSI-X programming
//! plans, the interrupt-mode fallback and the choice of controller.
//!
//! Port I/O stays with the caller: it reads configuration space into
//! values (a function's 256 configuration bytes, a probed BAR), hands
//! them in, and performs the writes that come back.

use vstd::prelude::*;
use crate::memory::allocator::is_power_of_two;
use crate::serial::LogPiece;

verus! {

/// PCI class of serial-bus controllers.
pub const PCI_CLASS_SERIAL_BUS: u8 = 0x0C;

/// PCI subclass of USB controllers.
pub const PCI_SUBCLASS_USB: u8 = 0x03;

/// Programming interface of xHCI controllers.
pub const PCI_PROGIF_XHCI: u8 = 0x30;

/// Configuration offset of the status register.
pub const PCI_STATUS: u8 = 0x06;

/// Configuration offset of the capability-list pointer.
pub const PCI_CAP_PTR: u8 = 0x34;

/// Configuration offset of BAR0.
pub const PCI_BAR0: u8 = 0x10;

/// Number of BARs of a type-0 function.
pub const PCI_MAX_BARS: u8 = 6;

/// Command bit: memory-space decoding.
pub const PCI_COMMAND_MEMORY_SPACE: u16 = 0x2;

/// Command bit: bus mastering.
pub const PCI_COMMAND_BUS_MASTER: u16 = 0x4;

/// Command bit: legacy INTx disabled.
pub const PCI_COMMAND_INTERRUPT_DISABLE: u16 = 0x400;

/// Status bit: a capability list is present.
pub const PCI_STATUS_CAPABILITIES: u16 = 0x10;

/// BAR bit: I/O space.
pub const PCI_BAR_IO_SPACE: u32 = 1;

/// BAR field: memory type.
pub const PCI_BAR_MEMORY_TYPE_MASK: u32 = 0x6;

/// BAR memory type: 64-bit.
pub const PCI_BAR_MEMORY_TYPE_64: u32 = 0x4;

/// BAR address bits.
pub const PCI_BAR_MEMORY_ADDRESS_MASK: u32 = 0xFFFF_FFF0;

/// Capability ID of MSI.
pub const PCI_CAP_ID_MSI: u8 = 0x05;

/// Capability ID of MSI-X.
pub const PCI_CAP_ID_MSIX: u8 = 0x11;

/// MSI control: enable.
pub const MSI_CONTROL_ENABLE: u16 = 0x1;

/// MSI control: multiple-message enable field.
pub const MSI_CONTROL_MME_MASK: u16 = 0xE;

/// MSI control: 64-bit addresses.
pub const MSI_CONTROL_64BIT: u16 = 0x80;

/// MSI control: per-vector masking.
pub const MSI_CONTROL_MASK_CAPABLE: u16 = 0x100;

/// MSI-X control: table size minus one.
pub const MSIX_CONTROL_TABLE_SIZE_MASK: u16 = 0x7FF;

/// MSI-X control: function mask.
pub const MSIX_CONTROL_FUNCTION_MASK: u16 = 0x4000;

/// MSI-X control: enable.
pub const MSIX_CONTROL_ENABLE: u16 = 0x8000;

/// MSI-X table register: offset bits.
pub const MSIX_TABLE_OFFSET_MASK: u32 = 0xFFFF_FFF8;

/// MSI-X table register: BAR indicator.
pub const MSIX_BIR_MASK: u32 = 0x7;

/// Bytes of one MSI-X table entry.
pub const MSIX_TABLE_ENTRY_SIZE: u64 = 16;

/// How the controller signals interrupts.
#[derive(Clone, Copy, Debug, PartialEq, Eq, Structural)]
pub enum XhciInterruptMode {
    Disabled,
    Msi,
    Msix,
}

/// What the kernel knows of the chosen xHCI function.
#[derive(Clone, Copy, Debug)]
pub struct XhciPciDevice {
    pub bus: u8,
    pub device: u8,
    pub function: u8,
    pub vendor_id: u16,
    pub device_id: u16,
    pub revision_id: u8,
    pub bar0: u64,
    pub bar0_size: u64,
    pub msi_offset: Option<u8>,
    pub msix_offset: Option<u8>,
    pub interrupt_mode: XhciInterruptMode,
    pub interrupt_vector: u8,
    pub msix_table_bar: Option<u8>,
    pub msix_table_offset: Option<u32>,
    pub msix_table_size: Option<u16>,
}

// ============================================================
// Configuration-space addressing and fields
// ============================================================

/// The CONFIG_ADDRESS value selecting dword `offset` of
/// `bus`:`device`.`function`.
pub open spec fn config_address_of(bus: u8, device: u8, function: u8, offset: u8) -> u32 {
    0x8000_0000u32 | ((bus as u32) << 16u32) | ((device as u32) << 11u32) | ((function as u32) << 8u32) | ((
    offset as u32) & 0xFCu32)
}

/// The CONFIG_ADDRESS value for a configuration access; for a device below
/// 32 and a function below 8 each field can be read back from it.
pub fn make_config_address(bus: u8, device: u8, function: u8, offset: u8) -> (r: u32)
    ensures
        r == config_address_of(bus, device, function, offset),
        r & 0x8000_0000 != 0,
        r & 0xFC == offset & 0xFC,
        r & 0x3 == 0,
        device < 32 && function < 8 ==> (r >> 16) & 0xFF == bus && (r >> 11) & 0x1F == device && (r >> 8)
            & 0x7 == function,
{
    let r = 0x8000_0000u32 | ((bus as u32) << 16u32) | ((device as u32) << 11u32) | ((function as u32)
        << 8u32) | ((offset as u32) & 0xFCu32);
    let b = bus as u32;
    let d = device as u32;
    let f = function as u32;
    let o = offset as u32;
    proof {
        assert(b <= 0xFF && d <= 0xFF && f <= 0xFF && o <= 0xFF ==> {
            let x = 0x8000_0000u32 | (b << 16u32) | (d << 11u32) | (f << 8u32) | (o & 0xFCu32);
            &&& x & 0x8000_0000 != 0
            &&& x & 0xFC == o & 0xFC
            &&& x & 0x3 == 0
            &&& (d < 32 && f < 8 ==> (x >> 16) & 0xFF == b && (x >> 11) & 0x1F == d && (x >> 8) & 0x7 == f)
        }) by (bit_vector);
    }
    r
}

/// The 16-bit field at `offset` within the configuration dword holding it.
pub open spec fn dword_u16_of(dword: u32, offset: u8) -> u16 {
    ((dword >> (((offset & 2) as u32) * 8)) & 0xFFFF) as u16
}

/// Reads the 16-bit field at `offset` out of its configuration dword.
pub fn config_read_u16(dword: u32, offset: u8) -> (r: u16)
    ensures
        r == dword_u16_of(dword, offset),
{
    proof {
        assert(offset & 2 <= 2) by (bit_vector);
    }
    let shift = ((offset & 2) as u32) * 8;
    proof {
        assert((dword >> shift) & 0xFFFF <= 0xFFFF) by (bit_vector);
    }
    ((dword >> shift) & 0xFFFF) as u16
}

/// Reads the byte at `offset` out of its configuration dword.
pub fn config_read_u8(dword: u32, offset: u8) -> (r: u8)
    ensures
        r == ((dword >> (((offset & 3) as u32) * 8)) & 0xFF) as u8,
{
    proof {
        assert(offset & 3 <= 3) by (bit_vector);
    }
    let shift = ((offset & 3) as u32) * 8;
    proof {
        assert((dword >> shift) & 0xFF <= 0xFF) by (bit_vector);
    }
    ((dword >> shift) & 0xFF) as u8
}

/// The configuration dword after the 16-bit field at `offset` is set to
/// `value`: the field reads back as `value`, the other half is unchanged.
pub fn config_write_u16(current: u32, offset: u8, value: u16) -> (r: u32)
    ensures
        dword_u16_of(r, offset) == value,
        dword_u16_of(r, offset ^ 2) == dword_u16_of(current, offset ^ 2),
{
    proof {
        assert(offset & 2 <= 2) by (bit_vector);
    }
    let shift = ((offset & 2) as u32) * 8;
    let mask = 0xFFFFu32 << shift;
    let r = (current & !mask) | ((value as u32) << shift);
    let v = value as u32;
    proof {
        assert(offset & 2 == 0 || offset & 2 == 2) by (bit_vector);
        assert((offset ^ 2) & 2 == 2 - (offset & 2)) by (bit_vector);
        if offset & 2 == 0 {
            assert(v <= 0xFFFF ==> (((current & !(0xFFFFu32 << 0u32)) | (v << 0u32)) >> 0u32) & 0xFFFF == v)
                by (bit_vector);
            assert(v <= 0xFFFF ==> (((current & !(0xFFFFu32 << 0u32)) | (v << 0u32)) >> 16u32) & 0xFFFF == (
            current >> 16u32) & 0xFFFF) by (bit_vector);
        } else {
            assert(v <= 0xFFFF ==> (((current & !(0xFFFFu32 << 16u32)) | (v << 16u32)) >> 16u32) & 0xFFFF == v)
                by (bit_vector);
            assert(v <= 0xFFFF ==> (((current & !(0xFFFFu32 << 16u32)) | (v << 16u32)) >> 0u32) & 0xFFFF == (
            current >> 0u32) & 0xFFFF) by (bit_vector);
        }
    }
    r
}

// ============================================================
// A function's configuration space
// ============================================================

/// The little-endian 32-bit value at `offset` of configuration bytes.
pub open spec fn cfg_u32(cfg: Seq<u8>, offset: int) -> int {
    cfg[offset] + cfg[offset + 1] * 256 + cfg[offset + 2] * 65536 + cfg[offset + 3] * 16777216
}

fn read_cfg_u32(cfg: &[u8], offset: usize) -> (r: u32)
    requires
        offset + 4 <= cfg@.len(),
    ensures
        r == cfg_u32(cfg@, offset as int),
{
    let b0 = cfg[offset] as u32;
    let b1 = cfg[offset + 1] as u32;
    let b2 = cfg[offset + 2] as u32;
    let b3 = cfg[offset + 3] as u32;
    b0 + b1 * 256 + b2 * 65536 + b3 * 16777216
}

/// The capability list walked from `ptr`: at most `steps` entries, each
/// at a dword-aligned offset from 0x40 on; the offset of the first entry
/// with `cap_id`.
pub open spec fn capability_walk(cfg: Seq<u8>, ptr: u8, steps: nat, cap_id: u8) -> Option<u8>
    decreases steps,
{
    if steps == 0 || ptr == 0 || ptr < 0x40 || ptr % 4 != 0 {
        None
    } else if cfg[ptr as int] == cap_id {
        Some(ptr)
    } else {
        capability_walk(cfg, cfg[ptr + 1], (steps - 1) as nat, cap_id)
    }
}

/// The offset of capability `cap_id` in configuration bytes `cfg`: none
/// without the status register's capability bit; otherwise found within
/// 48 list entries, so a malformed list cannot loop forever.
pub open spec fn find_capability_of(cfg: Seq<u8>, cap_id: u8) -> Option<u8> {
    if cfg[PCI_STATUS as int] & 0x10 == 0 {
        None
    } else {
        capability_walk(cfg, cfg[PCI_CAP_PTR as int], 48, cap_id)
    }
}

/// Finds capability `cap_id` in a function's 256 configuration bytes.
pub fn find_capability(cfg: &[u8], cap_id: u8) -> (r: Option<u8>)
    requires
        cfg@.len() == 256,
    ensures
        r == find_capability_of(cfg@, cap_id),
        r matches Some(p) ==> p >= 0x40 && p % 4 == 0 && cfg@[p as int] == cap_id,
{
    if cfg[PCI_STATUS as usize] & 0x10 == 0 {
        return None;
    }
    let mut ptr: u8 = cfg[PCI_CAP_PTR as usize];
    let mut steps: u8 = 48;
    while steps > 0
        invariant
            cfg@.len() == 256,
            cfg@[PCI_STATUS as int] & 0x10 != 0,
            capability_walk(cfg@, ptr, steps as nat, cap_id) == find_capability_of(cfg@, cap_id),
        decreases steps,
    {
        if ptr == 0 || ptr < 0x40 || ptr % 4 != 0 {
            return None;
        }
        if cfg[ptr as usize] == cap_id {
            return Some(ptr);
        }
        ptr = cfg[ptr as usize + 1];
        steps = steps - 1;
    }
    None
}

// ============================================================
// BARs
// ============================================================

/// The memory address a BAR decodes to: none for an index beyond the
/// BARs, an empty or absent BAR, an I/O BAR, a 64-bit BAR in the last
/// slot, or a zero address; a 64-bit BAR takes the next dword as its
/// high half.
pub open spec fn bar_address_of(bar_index: u8, low: u32, high: u32) -> Option<u64> {
    if bar_index >= PCI_MAX_BARS || low == 0 || low == 0xFFFF_FFFF || low & 1 != 0 {
        None
    } else if low & 6 == 4 {
        if bar_index + 1 >= PCI_MAX_BARS {
            None
        } else {
            let address = high * 0x1_0000_0000 + (low & 0xFFFF_FFF0);
            if address == 0 {
                None
            } else {
                Some(address as u64)
            }
        }
    } else {
        let address = low & 0xFFFF_FFF0;
        if address == 0 {
            None
        } else {
            Some(address as u64)
        }
    }
}

/// The memory address of BAR `bar_index` in configuration bytes `cfg`.
pub fn read_bar(cfg: &[u8], bar_index: u8) -> (r: Option<u64>)
    requires
        cfg@.len() == 256,
    ensures
        bar_index >= PCI_MAX_BARS ==> r is None,
        bar_index < PCI_MAX_BARS ==> r == bar_address_of(
            bar_index,
            cfg_u32(cfg@, 0x10 + 4 * bar_index) as u32,
            (if bar_index + 1 < PCI_MAX_BARS {
                cfg_u32(cfg@, 0x14 + 4 * bar_index)
            } else {
                0
            }) as u32,
        ),
{
    if bar_index >= PCI_MAX_BARS {
        return None;
    }
    let offset = (PCI_BAR0 as usize) + 4 * (bar_index as usize);
    let low = read_cfg_u32(cfg, offset);
    let high = if bar_index + 1 < PCI_MAX_BARS {
        read_cfg_u32(cfg, offset + 4)
    } else {
        0
    };
    decode_bar(bar_index, low, high)
}

/// Decodes BAR `bar_index` from its dword `low` and the next dword `high`.
pub fn decode_bar(bar_index: u8, low: u32, high: u32) -> (r: Option<u64>)
    ensures
        r == bar_address_of(bar_index, low, high),
{
    if bar_index >= PCI_MAX_BARS || low == 0 || low == 0xFFFF_FFFF || low & PCI_BAR_IO_SPACE != 0 {
        return None;
    }
    let memory_type = low & PCI_BAR_MEMORY_TYPE_MASK;
    if memory_type == PCI_BAR_MEMORY_TYPE_64 {
        if bar_index + 1 >= PCI_MAX_BARS {
            return None;
        }
        let masked = low & PCI_BAR_MEMORY_ADDRESS_MASK;
        let h = high as u64;
        let m = masked as u64;
        let address = (h << 32u64) | m;
        proof {
            assert(m <= 0xFFFF_FFFF && h <= 0xFFFF_FFFF ==> (h << 32u64) | m == h * 0x1_0000_0000 + m)
                by (bit_vector);
        }
        if address == 0 {
            None
        } else {
            Some(address)
        }
    } else {
        let address = (low & PCI_BAR_MEMORY_ADDRESS_MASK) as u64;
        if address == 0 {
            None
        } else {
            Some(address)
        }
    }
}

/// The size of a memory BAR from its sizing probe: `original_low` is the
/// BAR before the probe, `size_low` and `size_high` what reads back after
/// all ones were written (the high dword only for a 64-bit BAR). The
/// size is two to the 64 minus the address mask, and must be a power of
/// two; none for an I/O or absent BAR or a mask of all zeros or ones.
pub open spec fn bar_size_of(bar_index: u8, original_low: u32, size_low: u32, size_high: u32) -> Option<u64> {
    if bar_index >= PCI_MAX_BARS || original_low == 0xFFFF_FFFF || original_low & 1 != 0 {
        None
    } else {
        let is_64_bit = original_low & 6 == 4;
        if is_64_bit && bar_index + 1 >= PCI_MAX_BARS {
            None
        } else {
            let mask = if is_64_bit {
                size_high * 0x1_0000_0000 + (size_low & 0xFFFF_FFF0)
            } else {
                (size_low & 0xFFFF_FFF0) as int
            };
            if mask == 0 || mask == u64::MAX {
                None
            } else {
                let size = 0x1_0000_0000_0000_0000 - mask;
                if is_power_of_two(size) {
                    Some(size as u64)
                } else {
                    None
                }
            }
        }
    }
}

fn power_of_two_u64(n: u64) -> (r: bool)
    ensures
        r == is_power_of_two(n as int),
{
    let mut m = n;
    while m > 1 && m % 2 == 0
        invariant
            is_power_of_two(m as int) == is_power_of_two(n as int),
        decreases m,
    {
        m = m / 2;
    }
    m == 1
}

/// The size of BAR `bar_index` from its sizing probe.
pub fn read_bar_size(bar_index: u8, original_low: u32, size_low: u32, size_high: u32) -> (r: Option<u64>)
    ensures
        r == bar_size_of(bar_index, original_low, size_low, size_high),
        r matches Some(s) ==> s > 0 && is_power_of_two(s as int),
{
    if bar_index >= PCI_MAX_BARS || original_low == 0xFFFF_FFFF || original_low & PCI_BAR_IO_SPACE != 0 {
        return None;
    }
    let is_64_bit = (original_low & PCI_BAR_MEMORY_TYPE_MASK) == PCI_BAR_MEMORY_TYPE_64;
    if is_64_bit && bar_index + 1 >= PCI_MAX_BARS {
        return None;
    }
    let masked = size_low & PCI_BAR_MEMORY_ADDRESS_MASK;
    let mask: u64 = if is_64_bit {
        let h = size_high as u64;
        let m = masked as u64;
        proof {
            assert(m <= 0xFFFF_FFFF && h <= 0xFFFF_FFFF ==> (h << 32u64) | m == h * 0x1_0000_0000 + m)
                by (bit_vector);
        }
        (h << 32u64) | m
    } else {
        masked as u64
    };
    if mask == 0 || mask == u64::MAX {
        return None;
    }
    let inverted = !mask;
    proof {
        assert(inverted == u64::MAX - mask) by (bit_vector)
            requires
                inverted == !mask,
        ;
    }
    let size = inverted + 1;
    if size == 0 || !power_of_two_u64(size) {
        return None;
    }
    Some(size)
}

// ============================================================
// Controller enabling
// ============================================================

/// The command register with memory decoding and bus mastering on.
pub fn enable_controller(command: u16) -> (r: u16)
    ensures
        r == command | PCI_COMMAND_MEMORY_SPACE | PCI_COMMAND_BUS_MASTER,
        r & PCI_COMMAND_MEMORY_SPACE != 0,
        r & PCI_COMMAND_BUS_MASTER != 0,
{
    let r = command | PCI_COMMAND_MEMORY_SPACE | PCI_COMMAND_BUS_MASTER;
    proof {
        assert((command | 2u16 | 4u16) & 2 != 0 && (command | 2u16 | 4u16) & 4 != 0) by (bit_vector);
    }
    r
}

/// Checks the command register read back after enabling.
pub fn check_controller_enabled(verified: u16) -> (r: Result<(), &'static str>)
    ensures
        r is Ok <==> (verified & PCI_COMMAND_MEMORY_SPACE != 0 && verified & PCI_COMMAND_BUS_MASTER != 0),
{
    if verified & PCI_COMMAND_MEMORY_SPACE == 0 {
        return Err("Rusty: failed to enable PCI memory space for xHCI");
    }
    if verified & PCI_COMMAND_BUS_MASTER == 0 {
        return Err("Rusty: failed to enable PCI bus mastering for xHCI");
    }
    Ok(())
}

/// The command register with legacy INTx interrupts disabled.
pub fn disable_legacy_intx(command: u16) -> (r: u16)
    ensures
        r == command | PCI_COMMAND_INTERRUPT_DISABLE,
{
    command | PCI_COMMAND_INTERRUPT_DISABLE
}

// ============================================================
// MSI-X
// ============================================================

/// Where the MSI-X table lies: the BAR indicator, the table's address,
/// its bytes and its number of entries. None without MSI-X, with an
/// indicator beyond the BARs, an unusable BAR, or a table that does not
/// fit in its BAR.
pub open spec fn msix_table_info_of(
    device: XhciPciDevice,
    control: u16,
    table: u32,
    bar: Option<u64>,
    bar_size: Option<u64>,
) -> Option<(u8, u64, u64, u16)> {
    let entry_count = (control & 0x7FF) + 1;
    let bir = table & 7;
    let offset = table & 0xFFFF_FFF8;
    let table_bytes = entry_count * 16;
    if device.msix_offset is None || bir >= 6 {
        None
    } else {
        match bar {
            None => None,
            Some(b) => match bar_size {
                None => None,
                Some(s) => if offset + table_bytes > s || b + offset > u64::MAX {
                    None
                } else {
                    Some((bir as u8, (b + offset) as u64, table_bytes as u64, entry_count as u16))
                },
            },
        }
    }
}

/// Decodes the MSI-X table of `device` from its control and table
/// registers and the address and size of the BAR the table names.
pub fn msix_table_info(device: &XhciPciDevice, control: u16, table: u32, bar: Option<u64>, bar_size: Option<u64>) -> (r:
    Option<(u8, u64, u64, u16)>)
    ensures
        r == msix_table_info_of(*device, control, table, bar, bar_size),
        r matches Some(info) ==> info.3 >= 1 && info.2 == 16 * info.3,
{
    if device.msix_offset.is_none() {
        return None;
    }
    proof {
        assert(control & 0x7FF <= 0x7FF) by (bit_vector);
        assert(table & 7 <= 7) by (bit_vector);
    }
    let entry_count = (control & MSIX_CONTROL_TABLE_SIZE_MASK) + 1;
    let bir = (table & MSIX_BIR_MASK) as u8;
    let offset = (table & MSIX_TABLE_OFFSET_MASK) as u64;
    if bir >= PCI_MAX_BARS {
        return None;
    }
    let b = match bar {
        Some(b) => b,
        None => {
            return None;
        },
    };
    let table_bytes = (entry_count as u64) * MSIX_TABLE_ENTRY_SIZE;
    let table_end = offset + table_bytes;
    let s = match bar_size {
        Some(s) => s,
        None => {
            return None;
        },
    };
    if table_end > s {
        return None;
    }
    let table_address = match b.checked_add(offset) {
        Some(a) => a,
        None => {
            return None;
        },
    };
    Some((bir, table_address, table_bytes, entry_count))
}

/// The MSI-X control register while the table is programmed: MSI-X off,
/// function mask on.
pub fn msix_programming_control(control: u16) -> (r: u16)
    ensures
        r == (control & !MSIX_CONTROL_ENABLE) | MSIX_CONTROL_FUNCTION_MASK,
{
    (control & !MSIX_CONTROL_ENABLE) | MSIX_CONTROL_FUNCTION_MASK
}

/// The MSI-X control register that turns MSI-X on: function mask off,
/// MSI-X on.
pub fn msix_enable_control(control: u16) -> (r: u16)
    ensures
        r == (control & !MSIX_CONTROL_FUNCTION_MASK) | MSIX_CONTROL_ENABLE,
{
    (control & !MSIX_CONTROL_FUNCTION_MASK) | MSIX_CONTROL_ENABLE
}

/// Whether the MSI-X control register read back shows MSI-X on and the
/// function unmasked.
pub fn msix_enable_verified(verified: u16) -> (r: bool)
    ensures
        r == (verified & MSIX_CONTROL_ENABLE != 0 && verified & MSIX_CONTROL_FUNCTION_MASK == 0),
{
    verified & MSIX_CONTROL_ENABLE != 0 && verified & MSIX_CONTROL_FUNCTION_MASK == 0
}

/// The 32-bit stores that program the MSI-X table at `table_address` with
/// `entry_count` entries for `message`: every entry's vector control
/// masked first, then entry 0's address, upper address and data, then
/// entry 0 unmasked.
pub open spec fn msix_table_writes_of(table_address: u64, entry_count: u16, message: (u64, u16)) -> Seq<(u64, u32)> {
    Seq::new(entry_count as nat, |i: int| ((table_address + 16 * i + 12) as u64, 1u32)) + seq![
        (table_address, (message.0 % 0x1_0000_0000) as u32),
        ((table_address + 4) as u64, (message.0 / 0x1_0000_0000) as u32),
        ((table_address + 8) as u64, message.1 as u32),
        ((table_address + 12) as u64, 0u32),
    ]
}

/// The plan for programming MSI-X: the control value during programming,
/// the table stores, and the control value that enables MSI-X.
#[derive(Debug)]
pub struct MsixProgram {
    pub programming_control: u16,
    pub table_writes: Vec<(u64, u32)>,
    pub enable_control: u16,
}

/// Plans MSI-X setup for `device` from its decoded table, the message to
/// deliver and the current control register: none without MSI-X, without
/// a decodable table or without a message.
pub fn setup_msix(
    device: &XhciPciDevice,
    table_info: Option<(u8, u64, u64, u16)>,
    message: Option<(u64, u16)>,
    control: u16,
) -> (r: Option<MsixProgram>)
    requires
        table_info matches Some(info) ==> info.1 + 16 * info.3 <= u64::MAX,
    ensures
        r is Some <==> (device.msix_offset is Some && table_info is Some && message is Some && table_info.unwrap().3 > 0),
        r matches Some(p) ==> p.programming_control == (control & !MSIX_CONTROL_ENABLE) | MSIX_CONTROL_FUNCTION_MASK
            && p.enable_control == (p.programming_control & !MSIX_CONTROL_FUNCTION_MASK) | MSIX_CONTROL_ENABLE
            && p.table_writes@ == msix_table_writes_of(table_info.unwrap().1, table_info.unwrap().3, message->0),
{
    if device.msix_offset.is_none() {
        return None;
    }
    let (_, table_address, _, entry_count) = match table_info {
        Some(info) => info,
        None => {
            return None;
        },
    };
    if entry_count == 0 {
        return None;
    }
    let (message_address, message_data) = match message {
        Some(m) => m,
        None => {
            return None;
        },
    };
    let programming = msix_programming_control(control);
    let mut writes: Vec<(u64, u32)> = Vec::new();
    let mut index: u16 = 0;
    while index < entry_count
        invariant
            index <= entry_count,
            table_address + 16 * entry_count <= u64::MAX,
            writes@ =~= Seq::new(index as nat, |i: int| ((table_address + 16 * i + 12) as u64, 1u32)),
        decreases entry_count - index,
    {
        let entry_address = table_address + 16 * (index as u64) + 12;
        writes.push((entry_address, 1u32));
        index = index + 1;
    }
    let low = (message_address % 0x1_0000_0000) as u32;
    let high = (message_address / 0x1_0000_0000) as u32;
    writes.push((table_address, low));
    writes.push((table_address + 4, high));
    writes.push((table_address + 8, message_data as u32));
    writes.push((table_address + 12, 0u32));
    proof {
        assert(writes@ =~= msix_table_writes_of(table_address, entry_count, (message_address, message_data)));
    }
    Some(MsixProgram { programming_control: programming, table_writes: writes, enable_control: msix_enable_control(programming) })
}

/// The MSI-X control register that turns MSI-X off (function masked).
pub fn disable_msix(control: u16) -> (r: u16)
    ensures
        r == (control & !MSIX_CONTROL_ENABLE) | MSIX_CONTROL_FUNCTION_MASK,
{
    msix_programming_control(control)
}

// ============================================================
// MSI
// ============================================================

/// The configuration stores that program one MSI message: the address's
/// low dword, its high dword (64-bit MSI only), the data, the per-vector
/// mask cleared (when masking exists), and the control value that
/// enables MSI. Offsets are relative to configuration space.
#[derive(Clone, Copy, Debug)]
pub struct MsiProgram {
    pub address_low: (u8, u32),
    pub address_high: Option<(u8, u32)>,
    pub data: (u8, u16),
    pub unmask: Option<u8>,
    pub enable_control: u16,
}

/// The outcome of planning MSI setup: the control value that first turns
/// MSI off with one message requested, and the programming, when a
/// message exists.
#[derive(Clone, Copy, Debug)]
pub struct MsiSetup {
    pub disable_control: u16,
    pub program: Option<MsiProgram>,
}

/// Plans MSI setup at capability `cap` from its control register and the
/// message to deliver.
pub open spec fn msi_setup_of(cap: u8, control: u16, message: Option<(u64, u16)>) -> MsiSetup {
    let disabled = control & !MSI_CONTROL_ENABLE & !MSI_CONTROL_MME_MASK;
    let is_64 = disabled & MSI_CONTROL_64BIT != 0;
    MsiSetup {
        disable_control: disabled,
        program: match message {
            None => None,
            Some(m) => Some(
                MsiProgram {
                    address_low: ((cap + 4) as u8, (m.0 % 0x1_0000_0000) as u32),
                    address_high: if is_64 {
                        Some(((cap + 8) as u8, (m.0 / 0x1_0000_0000) as u32))
                    } else {
                        None
                    },
                    data: (if is_64 {
                        (cap + 12) as u8
                    } else {
                        (cap + 8) as u8
                    }, m.1),
                    unmask: if disabled & MSI_CONTROL_MASK_CAPABLE != 0 {
                        Some(
                            if is_64 {
                                (cap + 16) as u8
                            } else {
                                (cap + 12) as u8
                            },
                        )
                    } else {
                        None
                    },
                    enable_control: disabled | MSI_CONTROL_ENABLE,
                },
            ),
        },
    }
}

/// Plans MSI setup for `device`: none without an MSI capability.
pub fn setup_msi(device: &XhciPciDevice, control: u16, message: Option<(u64, u16)>) -> (r: Option<MsiSetup>)
    requires
        device.msi_offset matches Some(cap) ==> cap <= 0xEF,
    ensures
        r is Some <==> device.msi_offset is Some,
        r matches Some(s) ==> s == msi_setup_of(device.msi_offset->0, control, message),
{
    let cap = match device.msi_offset {
        Some(c) => c,
        None => {
            return None;
        },
    };
    let disabled = control & !MSI_CONTROL_ENABLE & !MSI_CONTROL_MME_MASK;
    let program = match message {
        None => None,
        Some((address, data)) => {
            let is_64 = disabled & MSI_CONTROL_64BIT != 0;
            let address_high = if is_64 {
                Some((cap + 8, (address / 0x1_0000_0000) as u32))
            } else {
                None
            };
            let data_offset = if is_64 {
                cap + 12
            } else {
                cap + 8
            };
            let unmask = if disabled & MSI_CONTROL_MASK_CAPABLE != 0 {
                Some(
                    if is_64 {
                        cap + 16
                    } else {
                        cap + 12
                    },
                )
            } else {
                None
            };
            Some(
                MsiProgram {
                    address_low: (cap + 4, (address % 0x1_0000_0000) as u32),
                    address_high,
                    data: (data_offset, data),
                    unmask,
                    enable_control: disabled | MSI_CONTROL_ENABLE,
                },
            )
        },
    };
    Some(MsiSetup { disable_control: disabled, program })
}

/// Whether the MSI control register read back shows MSI on.
pub fn msi_enable_verified(verified: u16) -> (r: bool)
    ensures
        r == (verified & MSI_CONTROL_ENABLE != 0),
{
    verified & MSI_CONTROL_ENABLE != 0
}

/// The MSI control register that turns MSI off.
pub fn disable_msi(control: u16) -> (r: u16)
    ensures
        r == control & !MSI_CONTROL_ENABLE,
{
    control & !MSI_CONTROL_ENABLE
}

// ============================================================
// Interrupt mode
// ============================================================

/// The next interrupt mechanism to try: MSI-X first when the function has
/// it, then MSI, then none.
#[derive(Clone, Copy, Debug, PartialEq, Eq, Structural)]
pub enum InterruptAttempt {
    Msix,
    Msi,
    GiveUp,
}

/// The mechanism to try next; `msix_failed` tells that MSI-X was tried
/// and failed.
pub fn next_interrupt_attempt(device: &XhciPciDevice, msix_failed: bool) -> (r: InterruptAttempt)
    ensures
        r == (if !msix_failed && device.msix_offset is Some {
            InterruptAttempt::Msix
        } else if device.msi_offset is Some {
            InterruptAttempt::Msi
        } else {
            InterruptAttempt::GiveUp
        }),
{
    if !msix_failed && device.msix_offset.is_some() {
        InterruptAttempt::Msix
    } else if device.msi_offset.is_some() {
        InterruptAttempt::Msi
    } else {
        InterruptAttempt::GiveUp
    }
}

/// The interrupt mode that results when MSI-X setup gives `msix_ok` and
/// MSI setup gives `msi_ok` (each consulted only if tried): MSI-X when
/// present and it worked, otherwise MSI when present and it worked,
/// otherwise none.
pub fn setup_interrupts(device: &XhciPciDevice, msix_ok: bool, msi_ok: bool) -> (r: XhciInterruptMode)
    ensures
        r == (if device.msix_offset is Some && msix_ok {
            XhciInterruptMode::Msix
        } else if device.msi_offset is Some && msi_ok {
            XhciInterruptMode::Msi
        } else {
            XhciInterruptMode::Disabled
        }),
        r == XhciInterruptMode::Msix ==> device.msix_offset is Some,
        r == XhciInterruptMode::Msi ==> device.msi_offset is Some,
{
    if device.msix_offset.is_some() && msix_ok {
        return XhciInterruptMode::Msix;
    }
    if device.msi_offset.is_some() && msi_ok {
        return XhciInterruptMode::Msi;
    }
    XhciInterruptMode::Disabled
}

/// One register change or attempt while the controller's interrupt is set
/// up, in the order the kernel makes them.
#[derive(Clone, Copy, Debug, PartialEq, Eq, Structural)]
pub enum InterruptAction {
    /// Clear MSI's enable bit (when the function has MSI).
    DisableMsi,
    /// Program and enable MSI-X; the outcome goes to the next step.
    TryMsix,
    /// Clear MSI-X's enable bit and mask the function (when it has MSI-X).
    DisableMsix,
    /// Program and enable MSI; the outcome goes to the next step.
    TryMsi,
    /// Set the command register's interrupt-disable bit.
    DisableLegacyIntx,
    /// Setup is over with this mode.
    Finish(XhciInterruptMode),
}

/// Where interrupt setup stands.
#[derive(Clone, Copy, Debug, PartialEq, Eq, Structural)]
pub enum InterruptSetupStage {
    Start,
    MsixTried,
    MsiTried,
    Finished,
}

/// The next stage and the actions to take, from `stage`, for a function
/// with MSI-X (`has_msix`) and MSI (`has_msi`); `ok` is whether the
/// attempt just made worked.  MSI is off while MSI-X is programmed and
/// stays off when MSI-X works; a failed MSI-X is turned off before MSI is
/// tried; legacy INTx is turned off once a message interrupt works.
pub open spec fn interrupt_step_of(has_msix: bool, has_msi: bool, stage: InterruptSetupStage, ok: bool) -> (
    InterruptSetupStage,
    Seq<InterruptAction>,
) {
    match stage {
        InterruptSetupStage::Start => if has_msix {
            (InterruptSetupStage::MsixTried, seq![InterruptAction::DisableMsi, InterruptAction::TryMsix])
        } else if has_msi {
            (InterruptSetupStage::MsiTried, seq![InterruptAction::DisableMsi, InterruptAction::TryMsi])
        } else {
            (
                InterruptSetupStage::Finished,
                seq![InterruptAction::DisableMsi, InterruptAction::Finish(XhciInterruptMode::Disabled)],
            )
        },
        InterruptSetupStage::MsixTried => if ok {
            (
                InterruptSetupStage::Finished,
                seq![
                    InterruptAction::DisableMsi,
                    InterruptAction::DisableLegacyIntx,
                    InterruptAction::Finish(XhciInterruptMode::Msix),
                ],
            )
        } else if has_msi {
            (InterruptSetupStage::MsiTried, seq![InterruptAction::DisableMsix, InterruptAction::TryMsi])
        } else {
            (
                InterruptSetupStage::Finished,
                seq![InterruptAction::DisableMsix, InterruptAction::Finish(XhciInterruptMode::Disabled)],
            )
        },
        InterruptSetupStage::MsiTried => if ok {
            (
                InterruptSetupStage::Finished,
                seq![InterruptAction::DisableLegacyIntx, InterruptAction::Finish(XhciInterruptMode::Msi)],
            )
        } else {
            (InterruptSetupStage::Finished, seq![InterruptAction::Finish(XhciInterruptMode::Disabled)])
        },
        InterruptSetupStage::Finished => (InterruptSetupStage::Finished, seq![]),
    }
}

/// One step of interrupt setup for `device`: from `stage`, with `ok`
/// telling whether the attempt just made worked, the next stage and the
/// actions for the kernel to take in order.
pub fn interrupt_setup_step(device: &XhciPciDevice, stage: InterruptSetupStage, ok: bool) -> (r: (
    InterruptSetupStage,
    Vec<InterruptAction>,
))
    ensures
        r.0 == interrupt_step_of(device.msix_offset is Some, device.msi_offset is Some, stage, ok).0,
        r.1@ == interrupt_step_of(device.msix_offset is Some, device.msi_offset is Some, stage, ok).1,
{
    match stage {
        InterruptSetupStage::Start => match next_interrupt_attempt(device, false) {
            InterruptAttempt::Msix => (
                InterruptSetupStage::MsixTried,
                vec![InterruptAction::DisableMsi, InterruptAction::TryMsix],
            ),
            InterruptAttempt::Msi => (
                InterruptSetupStage::MsiTried,
                vec![InterruptAction::DisableMsi, InterruptAction::TryMsi],
            ),
            InterruptAttempt::GiveUp => (
                InterruptSetupStage::Finished,
                vec![InterruptAction::DisableMsi, InterruptAction::Finish(setup_interrupts(device, false, false))],
            ),
        },
        InterruptSetupStage::MsixTried => if ok {
            (
                InterruptSetupStage::Finished,
                vec![
                    InterruptAction::DisableMsi,
                    InterruptAction::DisableLegacyIntx,
                    InterruptAction::Finish(XhciInterruptMode::Msix),
                ],
            )
        } else {
            match next_interrupt_attempt(device, true) {
                InterruptAttempt::Msi => (
                    InterruptSetupStage::MsiTried,
                    vec![InterruptAction::DisableMsix, InterruptAction::TryMsi],
                ),
                _ => (
                    InterruptSetupStage::Finished,
                    vec![InterruptAction::DisableMsix, InterruptAction::Finish(XhciInterruptMode::Disabled)],
                ),
            }
        },
        InterruptSetupStage::MsiTried => if ok {
            (
                InterruptSetupStage::Finished,
                vec![InterruptAction::DisableLegacyIntx, InterruptAction::Finish(XhciInterruptMode::Msi)],
            )
        } else {
            (InterruptSetupStage::Finished, vec![InterruptAction::Finish(XhciInterruptMode::Disabled)])
        },
        InterruptSetupStage::Finished => (InterruptSetupStage::Finished, Vec::new()),
    }
}

/// Everything interrupt setup does, in order, on a function with MSI-X
/// (`has_msix`) and MSI (`has_msi`) when MSI-X programming gives
/// `msix_ok` and MSI programming gives `msi_ok`.
pub open spec fn interrupt_setup_plan(has_msix: bool, has_msi: bool, msix_ok: bool, msi_ok: bool) -> Seq<
    InterruptAction,
> {
    if has_msix && msix_ok {
        seq![
            InterruptAction::DisableMsi,
            InterruptAction::TryMsix,
            InterruptAction::DisableMsi,
            InterruptAction::DisableLegacyIntx,
            InterruptAction::Finish(XhciInterruptMode::Msix),
        ]
    } else if has_msix && has_msi && msi_ok {
        seq![
            InterruptAction::DisableMsi,
            InterruptAction::TryMsix,
            InterruptAction::DisableMsix,
            InterruptAction::TryMsi,
            InterruptAction::DisableLegacyIntx,
            InterruptAction::Finish(XhciInterruptMode::Msi),
        ]
    } else if has_msix && has_msi {
        seq![
            InterruptAction::DisableMsi,
            InterruptAction::TryMsix,
            InterruptAction::DisableMsix,
            InterruptAction::TryMsi,
            InterruptAction::Finish(XhciInterruptMode::Disabled),
        ]
    } else if has_msix {
        seq![
            InterruptAction::DisableMsi,
            InterruptAction::TryMsix,
            InterruptAction::DisableMsix,
            InterruptAction::Finish(XhciInterruptMode::Disabled),
        ]
    } else if has_msi && msi_ok {
        seq![
            InterruptAction::DisableMsi,
            InterruptAction::TryMsi,
            InterruptAction::DisableLegacyIntx,
            InterruptAction::Finish(XhciInterruptMode::Msi),
        ]
    } else if has_msi {
        seq![InterruptAction::DisableMsi, InterruptAction::TryMsi, InterruptAction::Finish(XhciInterruptMode::Disabled)]
    } else {
        seq![InterruptAction::DisableMsi, InterruptAction::Finish(XhciInterruptMode::Disabled)]
    }
}

/// The outcome handed to the step after `stage`: that of the MSI-X
/// attempt after it, that of the MSI attempt after it.
pub open spec fn attempt_outcome(stage: InterruptSetupStage, msix_ok: bool, msi_ok: bool) -> bool {
    match stage {
        InterruptSetupStage::MsixTried => msix_ok,
        InterruptSetupStage::MsiTried => msi_ok,
        _ => false,
    }
}

/// Run from the start, feeding each attempt's outcome to the next step,
/// interrupt setup finishes within three steps, takes exactly the actions
/// of `interrupt_setup_plan`, and ends in the mode `setup_interrupts`
/// gives for the same outcomes; legacy INTx is turned off exactly when a
/// message interrupt was chosen.
pub proof fn lemma_interrupt_steps_follow_plan(has_msix: bool, has_msi: bool, msix_ok: bool, msi_ok: bool)
    ensures
        ({
            let s1 = interrupt_step_of(has_msix, has_msi, InterruptSetupStage::Start, false);
            let s2 = interrupt_step_of(has_msix, has_msi, s1.0, attempt_outcome(s1.0, msix_ok, msi_ok));
            let s3 = interrupt_step_of(has_msix, has_msi, s2.0, attempt_outcome(s2.0, msix_ok, msi_ok));
            &&& s3.0 == InterruptSetupStage::Finished
            &&& s1.1 + s2.1 + s3.1 == interrupt_setup_plan(has_msix, has_msi, msix_ok, msi_ok)
        }),
        interrupt_setup_plan(has_msix, has_msi, msix_ok, msi_ok).last() == InterruptAction::Finish(
            if has_msix && msix_ok {
                XhciInterruptMode::Msix
            } else if has_msi && msi_ok {
                XhciInterruptMode::Msi
            } else {
                XhciInterruptMode::Disabled
            },
        ),
        interrupt_setup_plan(has_msix, has_msi, msix_ok, msi_ok).contains(InterruptAction::DisableLegacyIntx) <==> (
        (has_msix && msix_ok) || (has_msi && msi_ok)),
{
    let plan = interrupt_setup_plan(has_msix, has_msi, msix_ok, msi_ok);
    if (has_msix && msix_ok) || (has_msi && msi_ok) {
        assert(plan[plan.len() - 2] == InterruptAction::DisableLegacyIntx);
    } else {
        assert forall|i: int| 0 <= i < plan.len() implies plan[i] != InterruptAction::DisableLegacyIntx by {}
    }
}

// ============================================================
// Choosing the controller
// ============================================================

/// Controllers this kernel prefers, as (vendor, device).
pub open spec fn is_preferred_xhci_of(vendor_id: u16, device_id: u16) -> bool {
    vendor_id == 0x8086 && device_id == 0x51ED
}

/// Whether `vendor_id`:`device_id` is on the preferred list.
pub fn is_preferred_xhci(vendor_id: u16, device_id: u16) -> (r: bool)
    ensures
        r == is_preferred_xhci_of(vendor_id, device_id),
{
    vendor_id == 0x8086 && device_id == 0x51ED
}

/// Whether a function's class codes name an xHCI controller.
pub fn is_xhci_function(class: u8, subclass: u8, prog_if: u8) -> (r: bool)
    ensures
        r == (class == PCI_CLASS_SERIAL_BUS && subclass == PCI_SUBCLASS_USB && prog_if == PCI_PROGIF_XHCI),
{
    class == PCI_CLASS_SERIAL_BUS && subclass == PCI_SUBCLASS_USB && prog_if == PCI_PROGIF_XHCI
}

/// How many functions to scan on a device with `header_type`: eight when
/// it is multi-function, else one.
pub fn function_count(header_type: u8) -> (r: u8)
    ensures
        r == (if header_type & 0x80 != 0 {
            8u8
        } else {
            1u8
        }),
{
    if header_type & 0x80 != 0 {
        8
    } else {
        1
    }
}

/// The record of an xHCI function found in the scan, before it is
/// configured: none when its BAR0 or BAR0 size is unusable.
pub fn inspect_xhci(
    bus: u8,
    device: u8,
    function: u8,
    vendor_id: u16,
    device_id: u16,
    revision_id: u8,
    bar0: Option<u64>,
    bar0_size: Option<u64>,
    msi_offset: Option<u8>,
    msix_offset: Option<u8>,
) -> (r: Option<XhciPciDevice>)
    ensures
        r is Some <==> (bar0 is Some && bar0_size is Some),
        r matches Some(d) ==> d.bus == bus && d.device == device && d.function == function && d.vendor_id
            == vendor_id && d.device_id == device_id && d.revision_id == revision_id && d.bar0 == bar0->0
            && d.bar0_size == bar0_size->0 && d.msi_offset == msi_offset && d.msix_offset == msix_offset
            && d.interrupt_mode == XhciInterruptMode::Disabled && d.interrupt_vector
            == crate::interrupts::XHCI_INTERRUPT_VECTOR && d.msix_table_bar is None && d.msix_table_offset is None
            && d.msix_table_size is None,
{
    let b = match bar0 {
        Some(v) => v,
        None => {
            return None;
        },
    };
    let s = match bar0_size {
        Some(v) => v,
        None => {
            return None;
        },
    };
    Some(
        XhciPciDevice {
            bus,
            device,
            function,
            vendor_id,
            device_id,
            revision_id,
            bar0: b,
            bar0_size: s,
            msi_offset,
            msix_offset,
            interrupt_mode: XhciInterruptMode::Disabled,
            interrupt_vector: crate::interrupts::XHCI_INTERRUPT_VECTOR,
            msix_table_bar: None,
            msix_table_offset: None,
            msix_table_size: None,
        },
    )
}

/// The configured record: the interrupt mode chosen and, when MSI-X ended
/// up enabled (per its control register read back), where its table is.
pub fn configure_selected_xhci(device: &XhciPciDevice, mode: XhciInterruptMode, msix_control: u16, msix_table: u32) -> (r:
    XhciPciDevice)
    ensures
        r.interrupt_mode == mode,
        r.bus == device.bus && r.device == device.device && r.function == device.function,
        r.bar0 == device.bar0 && r.bar0_size == device.bar0_size,
        r.msi_offset == device.msi_offset && r.msix_offset == device.msix_offset,
        r.interrupt_vector == device.interrupt_vector,
        r.vendor_id == device.vendor_id && r.device_id == device.device_id && r.revision_id == device.revision_id,
        (device.msix_offset is Some && msix_control & MSIX_CONTROL_ENABLE != 0) ==> r.msix_table_bar == Some(
            (msix_table & 7) as u8,
        ) && r.msix_table_offset == Some(msix_table & 0xFFFF_FFF8) && r.msix_table_size == Some(
            ((msix_control & 0x7FF) + 1) as u16,
        ),
        !(device.msix_offset is Some && msix_control & MSIX_CONTROL_ENABLE != 0) ==> r.msix_table_bar
            == device.msix_table_bar && r.msix_table_offset == device.msix_table_offset && r.msix_table_size
            == device.msix_table_size,
{
    let mut r = *device;
    r.interrupt_mode = mode;
    if device.msix_offset.is_some() && msix_control & MSIX_CONTROL_ENABLE != 0 {
        proof {
            assert(msix_control & 0x7FF <= 0x7FF) by (bit_vector);
            assert(msix_table & 7 <= 7) by (bit_vector);
        }
        r.msix_table_bar = Some((msix_table & MSIX_BIR_MASK) as u8);
        r.msix_table_offset = Some(msix_table & MSIX_TABLE_OFFSET_MASK);
        r.msix_table_size = Some((msix_control & MSIX_CONTROL_TABLE_SIZE_MASK) + 1);
    }
    r
}

/// An xHCI function met in the bus scan: its IDs and whether its PCI
/// resources are usable.
#[derive(Clone, Copy, Debug)]
pub struct XhciCandidate {
    pub vendor_id: u16,
    pub device_id: u16,
    pub usable: bool,
}

/// Whether a candidate is usable and preferred.
pub open spec fn preferred_usable(c: XhciCandidate) -> bool {
    c.usable && is_preferred_xhci_of(c.vendor_id, c.device_id)
}

/// Chooses among the xHCI functions found, in scan order: the first
/// usable preferred one; failing that the first usable one; else none.
pub fn find_xhci(candidates: &[XhciCandidate]) -> (r: Option<usize>)
    ensures
        r matches Some(i) ==> i < candidates@.len() && candidates@[i as int].usable,
        r is Some && preferred_usable(candidates@[r.unwrap() as int]) ==> forall|j: int|
            0 <= j < r.unwrap() ==> !preferred_usable(#[trigger] candidates@[j]),
        r is Some && !preferred_usable(candidates@[r.unwrap() as int]) ==> (forall|j: int|
            0 <= j < candidates@.len() ==> !preferred_usable(#[trigger] candidates@[j])) && (forall|j: int|
            0 <= j < r.unwrap() ==> !(#[trigger] candidates@[j]).usable),
        r is None ==> forall|j: int| 0 <= j < candidates@.len() ==> !(#[trigger] candidates@[j]).usable,
{
    let mut first: Option<usize> = None;
    let mut i: usize = 0;
    while i < candidates.len()
        invariant
            i <= candidates@.len(),
            forall|j: int| 0 <= j < i ==> !preferred_usable(#[trigger] candidates@[j]),
            first matches Some(f) ==> f < i && candidates@[f as int].usable && forall|j: int|
                0 <= j < f ==> !(#[trigger] candidates@[j]).usable,
            first is None ==> forall|j: int| 0 <= j < i ==> !(#[trigger] candidates@[j]).usable,
        decreases candidates@.len() - i,
    {
        let c = candidates[i];
        if c.usable {
            if first.is_none() {
                first = Some(i);
            }
            if is_preferred_xhci(c.vendor_id, c.device_id) {
                return Some(i);
            }
        }
        i = i + 1;
    }
    first
}


// ============================================================
// Port dump
// ============================================================

/// The controller registers that a port dump reads: the capability
/// length, HCSPARAMS1 and HCCPARAMS1, then USBCMD, USBSTS and PAGESIZE.
#[derive(Clone, Copy, Debug)]
pub struct ControllerRegisters {
    pub cap_length: u8,
    pub hcsparams1: u32,
    pub hccparams1: u32,
    pub usbcmd: u32,
    pub usbsts: u32,
    pub pagesize: u32,
}

/// The four registers of one root-hub port: PORTSC, PORTPMSC, PORTLI and
/// PORTHLPMC.
#[derive(Clone, Copy, Debug)]
pub struct PortRegisters {
    pub portsc: u32,
    pub portpmsc: u32,
    pub portli: u32,
    pub porthlpmc: u32,
}

/// The number of root-hub ports that HCSPARAMS1 reports.
pub open spec fn port_count_of(hcsparams1: u32) -> usize {
    ((hcsparams1 >> 24u32) & 0xFFu32) as usize
}

/// The number of root-hub ports that HCSPARAMS1 reports.
pub fn port_dump_count(hcsparams1: u32) -> (r: usize)
    ensures
        r == port_count_of(hcsparams1),
{
    ((hcsparams1 >> 24u32) & 0xFFu32) as usize
}

/// The address of the first register of port `port_index` (from 0),
/// given the operational registers' base; `None` where it does not fit.
pub fn port_registers_address(op_base: usize, port_index: usize) -> (r: Option<usize>)
    ensures
        r == (if op_base + 0x400 + port_index * 0x10 + 0x0C <= usize::MAX {
            Some((op_base + 0x400 + port_index * 0x10) as usize)
        } else {
            None::<usize>
        }),
{
    if port_index > (usize::MAX - 0x40C) / 0x10 {
        return None;
    }
    let offset = 0x400 + port_index * 0x10;
    if op_base > usize::MAX - offset - 0x0C {
        return None;
    }
    Some(op_base + offset)
}

/// The controller part of a port dump.
pub open spec fn controller_dump_log(mmio_base: usize, c: ControllerRegisters) -> Seq<LogPiece> {
    seq![
        LogPiece::Text("xHCI: PORT DUMP BEGIN\n"),
        LogPiece::Text("xHCI: BASE="),
        LogPiece::Hex(mmio_base as u64),
        LogPiece::Text(" CAP="),
        LogPiece::Hex(c.cap_length as u64),
        LogPiece::Text(" OP="),
        LogPiece::Hex((mmio_base + c.cap_length) as u64),
        LogPiece::Text("\n"),
        LogPiece::Text("xHCI: SLOTS="),
        LogPiece::Usize((c.hcsparams1 & 0xFFu32) as usize),
        LogPiece::Text(" INTERRUPTERS="),
        LogPiece::Usize(((c.hcsparams1 >> 8u32) & 0x7FFu32) as usize),
        LogPiece::Text(" PORTS="),
        LogPiece::Usize(port_count_of(c.hcsparams1)),
        LogPiece::Text("\n"),
        LogPiece::Text("xHCI: HCCPARAMS1="),
        LogPiece::Hex(c.hccparams1 as u64),
        LogPiece::Text(" AC64="),
        LogPiece::Usize(if c.hccparams1 & 1u32 != 0 { 1usize } else { 0usize }),
        LogPiece::Text(" CSZ64="),
        LogPiece::Usize(if c.hccparams1 & 4u32 != 0 { 1usize } else { 0usize }),
        LogPiece::Text(" XECP="),
        LogPiece::Hex(((c.hccparams1 >> 16u32) as u16) as u64),
        LogPiece::Text("\n"),
        LogPiece::Text("xHCI: USBCMD="),
        LogPiece::Hex(c.usbcmd as u64),
        LogPiece::Text(" USBSTS="),
        LogPiece::Hex(c.usbsts as u64),
        LogPiece::Text(" PAGESIZE="),
        LogPiece::Hex(c.pagesize as u64),
        LogPiece::Text("\n"),
    ]
}

/// The dump line of port `number` (from 1): its four registers, then the
/// PORTSC fields.
pub open spec fn port_dump_line(number: usize, p: PortRegisters) -> Seq<LogPiece> {
    let sc = p.portsc;
    seq![
        LogPiece::Text("xHCI: P"),
        LogPiece::Usize(number),
        LogPiece::Text(" SC="),
        LogPiece::Hex(sc as u64),
        LogPiece::Text(" PMSC="),
        LogPiece::Hex(p.portpmsc as u64),
        LogPiece::Text(" LI="),
        LogPiece::Hex(p.portli as u64),
        LogPiece::Text(" HLPMC="),
        LogPiece::Hex(p.porthlpmc as u64),
        LogPiece::Text(" CCS="),
        LogPiece::Usize((sc & 1u32) as usize),
        LogPiece::Text(" PED="),
        LogPiece::Usize(((sc >> 1u32) & 1u32) as usize),
        LogPiece::Text(" PR="),
        LogPiece::Usize(((sc >> 4u32) & 1u32) as usize),
        LogPiece::Text(" PLS="),
        LogPiece::Hex(((sc >> 5u32) & 0xFu32) as u64),
        LogPiece::Text(" PP="),
        LogPiece::Usize(((sc >> 9u32) & 1u32) as usize),
        LogPiece::Text(" SPEED="),
        LogPiece::Hex(((sc >> 10u32) & 0xFu32) as u64),
        LogPiece::Text(" CSC="),
        LogPiece::Usize(((sc >> 17u32) & 1u32) as usize),
        LogPiece::Text(" PEC="),
        LogPiece::Usize(((sc >> 18u32) & 1u32) as usize),
        LogPiece::Text(" PRC="),
        LogPiece::Usize(((sc >> 21u32) & 1u32) as usize),
        LogPiece::Text(" PLC="),
        LogPiece::Usize(((sc >> 22u32) & 1u32) as usize),
        LogPiece::Text("\n"),
    ]
}

/// The dump lines of the first `n` ports.
pub open spec fn ports_dump_log(ports: Seq<PortRegisters>, n: int) -> Seq<LogPiece>
    decreases n,
{
    if n <= 0 {
        Seq::empty()
    } else {
        ports_dump_log(ports, n - 1) + port_dump_line(n as usize, ports[n - 1])
    }
}

/// A whole port dump.
pub open spec fn port_dump_log(mmio_base: usize, c: ControllerRegisters, ports: Seq<PortRegisters>) -> Seq<
    LogPiece,
> {
    controller_dump_log(mmio_base, c) + ports_dump_log(ports, ports.len() as int) + seq![
        LogPiece::Text("xHCI: PORT DUMP END\n"),
    ]
}

fn push_port_dump_line(pieces: &mut Vec<LogPiece>, number: usize, p: PortRegisters)
    ensures
        final(pieces)@ == old(pieces)@ + port_dump_line(number, p),
{
    let ghost start = pieces@;
    let sc = p.portsc;
    pieces.push(LogPiece::Text("xHCI: P"));
    pieces.push(LogPiece::Usize(number));
    pieces.push(LogPiece::Text(" SC="));
    pieces.push(LogPiece::Hex(sc as u64));
    pieces.push(LogPiece::Text(" PMSC="));
    pieces.push(LogPiece::Hex(p.portpmsc as u64));
    pieces.push(LogPiece::Text(" LI="));
    pieces.push(LogPiece::Hex(p.portli as u64));
    pieces.push(LogPiece::Text(" HLPMC="));
    pieces.push(LogPiece::Hex(p.porthlpmc as u64));
    pieces.push(LogPiece::Text(" CCS="));
    pieces.push(LogPiece::Usize((sc & 1u32) as usize));
    pieces.push(LogPiece::Text(" PED="));
    pieces.push(LogPiece::Usize(((sc >> 1u32) & 1u32) as usize));
    pieces.push(LogPiece::Text(" PR="));
    pieces.push(LogPiece::Usize(((sc >> 4u32) & 1u32) as usize));
    pieces.push(LogPiece::Text(" PLS="));
    pieces.push(LogPiece::Hex(((sc >> 5u32) & 0xFu32) as u64));
    pieces.push(LogPiece::Text(" PP="));
    pieces.push(LogPiece::Usize(((sc >> 9u32) & 1u32) as usize));
    pieces.push(LogPiece::Text(" SPEED="));
    pieces.push(LogPiece::Hex(((sc >> 10u32) & 0xFu32) as u64));
    pieces.push(LogPiece::Text(" CSC="));
    pieces.push(LogPiece::Usize(((sc >> 17u32) & 1u32) as usize));
    pieces.push(LogPiece::Text(" PEC="));
    pieces.push(LogPiece::Usize(((sc >> 18u32) & 1u32) as usize));
    pieces.push(LogPiece::Text(" PRC="));
    pieces.push(LogPiece::Usize(((sc >> 21u32) & 1u32) as usize));
    pieces.push(LogPiece::Text(" PLC="));
    pieces.push(LogPiece::Usize(((sc >> 22u32) & 1u32) as usize));
    pieces.push(LogPiece::Text("\n"));
    proof {
        assert(pieces@ =~= start + port_dump_line(number, p));
    }
}

/// The log of a root-hub port dump, from the controller registers and
/// the registers of each of its ports (as many as HCSPARAMS1 reports),
/// read at `mmio_base`.
pub fn debug_dump_ports(mmio_base: usize, controller: ControllerRegisters, ports: &[PortRegisters]) -> (r: Vec<
    LogPiece,
>)
    requires
        mmio_base + controller.cap_length <= usize::MAX,
        ports@.len() == port_count_of(controller.hcsparams1),
    ensures
        r@ == port_dump_log(mmio_base, controller, ports@),
{
    let c = controller;
    let op_base = mmio_base + c.cap_length as usize;
    let mut pieces: Vec<LogPiece> = Vec::new();
    pieces.push(LogPiece::Text("xHCI: PORT DUMP BEGIN\n"));
    pieces.push(LogPiece::Text("xHCI: BASE="));
    pieces.push(LogPiece::Hex(mmio_base as u64));
    pieces.push(LogPiece::Text(" CAP="));
    pieces.push(LogPiece::Hex(c.cap_length as u64));
    pieces.push(LogPiece::Text(" OP="));
    pieces.push(LogPiece::Hex(op_base as u64));
    pieces.push(LogPiece::Text("\n"));
    pieces.push(LogPiece::Text("xHCI: SLOTS="));
    pieces.push(LogPiece::Usize((c.hcsparams1 & 0xFFu32) as usize));
    pieces.push(LogPiece::Text(" INTERRUPTERS="));
    pieces.push(LogPiece::Usize(((c.hcsparams1 >> 8u32) & 0x7FFu32) as usize));
    pieces.push(LogPiece::Text(" PORTS="));
    pieces.push(LogPiece::Usize(port_dump_count(c.hcsparams1)));
    pieces.push(LogPiece::Text("\n"));
    pieces.push(LogPiece::Text("xHCI: HCCPARAMS1="));
    pieces.push(LogPiece::Hex(c.hccparams1 as u64));
    pieces.push(LogPiece::Text(" AC64="));
    pieces.push(
        LogPiece::Usize(
            if c.hccparams1 & 1u32 != 0 {
                1usize
            } else {
                0usize
            },
        ),
    );
    pieces.push(LogPiece::Text(" CSZ64="));
    pieces.push(
        LogPiece::Usize(
            if c.hccparams1 & 4u32 != 0 {
                1usize
            } else {
                0usize
            },
        ),
    );
    pieces.push(LogPiece::Text(" XECP="));
    pieces.push(LogPiece::Hex(((c.hccparams1 >> 16u32) as u16) as u64));
    pieces.push(LogPiece::Text("\n"));
    pieces.push(LogPiece::Text("xHCI: USBCMD="));
    pieces.push(LogPiece::Hex(c.usbcmd as u64));
    pieces.push(LogPiece::Text(" USBSTS="));
    pieces.push(LogPiece::Hex(c.usbsts as u64));
    pieces.push(LogPiece::Text(" PAGESIZE="));
    pieces.push(LogPiece::Hex(c.pagesize as u64));
    pieces.push(LogPiece::Text("\n"));
    proof {
        assert(pieces@ =~= controller_dump_log(mmio_base, c));
    }
    let ghost header = pieces@;
    let mut i: usize = 0;
    while i < ports.len()
        invariant
            i <= ports@.len(),
            pieces@ == header + ports_dump_log(ports@, i as int),
        decreases ports@.len() - i,
    {
        push_port_dump_line(&mut pieces, i + 1, ports[i]);
        proof {
            assert(pieces@ =~= header + ports_dump_log(ports@, i + 1));
        }
        i = i + 1;
    }
    pieces.push(LogPiece::Text("xHCI: PORT DUMP END\n"));
    proof {
        assert(pieces@ =~= port_dump_log(mmio_base, c, ports@));
    }
    pieces
}

} // verus!
