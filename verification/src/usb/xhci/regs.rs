//! xHCI register layout: the controller's capabilities as read at start,
//! the addresses of each register block, and the values written to or
//! decoded from the command, status, configuration, interrupter and port
//! registers.

use vstd::prelude::*;

verus! {

/// The bit facts behind the register accessors: masked fields fit their
/// widths, and a field written into a register reads back while the other
/// bits stay.
proof fn lemma_register_bits()
    by (bit_vector)
    ensures
        forall|x: u32| #[trigger] (x & 0xFFu32) <= 0xFF,
        forall|x: u32| #[trigger] ((x & 0x0007_FF00u32) >> 8u32) <= 0x7FF,
        forall|x: u32| #[trigger] ((x & 0xFF00_0000u32) >> 24u32) <= 0xFF,
        forall|x: u32| #[trigger] ((x & 0xFFFF_0000u32) >> 16u32) <= 0xFFFF,
        forall|x: u32| #[trigger] ((x >> 5u32) & 0x0Fu32) <= 0x0F,
        forall|x: u32| #[trigger] ((x >> 10u32) & 0x0Fu32) <= 0x0F,
        forall|x: u32| #[trigger] ((x >> 8u32) & 0xFFu32) <= 0xFF,
        forall|c: u32, v: u32|
            v <= 0xFF ==> (#[trigger] ((c & !0xFFu32) | (v & 0xFFu32))) & 0xFFu32 == v,
        forall|c: u32, v: u32| (#[trigger] ((c & !0xFFu32) | (v & 0xFFu32))) & !0xFFu32 == c & !0xFFu32,
        forall|x: u32| (#[trigger] ((x & !1u32) | 2u32)) & 2u32 != 0,
        forall|x: u32| (#[trigger] ((x & !1u32) & !2u32)) & 2u32 == 0,
        forall|c: u32, v: u32|
            v <= 0xFFFF ==> (#[trigger] ((c & !0xFFFFu32) | (v & 0xFFFFu32))) & 0xFFFFu32 == v,
        forall|c: u64, v: u64|
            v & 0x3Fu64 == 0 ==> (#[trigger] ((c & !0xFFFF_FFFF_FFFF_FFC0u64) | (v & 0xFFFF_FFFF_FFFF_FFC0u64)))
                & 0xFFFF_FFFF_FFFF_FFC0u64 == v,
        forall|a: u64| a & 0xFu64 == 0 ==> #[trigger] (a & 0xFFFF_FFFF_FFFF_FFF0u64) == a,
        forall|a: u64|
            (#[trigger] ((a & 0xFFFF_FFFF_FFFF_FFF0u64) | 8u64)) & 0xFFFF_FFFF_FFFF_FFF0u64 == a
                & 0xFFFF_FFFF_FFFF_FFF0u64 && ((a & 0xFFFF_FFFF_FFFF_FFF0u64) | 8u64) & 8u64 != 0,
        forall|a: u64| (#[trigger] (a & 0xFFFF_FFFF_FFFF_FFF0u64)) & 8u64 == 0,
{
}


/// Offset of CAPLENGTH / HCIVERSION.
pub const CAPLENGTH_OFFSET: usize = 0x00;

/// Offset of HCSPARAMS1.
pub const HCS_PARAMS1_OFFSET: usize = 0x04;

/// Offset of HCSPARAMS2.
pub const HCS_PARAMS2_OFFSET: usize = 0x08;

/// Offset of HCSPARAMS3.
pub const HCS_PARAMS3_OFFSET: usize = 0x0C;

/// Offset of HCCPARAMS1.
pub const HCC_PARAMS1_OFFSET: usize = 0x10;

/// Offset of DBOFF.
pub const DBOFF_OFFSET: usize = 0x14;

/// Offset of RTSOFF.
pub const RTSOFF_OFFSET: usize = 0x18;

/// Offset of HCCPARAMS2.
pub const HCC_PARAMS2_OFFSET: usize = 0x1C;

/// Operational register: USBCMD.
pub const OP_USBCMD: usize = 0x00;

/// Operational register: USBSTS.
pub const OP_USBSTS: usize = 0x04;

/// Operational register: PAGESIZE.
pub const OP_PAGESIZE: usize = 0x08;

/// Operational register: DNCTRL.
pub const OP_DNCTRL: usize = 0x14;

/// Operational register: CRCR.
pub const OP_CRCR: usize = 0x18;

/// Operational register: DCBAAP.
pub const OP_DCBAAP: usize = 0x30;

/// Operational register: CONFIG.
pub const OP_CONFIG: usize = 0x38;

/// Operational registers: first port register set.
pub const OP_PORTS: usize = 0x400;

/// First interrupter register set in the runtime registers.
pub const RUNTIME_INTERRUPTER_BASE: usize = 0x20;

/// Size of an interrupter register set.
pub const INTERRUPTER_STRIDE: usize = 0x20;

/// Interrupter register: IMAN.
pub const IR_IMAN: usize = 0x00;

/// Interrupter register: IMOD.
pub const IR_IMOD: usize = 0x04;

/// Interrupter register: ERSTSZ.
pub const IR_ERSTSZ: usize = 0x08;

/// Interrupter register: ERSTBA.
pub const IR_ERSTBA: usize = 0x10;

/// Interrupter register: ERDP.
pub const IR_ERDP: usize = 0x18;

/// USBCMD: run/stop.
pub const USBCMD_RUN: u32 = 0x1;

/// USBCMD: host controller reset.
pub const USBCMD_RESET: u32 = 0x2;

/// USBCMD: interrupter enable.
pub const USBCMD_EIE: u32 = 0x4;

/// USBCMD: host system error enable.
pub const USBCMD_HSEIE: u32 = 0x8;

/// USBSTS: halted.
pub const USBSTS_HCH: u32 = 0x1;

/// USBSTS: host system error.
pub const USBSTS_HSE: u32 = 0x4;

/// USBSTS: event interrupt.
pub const USBSTS_EINT: u32 = 0x8;

/// USBSTS: port change detected.
pub const USBSTS_PCD: u32 = 0x10;

/// USBSTS: controller not ready.
pub const USBSTS_CNR: u32 = 0x800;

/// USBSTS: host controller error.
pub const USBSTS_HCE: u32 = 0x1000;

/// CONFIG: enabled device slots.
pub const CONFIG_MAX_SLOTS_MASK: u32 = 0xFF;

/// IMAN: interrupt pending.
pub const IMAN_IP: u32 = 0x1;

/// IMAN: interrupt enable.
pub const IMAN_IE: u32 = 0x2;

/// ERSTSZ: segment count.
pub const ERSTSZ_MASK: u32 = 0x0000_FFFF;

/// ERSTBA: address bits.
pub const ERSTBA_MASK: u64 = 0xFFFF_FFFF_FFFF_FFC0;

/// ERDP: dequeue segment index.
pub const ERDP_DESI_MASK: u64 = 0x7;

/// ERDP: event handler busy.
pub const ERDP_EHB: u64 = 0x8;

/// ERDP: address bits.
pub const ERDP_POINTER_MASK: u64 = 0xFFFF_FFFF_FFFF_FFF0;

/// Size of a port register set.
pub const PORT_STRIDE: usize = 0x10;

/// Most interrupters a controller may report.
pub const MAX_XHCI_INTERRUPTERS: usize = 1024;

/// Most ports a controller may report.
pub const MAX_XHCI_PORTS: usize = 255;

/// The controller's capabilities and where its register blocks are.
#[derive(Clone, Copy, Debug)]
pub struct XhciRegs {
    pub base: usize,
    pub cap_length: u8,
    pub hci_version: u16,
    pub hcsparams1: u32,
    pub hcsparams2: u32,
    pub hcsparams3: u32,
    pub hccparams1: u32,
    pub hccparams2: u32,
    pub doorbell_offset: usize,
    pub runtime_offset: usize,
    pub max_slots: u8,
    pub max_interrupters: usize,
    pub max_ports: usize,
    pub context_size: usize,
}

/// The capability registers as read at start.
#[derive(Clone, Copy, Debug, PartialEq, Eq, Structural)]
pub struct CapabilityRegisters {
    pub hc_capbase: u32,
    pub hcsparams1: u32,
    pub hcsparams2: u32,
    pub hcsparams3: u32,
    pub hccparams1: u32,
    pub dboff: u32,
    pub rtsoff: u32,
    pub hccparams2: u32,
}

/// Why a controller's capabilities are refused, in the order they are
/// checked: the message the kernel stops with.
pub open spec fn capability_error(base: usize, caps: CapabilityRegisters) -> Option<&'static str> {
    let cap_length = caps.hc_capbase & 0xFF;
    let max_slots = caps.hcsparams1 & 0xFF;
    let max_interrupters = (caps.hcsparams1 & 0x0007_FF00) >> 8u32;
    let max_ports = (caps.hcsparams1 & 0xFF00_0000) >> 24u32;
    if base == 0 {
        Some("xHCI: register base is null")
    } else if cap_length < 0x20 {
        Some("xHCI: invalid CAPLENGTH")
    } else if base + HCS_PARAMS1_OFFSET > usize::MAX {
        Some("xHCI: HCSPARAMS1 address overflow")
    } else if base + HCS_PARAMS2_OFFSET > usize::MAX {
        Some("xHCI: HCSPARAMS2 address overflow")
    } else if base + HCS_PARAMS3_OFFSET > usize::MAX {
        Some("xHCI: HCSPARAMS3 address overflow")
    } else if base + HCC_PARAMS1_OFFSET > usize::MAX {
        Some("xHCI: HCCPARAMS1 address overflow")
    } else if base + DBOFF_OFFSET > usize::MAX {
        Some("xHCI: DBOFF address overflow")
    } else if base + RTSOFF_OFFSET > usize::MAX {
        Some("xHCI: RTSOFF address overflow")
    } else if base + HCC_PARAMS2_OFFSET > usize::MAX {
        Some("xHCI: HCCPARAMS2 address overflow")
    } else if max_slots == 0 {
        Some("xHCI: controller reports zero device slots")
    } else if max_interrupters == 0 || max_interrupters > MAX_XHCI_INTERRUPTERS {
        Some("xHCI: invalid number of interrupters")
    } else if max_ports == 0 || max_ports > MAX_XHCI_PORTS {
        Some("xHCI: invalid number of ports")
    } else {
        None
    }
}

impl XhciRegs {
    /// The controller at `base` with capability registers `caps`, or the
    /// message the kernel stops with when they are not usable.
    pub fn new(base: usize, caps: CapabilityRegisters) -> (r: Result<Self, &'static str>)
        ensures
            match capability_error(base, caps) {
                Some(message) => r == Err::<Self, &'static str>(message),
                None => r matches Ok(regs) && regs.base == base && regs.cap_length == caps.hc_capbase & 0xFF
                    && regs.hci_version == (caps.hc_capbase >> 16u32) as u16 && regs.hcsparams1 == caps.hcsparams1
                    && regs.hcsparams2 == caps.hcsparams2 && regs.hcsparams3 == caps.hcsparams3 && regs.hccparams1
                    == caps.hccparams1 && regs.hccparams2 == caps.hccparams2 && regs.doorbell_offset == (caps.dboff
                    & 0xFFFF_FFFC) as usize && regs.runtime_offset == (caps.rtsoff & 0xFFFF_FFE0) as usize
                    && regs.max_slots == caps.hcsparams1 & 0xFF && regs.max_interrupters == ((caps.hcsparams1
                    & 0x0007_FF00) >> 8u32) as usize && regs.max_ports == ((caps.hcsparams1 & 0xFF00_0000)
                    >> 24u32) as usize && regs.context_size == (if caps.hccparams1 & 0x4 != 0 {
                    64usize
                } else {
                    32usize
                }) && regs.wf(),
            },
    {
        let capbase = caps.hc_capbase;
        let params1 = caps.hcsparams1;
        proof {
            lemma_register_bits();
            assert(capbase & 0xFFu32 <= 0xFF);
            assert(params1 & 0xFFu32 <= 0xFF);
            assert((params1 & 0x0007_FF00u32) >> 8u32 <= 0x7FF);
            assert((params1 & 0xFF00_0000u32) >> 24u32 <= 0xFF);
        }
        if base == 0 {
            return Err("xHCI: register base is null");
        }
        let cap_length = (caps.hc_capbase & 0xFF) as u8;
        let hci_version = (caps.hc_capbase >> 16) as u16;
        if cap_length < 0x20 {
            return Err("xHCI: invalid CAPLENGTH");
        }
        if base.checked_add(HCS_PARAMS1_OFFSET).is_none() {
            return Err("xHCI: HCSPARAMS1 address overflow");
        }
        if base.checked_add(HCS_PARAMS2_OFFSET).is_none() {
            return Err("xHCI: HCSPARAMS2 address overflow");
        }
        if base.checked_add(HCS_PARAMS3_OFFSET).is_none() {
            return Err("xHCI: HCSPARAMS3 address overflow");
        }
        if base.checked_add(HCC_PARAMS1_OFFSET).is_none() {
            return Err("xHCI: HCCPARAMS1 address overflow");
        }
        if base.checked_add(DBOFF_OFFSET).is_none() {
            return Err("xHCI: DBOFF address overflow");
        }
        if base.checked_add(RTSOFF_OFFSET).is_none() {
            return Err("xHCI: RTSOFF address overflow");
        }
        if base.checked_add(HCC_PARAMS2_OFFSET).is_none() {
            return Err("xHCI: HCCPARAMS2 address overflow");
        }
        let doorbell_offset = (caps.dboff & 0xFFFF_FFFC) as usize;
        let runtime_offset = (caps.rtsoff & 0xFFFF_FFE0) as usize;
        let max_slots = (caps.hcsparams1 & 0xFF) as u8;
        let max_interrupters = ((caps.hcsparams1 & 0x0007_FF00) >> 8) as usize;
        let max_ports = ((caps.hcsparams1 & 0xFF00_0000) >> 24) as usize;
        if max_slots == 0 {
            return Err("xHCI: controller reports zero device slots");
        }
        if max_interrupters == 0 || max_interrupters > MAX_XHCI_INTERRUPTERS {
            return Err("xHCI: invalid number of interrupters");
        }
        if max_ports == 0 || max_ports > MAX_XHCI_PORTS {
            return Err("xHCI: invalid number of ports");
        }
        let context_size = if caps.hccparams1 & 0x4 != 0 { 64 } else { 32 };
        Ok(
            XhciRegs {
                base,
                cap_length,
                hci_version,
                hcsparams1: caps.hcsparams1,
                hcsparams2: caps.hcsparams2,
                hcsparams3: caps.hcsparams3,
                hccparams1: caps.hccparams1,
                hccparams2: caps.hccparams2,
                doorbell_offset,
                runtime_offset,
                max_slots,
                max_interrupters,
                max_ports,
                context_size,
            },
        )
    }

    /// The reported limits are within range.
    pub open spec fn wf(&self) -> bool {
        &&& self.base > 0
        &&& self.max_slots > 0
        &&& 0 < self.max_interrupters <= MAX_XHCI_INTERRUPTERS
        &&& 0 < self.max_ports <= MAX_XHCI_PORTS
    }

    /// The number of device slots.
    pub fn max_slots(&self) -> (r: usize)
        ensures
            r == self.max_slots,
    {
        self.max_slots as usize
    }

    /// The number of interrupters.
    pub fn max_interrupters(&self) -> (r: usize)
        ensures
            r == self.max_interrupters,
    {
        self.max_interrupters
    }

    /// The number of root ports.
    pub fn max_ports(&self) -> (r: usize)
        ensures
            r == self.max_ports,
    {
        self.max_ports
    }

    /// The size of a device context entry: 32 or 64 bytes.
    pub fn context_size(&self) -> (r: usize)
        ensures
            r == self.context_size,
    {
        self.context_size
    }

    /// HCSPARAMS2.
    pub fn hcsparams2(&self) -> (r: u32)
        ensures
            r == self.hcsparams2,
    {
        self.hcsparams2
    }

    /// The interface version.
    pub fn hci_version(&self) -> (r: u16)
        ensures
            r == self.hci_version,
    {
        self.hci_version
    }

    /// Whether the controller can address 64 bits.
    pub fn supports_64bit(&self) -> (r: bool)
        ensures
            r == (self.hccparams1 & 0x1 != 0),
    {
        self.hccparams1 & 0x1 != 0
    }

    /// The supported page sizes in a PAGESIZE value.
    pub fn pagesize(value: u32) -> (r: u32)
        ensures
            r == value & 0x0000_FFFF,
    {
        value & 0x0000_FFFF
    }

    /// Address of the operational registers.
    pub fn operational_base(&self) -> (r: usize)
        requires
            self.base + self.cap_length <= usize::MAX,
        ensures
            r == self.base + self.cap_length,
    {
        self.base + self.cap_length as usize
    }

    /// Address of the doorbell array.
    pub fn doorbell_base(&self) -> (r: usize)
        requires
            self.base + self.doorbell_offset <= usize::MAX,
        ensures
            r == self.base + self.doorbell_offset,
    {
        self.base + self.doorbell_offset
    }

    /// Address of the runtime registers.
    pub fn runtime_base(&self) -> (r: usize)
        requires
            self.base + self.runtime_offset <= usize::MAX,
        ensures
            r == self.base + self.runtime_offset,
    {
        self.base + self.runtime_offset
    }

    /// Address of interrupter `interrupter`'s register set; the index must
    /// be in range and the address must fit.
    pub fn interrupter_base(&self, interrupter: usize) -> (r: usize)
        requires
            self.wf(),
            interrupter < self.max_interrupters,
            self.base + self.runtime_offset + RUNTIME_INTERRUPTER_BASE + interrupter * INTERRUPTER_STRIDE <= usize::MAX,
        ensures
            r == self.base + self.runtime_offset + RUNTIME_INTERRUPTER_BASE + interrupter * INTERRUPTER_STRIDE,
    {
        self.runtime_base() + RUNTIME_INTERRUPTER_BASE + interrupter * INTERRUPTER_STRIDE
    }

    /// Address of root port `port`'s register set (ports count from 1);
    /// the port must exist and the address must fit.
    pub fn port_base(&self, port: usize) -> (r: usize)
        requires
            self.wf(),
            1 <= port <= self.max_ports,
            self.base + self.cap_length + OP_PORTS + (port - 1) * PORT_STRIDE <= usize::MAX,
        ensures
            r == self.base + self.cap_length + OP_PORTS + (port - 1) * PORT_STRIDE,
    {
        self.operational_base() + OP_PORTS + (port - 1) * PORT_STRIDE
    }

    /// The USBCMD value that starts (`running`) or stops the controller.
    pub fn set_running(usbcmd: u32, running: bool) -> (r: u32)
        ensures
            r == if running {
                usbcmd | USBCMD_RUN
            } else {
                usbcmd & !USBCMD_RUN
            },
    {
        if running {
            usbcmd | USBCMD_RUN
        } else {
            usbcmd & !USBCMD_RUN
        }
    }

    /// The USBCMD value with interrupts enabled.
    pub fn enable_interrupts(usbcmd: u32) -> (r: u32)
        ensures
            r == usbcmd | USBCMD_EIE,
    {
        usbcmd | USBCMD_EIE
    }

    /// The USBCMD value with interrupts disabled.
    pub fn disable_interrupts(usbcmd: u32) -> (r: u32)
        ensures
            r == usbcmd & !USBCMD_EIE,
    {
        usbcmd & !USBCMD_EIE
    }

    /// Whether USBSTS says the controller is halted.
    pub fn halted(usbsts: u32) -> (r: bool)
        ensures
            r == (usbsts & USBSTS_HCH != 0),
    {
        usbsts & USBSTS_HCH != 0
    }

    /// Whether USBSTS says the controller is not ready.
    pub fn controller_not_ready(usbsts: u32) -> (r: bool)
        ensures
            r == (usbsts & USBSTS_CNR != 0),
    {
        usbsts & USBSTS_CNR != 0
    }

    /// Whether USBSTS reports a host system error.
    pub fn host_system_error(usbsts: u32) -> (r: bool)
        ensures
            r == (usbsts & USBSTS_HSE != 0),
    {
        usbsts & USBSTS_HSE != 0
    }

    /// Whether USBSTS reports a host controller error.
    pub fn host_controller_error(usbsts: u32) -> (r: bool)
        ensures
            r == (usbsts & USBSTS_HCE != 0),
    {
        usbsts & USBSTS_HCE != 0
    }

    /// Whether USBSTS reports an event interrupt.
    pub fn event_interrupt(usbsts: u32) -> (r: bool)
        ensures
            r == (usbsts & USBSTS_EINT != 0),
    {
        usbsts & USBSTS_EINT != 0
    }

    /// The value written to USBSTS to acknowledge the event interrupt
    /// (write-one-to-clear).
    pub fn clear_event_interrupt() -> (r: u32)
        ensures
            r == USBSTS_EINT,
    {
        USBSTS_EINT
    }

    /// The CONFIG value enabling `slots` device slots (1 to 255).
    pub fn set_max_slots(config: u32, slots: usize) -> (r: u32)
        requires
            0 < slots <= 0xFF,
        ensures
            r == (config & !CONFIG_MAX_SLOTS_MASK) | ((slots as u32) & CONFIG_MAX_SLOTS_MASK),
            r & CONFIG_MAX_SLOTS_MASK == slots,
            r & !CONFIG_MAX_SLOTS_MASK == config & !CONFIG_MAX_SLOTS_MASK,
    {
        let value = (config & !CONFIG_MAX_SLOTS_MASK) | ((slots as u32) & CONFIG_MAX_SLOTS_MASK);
        proof {
            lemma_register_bits();
            let s = slots as u32;
            assert(s <= 0xFF ==> ((config & !0xFFu32) | (s & 0xFFu32)) & 0xFFu32 == s);
            assert(((config & !0xFFu32) | (s & 0xFFu32)) & !0xFFu32 == config & !0xFFu32);
        }
        value
    }

    /// Whether a DCBAAP value is 64-byte aligned, as writing it requires.
    pub fn set_dcbaap(value: u64) -> (r: bool)
        ensures
            r == (value & 0x3F == 0),
    {
        value & 0x3F == 0
    }

    /// Address of the doorbell of `slot_id` (0 rings the command ring).
    pub fn ring_doorbell(&self, slot_id: u8) -> (r: usize)
        requires
            slot_id <= self.max_slots,
            self.base + self.doorbell_offset + 4 * 0xFF <= usize::MAX,
        ensures
            r == self.base + self.doorbell_offset + 4 * slot_id,
    {
        self.doorbell_base() + (slot_id as usize) * 4
    }

    /// Address of the command doorbell.
    pub fn ring_command(&self) -> (r: usize)
        requires
            self.base + self.doorbell_offset <= usize::MAX,
        ensures
            r == self.base + self.doorbell_offset,
    {
        self.doorbell_base()
    }

    /// The IMAN value that enables an interrupter; IP is written as 0,
    /// which leaves the write-1-to-clear pending bit as it is.
    pub fn enable_interrupter(iman: u32) -> (r: u32)
        ensures
            r == (iman & !IMAN_IP) | IMAN_IE,
            r & IMAN_IE != 0,
    {
        proof {
            lemma_register_bits();
            assert(((iman & !1u32) | 2u32) & 2u32 != 0);
        }
        (iman & !IMAN_IP) | IMAN_IE
    }

    /// The IMAN value that disables an interrupter; IP is written as 0,
    /// which leaves the write-1-to-clear pending bit as it is.
    pub fn disable_interrupter(iman: u32) -> (r: u32)
        ensures
            r == (iman & !IMAN_IP) & !IMAN_IE,
            r & IMAN_IE == 0,
    {
        proof {
            lemma_register_bits();
            assert(((iman & !1u32) & !2u32) & 2u32 == 0);
        }
        (iman & !IMAN_IP) & !IMAN_IE
    }

    /// The ERSTSZ value for `segments` event ring segments (1 to 65535).
    pub fn set_erstsz(current: u32, segments: u32) -> (r: u32)
        requires
            0 < segments <= 0xFFFF,
        ensures
            r == (current & !ERSTSZ_MASK) | (segments & ERSTSZ_MASK),
            r & ERSTSZ_MASK == segments,
    {
        proof {
            lemma_register_bits();
            assert(segments <= 0xFFFF ==> ((current & !0xFFFFu32) | (segments & 0xFFFFu32)) & 0xFFFFu32 == segments);
        }
        (current & !ERSTSZ_MASK) | (segments & ERSTSZ_MASK)
    }

    /// The ERSTBA value for a 64-byte aligned table address `value`.
    pub fn set_erstba(current: u64, value: u64) -> (r: u64)
        requires
            value & 0x3F == 0,
        ensures
            r == (current & !ERSTBA_MASK) | (value & ERSTBA_MASK),
            r & ERSTBA_MASK == value,
    {
        proof {
            lemma_register_bits();
            assert(value & 0x3Fu64 == 0 ==> ((current & !0xFFFF_FFFF_FFFF_FFC0u64) | (value & 0xFFFF_FFFF_FFFF_FFC0u64))
                & 0xFFFF_FFFF_FFFF_FFC0u64 == value);
        }
        (current & !ERSTBA_MASK) | (value & ERSTBA_MASK)
    }

    /// The ERDP value for a 16-byte aligned dequeue pointer, clearing the
    /// busy flag when `clear_ehb`.
    pub fn set_erdp(address: u64, clear_ehb: bool) -> (r: u64)
        requires
            address & 0x0F == 0,
        ensures
            r == if clear_ehb {
                (address & ERDP_POINTER_MASK) | ERDP_EHB
            } else {
                address & ERDP_POINTER_MASK
            },
            r & ERDP_POINTER_MASK == address,
            (r & ERDP_EHB != 0) == clear_ehb,
    {
        proof {
            lemma_register_bits();
            assert(address & 0xFu64 == 0 ==> address & 0xFFFF_FFFF_FFFF_FFF0u64 == address);
            assert(((address & 0xFFFF_FFFF_FFFF_FFF0u64) | 8u64) & 0xFFFF_FFFF_FFFF_FFF0u64 == address
                & 0xFFFF_FFFF_FFFF_FFF0u64);
            assert(((address & 0xFFFF_FFFF_FFFF_FFF0u64) | 8u64) & 8u64 != 0);
            assert((address & 0xFFFF_FFFF_FFFF_FFF0u64) & 8u64 == 0);
        }
        let mut value = address & ERDP_POINTER_MASK;
        if clear_ehb {
            value = value | ERDP_EHB;
        }
        value
    }

    /// The ERDP value that acknowledges events and clears the busy flag.
    pub fn set_erdp_clear_busy(address: u64) -> (r: u64)
        requires
            address & 0x0F == 0,
        ensures
            r == (address & ERDP_POINTER_MASK) | ERDP_EHB,
    {
        Self::set_erdp(address, true)
    }

    /// The ERDP value that moves the dequeue pointer and keeps the busy
    /// flag.
    pub fn set_erdp_preserve_busy(address: u64) -> (r: u64)
        requires
            address & 0x0F == 0,
        ensures
            r == address & ERDP_POINTER_MASK,
    {
        Self::set_erdp(address, false)
    }

    /// Whether PORTSC says a device is connected.
    pub fn port_connected(portsc: u32) -> (r: bool)
        ensures
            r == (portsc & 0x1 != 0),
    {
        portsc & 0x1 != 0
    }

    /// Whether PORTSC says the port is enabled.
    pub fn port_enabled(portsc: u32) -> (r: bool)
        ensures
            r == (portsc & 0x2 != 0),
    {
        portsc & 0x2 != 0
    }

    /// Whether PORTSC says the port is in reset.
    pub fn port_reset(portsc: u32) -> (r: bool)
        ensures
            r == (portsc & 0x10 != 0),
    {
        portsc & 0x10 != 0
    }

    /// The link state in PORTSC.
    pub fn port_link_state(portsc: u32) -> (r: u8)
        ensures
            r == (portsc >> 5u32) & 0x0F,
    {
        proof {
            lemma_register_bits();
            assert((portsc >> 5u32) & 0x0Fu32 <= 0x0F);
        }
        ((portsc >> 5) & 0x0F) as u8
    }

    /// The speed id in PORTSC.
    pub fn port_speed(portsc: u32) -> (r: u8)
        ensures
            r == (portsc >> 10u32) & 0x0F,
    {
        proof {
            lemma_register_bits();
            assert((portsc >> 10u32) & 0x0Fu32 <= 0x0F);
        }
        ((portsc >> 10) & 0x0F) as u8
    }

    /// The byte offset from the base of the first extended capability (0
    /// when there is none).
    pub fn extended_capability_pointer(&self) -> (r: usize)
        ensures
            r == ((self.hccparams1 & 0xFFFF_0000) >> 16u32) * 4,
    {
        let h = self.hccparams1;
        proof {
            lemma_register_bits();
            assert((h & 0xFFFF_0000u32) >> 16u32 <= 0xFFFF);
        }
        (((self.hccparams1 & 0xFFFF_0000) >> 16) as usize) * 4
    }

    /// A walk over the extended capabilities from the first.
    pub fn extended_capabilities(&self) -> (r: ExtendedCapabilityIterator)
        ensures
            r.offset == ((self.hccparams1 & 0xFFFF_0000) >> 16u32) * 4,
    {
        ExtendedCapabilityIterator { offset: self.extended_capability_pointer() }
    }

    /// The offset of the capability after the one at `offset` whose header
    /// is `header`, for a walk that stops at the end of the list, on an
    /// overflow, or when the list does not move forward.
    pub fn walk_extended_capabilities(offset: usize, header: u32) -> (r: Option<usize>)
        ensures
            r == next_capability_offset(offset, header),
            r matches Some(next) ==> next > offset,
    {
        let next = ((header >> 8) & 0xFF) as usize;
        proof {
            lemma_register_bits();
            assert((header >> 8u32) & 0xFFu32 <= 0xFF);
        }
        if next == 0 {
            return None;
        }
        let next_offset = match offset.checked_add(next * 4) {
            Some(value) => value,
            None => return None,
        };
        if next_offset <= offset {
            return None;
        }
        Some(next_offset)
    }
}

/// The offset of the next extended capability after the one at `offset`
/// with header `header`, if the walk goes on.
pub open spec fn next_capability_offset(offset: usize, header: u32) -> Option<usize> {
    let next = ((header >> 8u32) & 0xFF) as usize;
    if next == 0 || offset + next * 4 > usize::MAX || offset + next * 4 <= offset {
        None
    } else {
        Some((offset + next * 4) as usize)
    }
}

/// A walk over the extended capability list: the offset of the next
/// capability to read, 0 at the end.
#[derive(Clone, Copy, Debug, PartialEq, Eq, Structural)]
pub struct ExtendedCapabilityIterator {
    pub offset: usize,
}

impl ExtendedCapabilityIterator {
    /// The capability at the current offset, given its `header` as read
    /// there: its offset, id and header; the walk then moves to the next
    /// one, or ends when the list ends or would go backwards.
    pub fn next(&mut self, header: u32) -> (r: Option<(usize, u8, u32)>)
        ensures
            old(self).offset == 0 ==> r is None && final(self).offset == 0,
            old(self).offset != 0 ==> r == Some((old(self).offset, (header & 0xFF) as u8, header)) && final(self).offset
                == match next_capability_offset(old(self).offset, header) {
                Some(next) => next,
                None => 0,
            },
    {
        let offset = self.offset;
        if offset == 0 {
            return None;
        }
        let capability_id = (header & 0xFF) as u8;
        self.offset = match XhciRegs::walk_extended_capabilities(offset, header) {
            Some(next) => next,
            None => 0,
        };
        Some((offset, capability_id, header))
    }
}

} // verus!
