//! Interrupt bookkeeping: the local APIC's registers as values, the MSI
//! message that targets it, the xHCI pending flag, and the reading of a
//! page-fault error code.
//!
//! Descriptor tables, port and MSR access stay with the caller, who hands
//! in what it read and writes back what these functions compute.

use vstd::prelude::*;

verus! {

/// Vector of the first remapped 8259 controller.
pub const PIC_1_OFFSET: u8 = 32;

/// Vector of the second remapped 8259 controller.
pub const PIC_2_OFFSET: u8 = 40;

/// Vector of the xHCI MSI/MSI-X interrupt (outside the 8259 range).
pub const XHCI_INTERRUPT_VECTOR: u8 = 0x50;

/// Vector of spurious local-APIC interrupts.
pub const APIC_SPURIOUS_VECTOR: u8 = 0xFF;

/// The APIC base MSR's global-enable bit.
pub const APIC_BASE_GLOBAL_ENABLE: u64 = 0x800;

/// The APIC base MSR's x2APIC-mode bit.
pub const APIC_BASE_X2APIC_ENABLE: u64 = 0x400;

/// The APIC base MSR's address bits.
pub const APIC_BASE_ADDRESS_MASK: u64 = 0xFFFF_FFFF_FFFF_F000;

/// The spurious-vector register's software-enable bit.
pub const APIC_SVR_ENABLE: u32 = 0x100;

/// The spurious-vector register's vector field.
pub const APIC_SVR_VECTOR_MASK: u32 = 0xFF;

/// Base address of the MSI window targeting local APICs.
pub const MSI_ADDRESS_BASE: u64 = 0xFEE0_0000;

/// What the kernel knows of the local APIC once it is set up.
#[derive(Clone, Copy, Debug)]
pub struct LocalApic {
    pub ready: bool,
    pub x2apic: bool,
    pub id: u32,
    pub base: u64,
}

impl LocalApic {
    /// The APIC before initialisation.
    pub fn new() -> (r: Self)
        ensures
            !r.ready,
            !r.x2apic,
            r.id == 0,
            r.base == 0,
    {
        LocalApic { ready: false, x2apic: false, id: 0, base: 0 }
    }
}

/// The MSI message for `vector`: None before the APIC is ready or when
/// its ID does not fit the 8-bit destination field; otherwise the
/// address with the ID in bits 19:12 and the vector as data (fixed
/// delivery, physical destination, edge triggered).
pub open spec fn msi_message_of(apic: LocalApic, vector: u8) -> Option<(u64, u16)> {
    if !apic.ready || apic.id > 0xFF {
        None
    } else {
        Some(((MSI_ADDRESS_BASE + apic.id * 0x1000) as u64, vector as u16))
    }
}

/// The MSI message that delivers `vector` to this processor's APIC.
pub fn msi_message(apic: &LocalApic, vector: u8) -> (r: Option<(u64, u16)>)
    ensures
        r == msi_message_of(*apic, vector),
{
    if !apic.ready {
        return None;
    }
    let apic_id = apic.id;
    if apic_id > 0xFF {
        return None;
    }
    let id = apic_id as u64;
    let address = MSI_ADDRESS_BASE | (id << 12);
    proof {
        assert(MSI_ADDRESS_BASE | (id << 12) == MSI_ADDRESS_BASE + id * 0x1000) by (bit_vector)
            requires
                id <= 0xFF,
        ;
    }
    Some((address, vector as u16))
}

/// Checks the processor's feature bits (CPUID leaf 1, EDX): MSR
/// instructions and a local APIC must both be there.
pub fn check_apic_features(edx: u32) -> (r: Result<(), &'static str>)
    ensures
        r is Ok <==> (edx & 0x20 != 0 && edx & 0x200 != 0),
{
    if edx & 0x20 == 0 {
        return Err("Rusty: CPU does not advertise MSR instructions");
    }
    if edx & 0x200 == 0 {
        return Err("Rusty: CPU does not advertise a local APIC");
    }
    Ok(())
}

/// What to do with the APIC base MSR: the value to write back when the
/// APIC was globally disabled, whether it runs in x2APIC mode, and the
/// register-file base address.
#[derive(Clone, Copy, Debug)]
pub struct ApicBaseSetup {
    pub write_back: Option<u64>,
    pub x2apic: bool,
    pub base: u64,
}

/// Reads the APIC base MSR value `msr`.
pub fn apic_base_setup(msr: u64) -> (r: ApicBaseSetup)
    ensures
        r.write_back == (if msr & APIC_BASE_GLOBAL_ENABLE == 0 {
            Some(msr | APIC_BASE_GLOBAL_ENABLE)
        } else {
            None::<u64>
        }),
        r.x2apic == ((msr | APIC_BASE_GLOBAL_ENABLE) & APIC_BASE_X2APIC_ENABLE != 0),
        r.base == ((msr | APIC_BASE_GLOBAL_ENABLE) & APIC_BASE_ADDRESS_MASK),
{
    let mut value = msr;
    let mut write_back: Option<u64> = None;
    if value & APIC_BASE_GLOBAL_ENABLE == 0 {
        value = value | APIC_BASE_GLOBAL_ENABLE;
        write_back = Some(value);
    } else {
        proof {
            assert(msr & 0x800 != 0 ==> msr | 0x800 == msr) by (bit_vector);
        }
    }
    ApicBaseSetup {
        write_back,
        x2apic: value & APIC_BASE_X2APIC_ENABLE != 0,
        base: value & APIC_BASE_ADDRESS_MASK,
    }
}

/// The spurious-vector register value that software-enables the APIC
/// with the spurious vector: the enable bit set, the vector field
/// replaced, every other bit kept.
pub fn spurious_vector_register(sivr: u32) -> (r: u32)
    ensures
        r == ((sivr | APIC_SVR_ENABLE) & !APIC_SVR_VECTOR_MASK) | (APIC_SPURIOUS_VECTOR as u32),
        r & 0xFF == 0xFF,
        r & 0x100 != 0,
{
    let enabled = sivr | APIC_SVR_ENABLE;
    let r = (enabled & !APIC_SVR_VECTOR_MASK) | (APIC_SPURIOUS_VECTOR as u32);
    proof {
        assert((((sivr | 0x100u32) & !0xFFu32) | 0xFFu32) & 0xFF == 0xFF) by (bit_vector);
        assert((((sivr | 0x100u32) & !0xFFu32) | 0xFFu32) & 0x100 != 0) by (bit_vector);
    }
    r
}

/// The APIC ID in an xAPIC ID register value (its top byte).
pub fn xapic_id(register: u32) -> (r: u32)
    ensures
        r == register >> 24,
        r <= 0xFF,
{
    proof {
        assert(register >> 24 <= 0xFF) by (bit_vector);
    }
    register >> 24
}

/// The APIC state once set up from `setup` and the ID read.
pub fn init_local_apic(setup: &ApicBaseSetup, id: u32) -> (r: Result<LocalApic, &'static str>)
    ensures
        r is Err <==> (!setup.x2apic && setup.base == 0),
        r matches Ok(apic) ==> apic.ready && apic.x2apic == setup.x2apic && apic.id == id && apic.base == setup.base,
{
    if !setup.x2apic && setup.base == 0 {
        return Err("Rusty: local APIC base is zero");
    }
    Ok(LocalApic { ready: true, x2apic: setup.x2apic, id, base: setup.base })
}

/// Where an end-of-interrupt goes: nowhere before the APIC is ready, the
/// x2APIC EOI MSR, or the xAPIC EOI register in the register file.
#[derive(Clone, Copy, Debug)]
pub enum EoiTarget {
    Skip,
    Msr(u32),
    Mmio(u64),
}

/// The end-of-interrupt target of `apic`.
pub fn lapic_eoi(apic: &LocalApic) -> (r: EoiTarget)
    ensures
        !apic.ready ==> r is Skip,
        apic.ready && apic.x2apic ==> r == EoiTarget::Msr(0x80B),
        apic.ready && !apic.x2apic ==> (if apic.base + 0xB0 <= u64::MAX {
            r == EoiTarget::Mmio((apic.base + 0xB0) as u64)
        } else {
            r is Skip
        }),
{
    if !apic.ready {
        EoiTarget::Skip
    } else if apic.x2apic {
        EoiTarget::Msr(0x80B)
    } else {
        match apic.base.checked_add(0xB0) {
            Some(a) => EoiTarget::Mmio(a),
            None => EoiTarget::Skip,
        }
    }
}

/// The flag that the xHCI interrupt handler sets and the USB code
/// consumes.
#[derive(Clone, Copy, Debug)]
pub struct XhciInterruptFlag {
    pub pending: bool,
}

impl XhciInterruptFlag {
    /// A flag with nothing pending.
    pub fn new() -> (r: Self)
        ensures
            !r.pending,
    {
        XhciInterruptFlag { pending: false }
    }

    /// Records that the controller interrupted (the handler's only work).
    pub fn raise(&mut self)
        ensures
            final(self).pending,
    {
        self.pending = true;
    }
}

/// Takes the pending flag: returns whether it was set and clears it.
pub fn take_xhci_interrupt(flag: &mut XhciInterruptFlag) -> (r: bool)
    ensures
        r == old(flag).pending,
        !final(flag).pending,
{
    let was = flag.pending;
    flag.pending = false;
    was
}

/// Clears the pending flag.
pub fn clear_xhci_interrupt_pending(flag: &mut XhciInterruptFlag)
    ensures
        !final(flag).pending,
{
    flag.pending = false;
}

/// Whether an xHCI interrupt is pending.
pub fn xhci_interrupt_pending(flag: &XhciInterruptFlag) -> (r: bool)
    ensures
        r == flag.pending,
{
    flag.pending
}

/// The causes that a page-fault error code names.
#[derive(Clone, Copy, Debug)]
pub struct PageFaultCause {
    pub protection_violation: bool,
    pub write: bool,
    pub user: bool,
    pub reserved_bit: bool,
    pub instruction_fetch: bool,
    pub protection_key: bool,
    pub shadow_stack: bool,
    pub rmp: bool,
    pub likely_no_execute: bool,
}

/// Reads page-fault error code `value` bit by bit; a user-mode
/// instruction fetch refused on a present page likely hit a no-execute
/// page.
pub fn page_fault_cause(value: u64) -> (r: PageFaultCause)
    ensures
        r.protection_violation == (value & 1 != 0),
        r.write == (value & 2 != 0),
        r.user == (value & 4 != 0),
        r.reserved_bit == (value & 8 != 0),
        r.instruction_fetch == (value & 16 != 0),
        r.protection_key == (value & 32 != 0),
        r.shadow_stack == (value & 64 != 0),
        r.rmp == (value & 128 != 0),
        r.likely_no_execute == (value & 1 != 0 && value & 4 != 0 && value & 16 != 0),
{
    PageFaultCause {
        protection_violation: value & 1 != 0,
        write: value & 2 != 0,
        user: value & 4 != 0,
        reserved_bit: value & 8 != 0,
        instruction_fetch: value & 16 != 0,
        protection_key: value & 32 != 0,
        shadow_stack: value & 64 != 0,
        rmp: value & 128 != 0,
        likely_no_execute: value & 1 != 0 && value & 4 != 0 && value & 16 != 0,
    }
}

} // verus!
