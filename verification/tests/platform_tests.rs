use rusty::ax_sync::{
    rw_read_try_acquire, rw_write_try_acquire, CpuInterrupts, ExecutionContext, LockMode, RustyContextOps,
    RustyRwLockOps, RustySpinOps, RW_WRITER_BIT,
};
use rusty::delay::{
    calibrate_tsc, calibrate_tsc_pit, cpuid_tsc_mhz, delay_cycles, delay_elapsed, delay_ms, delay_seconds, delay_us, get_tsc_mhz,
    now_us,
};
use rusty::interrupts::{
    apic_base_setup, check_apic_features, clear_xhci_interrupt_pending, init_local_apic, lapic_eoi, msi_message,
    page_fault_cause, spurious_vector_register, take_xhci_interrupt, xapic_id, xhci_interrupt_pending, EoiTarget,
    LocalApic, XhciInterruptFlag, XHCI_INTERRUPT_VECTOR,
};

#[test]
fn delay_cycle_counts() {
    assert_eq!(delay_seconds(2, 3000), 6_000_000_000);
    assert_eq!(delay_ms(1500, 1000), 1_500_000_000);
    assert_eq!(delay_us(250, 3000), 750_000);
    assert_eq!(delay_cycles(0, 999, 3000), 2997);
    assert_eq!(delay_seconds(u64::MAX, 3000), u64::MAX);
}

#[test]
fn delay_end_handles_counter_wrap() {
    assert!(delay_elapsed(100, 200, 100));
    assert!(!delay_elapsed(100, 199, 100));
    assert!(delay_elapsed(u64::MAX - 9, 10, 20));
}

#[test]
fn tsc_frequency() {
    assert_eq!(get_tsc_mhz(None), 3000);
    assert_eq!(get_tsc_mhz(Some(2400)), 2400);
    assert_eq!(now_us(3_000_000, 3000), 1000);
    assert_eq!(now_us(7, 0), 7);
    // 24 MHz crystal, ratio 125/1: 3000 MHz.
    assert_eq!(calibrate_tsc(0x16, 1, 125, 24_000_000, 0), 3000);
    assert_eq!(calibrate_tsc(0x14, 1, 125, 24_000_000, 0), 3000);
    assert_eq!(calibrate_tsc(0x16, 2, 175, 24_000_000, 0), 2100);
    assert_eq!(calibrate_tsc(0x16, 2, 175, 24_000_000, 1800), 2100);
    assert_eq!(calibrate_tsc(0x16, 0, 175, 24_000_000, 0), 3000);
    assert_eq!(calibrate_tsc(0x14, 1, 125, 24_000_000, 2000), 2000);
    assert_eq!(calibrate_tsc(0x16, 0, 175, 24_000_000, 2000), 2000);
    assert_eq!(calibrate_tsc(0x16, 1, 1, 24, 2000), 2000);
    assert_eq!(cpuid_tsc_mhz(0x16, 2, 175, 24_000_000), Some(2100));
    assert_eq!(cpuid_tsc_mhz(0x14, 2, 175, 24_000_000), None);
    assert_eq!(calibrate_tsc_pit(0x20, 30_000_000, 5), 3000);
    assert_eq!(calibrate_tsc_pit(0xFF, 30_000_000, 5), 0);
    assert_eq!(calibrate_tsc_pit(0x20, 50_000, 5), 0);
}

#[test]
fn msi_targets_the_local_apic() {
    let mut apic = LocalApic::new();
    assert_eq!(msi_message(&apic, XHCI_INTERRUPT_VECTOR), None);
    apic.ready = true;
    apic.id = 3;
    assert_eq!(msi_message(&apic, XHCI_INTERRUPT_VECTOR), Some((0xFEE0_3000, 0x50)));
    apic.id = 0x100;
    assert_eq!(msi_message(&apic, XHCI_INTERRUPT_VECTOR), None);
}

#[test]
fn apic_setup_values() {
    assert_eq!(check_apic_features(0x220), Ok(()));
    assert_eq!(check_apic_features(0x200), Err("Rusty: CPU does not advertise MSR instructions"));
    assert_eq!(check_apic_features(0x20), Err("Rusty: CPU does not advertise a local APIC"));
    let setup = apic_base_setup(0xFEE0_0000);
    assert_eq!(setup.write_back, Some(0xFEE0_0800));
    assert!(!setup.x2apic);
    assert_eq!(setup.base, 0xFEE0_0000);
    let x2 = apic_base_setup(0xFEE0_0C00);
    assert_eq!(x2.write_back, None);
    assert!(x2.x2apic);
    assert_eq!(spurious_vector_register(0x0000_0020), 0x1FF);
    assert_eq!(xapic_id(0x0300_0000), 3);
    let apic = init_local_apic(&setup, 5).unwrap();
    assert!(apic.ready);
    assert!(matches!(lapic_eoi(&apic), EoiTarget::Mmio(0xFEE0_00B0)));
    let x2apic = init_local_apic(&x2, 1).unwrap();
    assert!(matches!(lapic_eoi(&x2apic), EoiTarget::Msr(0x80B)));
    let zero = apic_base_setup(0x800);
    assert_eq!(init_local_apic(&zero, 0).err(), Some("Rusty: local APIC base is zero"));
}

#[test]
fn xhci_interrupt_is_taken_once() {
    let mut flag = XhciInterruptFlag::new();
    assert!(!take_xhci_interrupt(&mut flag));
    flag.raise();
    assert!(xhci_interrupt_pending(&flag));
    assert!(take_xhci_interrupt(&mut flag));
    assert!(!take_xhci_interrupt(&mut flag));
    flag.raise();
    clear_xhci_interrupt_pending(&mut flag);
    assert!(!xhci_interrupt_pending(&flag));
}

#[test]
fn page_fault_reading() {
    let cause = page_fault_cause(0x15);
    assert!(cause.protection_violation && cause.user && cause.instruction_fetch && cause.likely_no_execute);
    assert!(!cause.write);
    let plain = page_fault_cause(0x2);
    assert!(plain.write && !plain.protection_violation && !plain.likely_no_execute);
}

#[test]
fn context_enter_and_exit_restore_interrupts() {
    for context in [ExecutionContext::Raw, ExecutionContext::Preempt, ExecutionContext::IrqSave, ExecutionContext::PreemptIrqSave] {
        for enabled in [false, true] {
            let mut cpu = CpuInterrupts { enabled };
            let state = RustyContextOps::enter(&mut cpu, context);
            if matches!(context, ExecutionContext::IrqSave | ExecutionContext::PreemptIrqSave) {
                assert!(!cpu.enabled);
            }
            RustyContextOps::exit(&mut cpu, context, state);
            assert_eq!(cpu.enabled, enabled);
        }
    }
    assert_eq!(RustyContextOps::irq_return_preempt_enter(), 0);
}

#[test]
fn spin_lock_excludes_a_second_owner() {
    let mut cpu = CpuInterrupts { enabled: true };
    let mut locked = false;
    let first = RustySpinOps::try_acquire(&mut locked, &mut cpu, ExecutionContext::IrqSave);
    assert!(first.acquired && locked && !cpu.enabled);
    let second = RustySpinOps::try_acquire(&mut locked, &mut cpu, ExecutionContext::IrqSave);
    assert!(!second.acquired);
    assert!(!cpu.enabled);
    RustySpinOps::release(&mut locked, &mut cpu, ExecutionContext::IrqSave, first.state);
    assert!(!RustySpinOps::is_locked(&locked));
    assert!(cpu.enabled);
    locked = true;
    RustySpinOps::force_release(&mut locked);
    assert!(!locked);
}

#[test]
fn reader_writer_lock() {
    let mut state = 0u64;
    assert!(rw_read_try_acquire(&mut state));
    assert!(rw_read_try_acquire(&mut state));
    assert_eq!(state, 2);
    assert!(!rw_write_try_acquire(&mut state));
    let mut cpu = CpuInterrupts { enabled: true };
    let ctx = rusty::ax_sync::ContextState { preempt: 0, irq: 0 };
    RustyRwLockOps::release(&mut state, &mut cpu, ExecutionContext::Raw, ctx, LockMode::Read);
    RustyRwLockOps::force_read_decrement(&mut state);
    assert_eq!(state, 0);
    let w = RustyRwLockOps::try_acquire(&mut state, &mut cpu, ExecutionContext::Raw, LockMode::Write);
    assert!(w.acquired);
    assert_eq!(state, RW_WRITER_BIT);
    let r = RustyRwLockOps::try_acquire(&mut state, &mut cpu, ExecutionContext::Raw, LockMode::Read);
    assert!(!r.acquired);
    RustyRwLockOps::release(&mut state, &mut cpu, ExecutionContext::Raw, w.state, LockMode::Write);
    assert_eq!(state, 0);
}
