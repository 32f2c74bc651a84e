use rusty::interrupts::XHCI_INTERRUPT_VECTOR;
use rusty::xhci_pci::{
    check_controller_enabled, config_read_u16, config_read_u8, config_write_u16, configure_selected_xhci,
    decode_bar, disable_legacy_intx, enable_controller, find_capability, find_xhci, function_count, inspect_xhci,
    is_preferred_xhci, is_xhci_function, make_config_address, msix_table_info, next_interrupt_attempt, read_bar,
    read_bar_size, setup_interrupts, setup_msi, setup_msix, InterruptAttempt, XhciCandidate, XhciInterruptMode,
};

fn device(msi: Option<u8>, msix: Option<u8>) -> rusty::xhci_pci::XhciPciDevice {
    inspect_xhci(0, 3, 0, 0x8086, 0x51ED, 1, Some(0xF000_0000), Some(0x10000), msi, msix).unwrap()
}

#[test]
fn config_addresses_and_fields() {
    assert_eq!(make_config_address(1, 2, 3, 0x11), 0x8001_1310);
    assert_eq!(config_read_u16(0xAABB_CCDD, 2), 0xAABB);
    assert_eq!(config_read_u16(0xAABB_CCDD, 0), 0xCCDD);
    assert_eq!(config_read_u8(0xAABB_CCDD, 1), 0xCC);
    assert_eq!(config_write_u16(0xAABB_CCDD, 2, 0x1234), 0x1234_CCDD);
    assert_eq!(config_write_u16(0xAABB_CCDD, 0, 0x1234), 0xAABB_1234);
}

#[test]
fn capability_list_walk() {
    let mut cfg = vec![0u8; 256];
    cfg[0x06] = 0x10;
    cfg[0x34] = 0x40;
    cfg[0x40] = 0x01;
    cfg[0x41] = 0x50;
    cfg[0x50] = 0x05;
    cfg[0x51] = 0x70;
    cfg[0x70] = 0x11;
    cfg[0x71] = 0x00;
    assert_eq!(find_capability(&cfg, 0x05), Some(0x50));
    assert_eq!(find_capability(&cfg, 0x11), Some(0x70));
    assert_eq!(find_capability(&cfg, 0x09), None);
    // A loop in the list ends after a bounded walk.
    cfg[0x71] = 0x40;
    assert_eq!(find_capability(&cfg, 0x09), None);
    cfg[0x06] = 0;
    assert_eq!(find_capability(&cfg, 0x05), None);
}

#[test]
fn bars() {
    assert_eq!(decode_bar(0, 0xF000_0004, 0x1), Some(0x1_F000_0000));
    assert_eq!(decode_bar(0, 0xF000_0000, 0x1), Some(0xF000_0000));
    assert_eq!(decode_bar(0, 0x0000_E001, 0), None);
    assert_eq!(decode_bar(5, 0xF000_0004, 0), None);
    let mut cfg = vec![0u8; 256];
    cfg[0x10..0x14].copy_from_slice(&0xFEB0_0004u32.to_le_bytes());
    cfg[0x14..0x18].copy_from_slice(&0u32.to_le_bytes());
    assert_eq!(read_bar(&cfg, 0), Some(0xFEB0_0000));
    assert_eq!(read_bar(&cfg, 6), None);
    assert_eq!(read_bar_size(0, 0xFEB0_0004, 0xFFFF_0004, 0xFFFF_FFFF), Some(0x10000));
    // A 32-bit BAR's mask is not widened to 64 bits, so its size is not a
    // power of two and the probe gives no size.
    assert_eq!(read_bar_size(0, 0xFEB0_0000, 0xFFFF_0000, 0), None);
    assert_eq!(read_bar_size(0, 0xFEB0_0000, 0, 0), None);
    assert_eq!(read_bar_size(0, 0x0000_E001, 0xFFFF_FFF1, 0), None);
}

#[test]
fn command_register() {
    assert_eq!(enable_controller(0x0400), 0x0406);
    assert_eq!(check_controller_enabled(0x0006), Ok(()));
    assert_eq!(check_controller_enabled(0x0004), Err("Rusty: failed to enable PCI memory space for xHCI"));
    assert_eq!(check_controller_enabled(0x0002), Err("Rusty: failed to enable PCI bus mastering for xHCI"));
    assert_eq!(disable_legacy_intx(0x0006), 0x0406);
}

#[test]
fn msix_table_and_programming() {
    let d = device(Some(0x50), Some(0x70));
    // Eight entries in BAR 0 at offset 0x3000.
    let info = msix_table_info(&d, 0x0007, 0x0000_3000, Some(0xF000_0000), Some(0x10000)).unwrap();
    assert_eq!(info, (0, 0xF000_3000, 128, 8));
    assert_eq!(msix_table_info(&d, 0x0007, 0x0000_FFF8, Some(0xF000_0000), Some(0x10000)), None);
    assert_eq!(msix_table_info(&device(Some(0x50), None), 0x7, 0x3000, Some(0), Some(0x10000)), None);
    let program = setup_msix(&d, Some(info), Some((0xFEE0_0000, 0x50)), 0x0007).unwrap();
    assert_eq!(program.programming_control, 0x4007);
    assert_eq!(program.enable_control, 0x8007);
    assert_eq!(program.table_writes.len(), 12);
    assert_eq!(program.table_writes[0], (0xF000_300C, 1));
    assert_eq!(program.table_writes[8], (0xF000_3000, 0xFEE0_0000));
    assert_eq!(program.table_writes[11], (0xF000_300C, 0));
    assert!(setup_msix(&d, Some(info), None, 0).is_none());
}

#[test]
fn msi_programming() {
    let d = device(Some(0x50), None);
    let setup = setup_msi(&d, 0x0181, Some((0xFEE0_1000, 0x50))).unwrap();
    assert_eq!(setup.disable_control, 0x0180);
    let program = setup.program.unwrap();
    assert_eq!(program.address_low, (0x54, 0xFEE0_1000));
    assert_eq!(program.address_high, Some((0x58, 0)));
    assert_eq!(program.data, (0x5C, 0x50));
    assert_eq!(program.unmask, Some(0x60));
    assert_eq!(program.enable_control, 0x0181);
    let short = setup_msi(&d, 0x0000, Some((0xFEE0_1000, 0x50))).unwrap().program.unwrap();
    assert_eq!(short.address_high, None);
    assert_eq!(short.data, (0x58, 0x50));
    assert_eq!(short.unmask, None);
    assert!(setup_msi(&device(None, None), 0, None).is_none());
}

#[test]
fn interrupt_mode_falls_back() {
    let both = device(Some(0x50), Some(0x70));
    assert_eq!(next_interrupt_attempt(&both, false), InterruptAttempt::Msix);
    assert_eq!(next_interrupt_attempt(&both, true), InterruptAttempt::Msi);
    assert_eq!(setup_interrupts(&both, true, true), XhciInterruptMode::Msix);
    assert_eq!(setup_interrupts(&both, false, true), XhciInterruptMode::Msi);
    assert_eq!(setup_interrupts(&both, false, false), XhciInterruptMode::Disabled);
    let none = device(None, None);
    assert_eq!(next_interrupt_attempt(&none, false), InterruptAttempt::GiveUp);
    assert_eq!(setup_interrupts(&none, true, true), XhciInterruptMode::Disabled);
}

#[test]
fn controller_choice() {
    assert!(is_preferred_xhci(0x8086, 0x51ED));
    assert!(!is_preferred_xhci(0x1B36, 0x000D));
    assert!(is_xhci_function(0x0C, 0x03, 0x30));
    assert!(!is_xhci_function(0x0C, 0x03, 0x20));
    assert_eq!(function_count(0x80), 8);
    assert_eq!(function_count(0x00), 1);
    let other = XhciCandidate { vendor_id: 0x1B36, device_id: 0x000D, usable: true };
    let preferred = XhciCandidate { vendor_id: 0x8086, device_id: 0x51ED, usable: true };
    let broken = XhciCandidate { vendor_id: 0x8086, device_id: 0x51ED, usable: false };
    assert_eq!(find_xhci(&[other, preferred]), Some(1));
    assert_eq!(find_xhci(&[broken, other]), Some(1));
    assert_eq!(find_xhci(&[broken]), None);
    assert_eq!(find_xhci(&[]), None);
}

#[test]
fn selected_controller_record() {
    let d = device(Some(0x50), Some(0x70));
    assert_eq!(d.interrupt_vector, XHCI_INTERRUPT_VECTOR);
    assert!(inspect_xhci(0, 0, 0, 1, 2, 3, None, Some(1), None, None).is_none());
    let configured = configure_selected_xhci(&d, XhciInterruptMode::Msix, 0x8007, 0x0000_3001);
    assert_eq!(configured.interrupt_mode, XhciInterruptMode::Msix);
    assert_eq!(configured.msix_table_bar, Some(1));
    assert_eq!(configured.msix_table_offset, Some(0x3000));
    assert_eq!(configured.msix_table_size, Some(8));
    let plain = configure_selected_xhci(&d, XhciInterruptMode::Msi, 0x0007, 0x0000_3001);
    assert_eq!(plain.msix_table_bar, None);
}
