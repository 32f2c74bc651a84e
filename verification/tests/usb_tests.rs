use rusty::usb::hid::{
    configuration_header_info, device_descriptor_info, endpoint_id_from_address, ep0_max_packet_size,
    initial_max_packet_size, parse_hid_endpoints, CompletionAction, HidDeviceKind, HidEndpoint, HidEnumeration,
    HidManager, HidRequest,
};
use rusty::usb::xhci::regs::{CapabilityRegisters, XhciRegs};
use rusty::usb::xhci::trb::{CompletionCode, Trb, TrbType};

fn caps() -> CapabilityRegisters {
    CapabilityRegisters {
        hc_capbase: 0x0100_0020,
        hcsparams1: 0x0800_0840,
        hcsparams2: 0,
        hcsparams3: 0,
        hccparams1: 0x0020_0005,
        dboff: 0x2000,
        rtsoff: 0x1000,
        hccparams2: 0,
    }
}

#[test]
fn capability_registers_decode() {
    let regs = XhciRegs::new(0x1000_0000, caps()).unwrap();
    assert_eq!(regs.max_slots(), 0x40);
    assert_eq!(regs.max_interrupters(), 8);
    assert_eq!(regs.max_ports(), 8);
    assert_eq!(regs.hci_version(), 0x0100);
    assert!(regs.supports_64bit());
    assert_eq!(regs.context_size(), 64);
    assert_eq!(regs.operational_base(), 0x1000_0020);
    assert_eq!(regs.doorbell_base(), 0x1000_2000);
    assert_eq!(regs.runtime_base(), 0x1000_1000);
    assert_eq!(regs.ring_doorbell(3), 0x1000_200C);
    assert!(XhciRegs::new(0, caps()).is_err());
    let mut short = caps();
    short.hc_capbase = 0x10;
    assert_eq!(XhciRegs::new(0x1000_0000, short).err(), Some("xHCI: invalid CAPLENGTH"));
}

#[test]
fn register_values() {
    assert_eq!(XhciRegs::set_running(0x0, true), 0x1);
    assert_eq!(XhciRegs::set_running(0x5, false), 0x4);
    assert!(XhciRegs::halted(0x1));
    assert_eq!(XhciRegs::pagesize(0x0001_0001), 1);
    let portsc = 0x0000_0603 | (3 << 10);
    assert!(XhciRegs::port_connected(portsc) && XhciRegs::port_enabled(portsc));
    assert_eq!(XhciRegs::port_speed(portsc), 3);
    assert_eq!(XhciRegs::port_link_state(0x0000_00E0), 7);
}

#[test]
fn trb_fields_round_trip() {
    let mut trb = Trb::zero();
    trb.set_cycle(true);
    trb.set_slot_id(5);
    trb.set_endpoint_id(3);
    trb.set_transfer_length(100);
    assert!(trb.cycle());
    assert_eq!(trb.slot_id(), 5);
    assert_eq!(trb.endpoint_id(), 3);
    assert_eq!(trb.transfer_length(), 100);
    let typed = Trb::zero().with_type(TrbType::Link);
    assert_eq!(typed.trb_type_enum(), Some(TrbType::Link));
    assert_eq!(TrbType::from_u8(TrbType::EnableSlotCommand.as_u8()), Some(TrbType::EnableSlotCommand));
    assert_eq!(CompletionCode::from_u8(1), Some(CompletionCode::Success));
    let event = Trb::new(0, 0x0100_0010, 0);
    assert_eq!(event.completion_code(), 1);
    assert_eq!(event.event_length(), 0x10);
    let link = Trb::link(0x1000, true, true);
    assert!(link.link_toggle() && link.cycle());
    assert_eq!(link.parameter, 0x1000);
}

#[test]
fn descriptor_helpers() {
    assert_eq!(initial_max_packet_size(4), Some(512));
    assert_eq!(initial_max_packet_size(3), Some(64));
    assert_eq!(initial_max_packet_size(9), None);
    assert_eq!(ep0_max_packet_size(4, 9), Some(512));
    assert_eq!(ep0_max_packet_size(3, 64), Some(64));
    assert_eq!(endpoint_id_from_address(0x81), 3);
    assert_eq!(endpoint_id_from_address(0x02), 4);
    let device = [18u8, 1, 0, 2, 0, 0, 0, 64, 0x34, 0x12, 0x78, 0x56, 0, 1, 1, 2, 3, 1];
    let info = device_descriptor_info(&device, 18).unwrap();
    assert_eq!(info.configuration_count, 1);
    assert_eq!(info.vendor_id, 0x1234);
    assert_eq!(info.product_id, 0x5678);
    assert!(device_descriptor_info(&device, 10).is_none());
    assert_eq!(configuration_header_info(&[9, 2, 34, 0, 1, 1, 0, 0xA0, 50], 9), Some((34, 1)));
}

fn keyboard_configuration() -> Vec<u8> {
    vec![
        9, 2, 34, 0, 1, 1, 0, 0xA0, 50, // configuration
        9, 4, 0, 0, 1, 3, 1, 1, 0, // interface 0: boot keyboard
        9, 0x21, 0x11, 1, 0, 1, 0x22, 63, 0, // HID descriptor
        7, 5, 0x81, 3, 8, 0, 10, // interrupt IN endpoint 1
    ]
}

#[test]
fn hid_endpoints_are_found() {
    let config = keyboard_configuration();
    let endpoints = parse_hid_endpoints(&config, config.len(), 3).unwrap();
    assert_eq!(endpoints.len(), 1);
    assert_eq!(endpoints[0].address, 0x81);
    assert_eq!(endpoints[0].kind, HidDeviceKind::Keyboard);
    assert_eq!(endpoints[0].packet_size, 8);
    assert_eq!(endpoints[0].interval, 10);
}

#[test]
fn hid_manager_routes_completions() {
    let mut manager = HidManager::new();
    assert!(!manager.has_keyboard());
    manager.register(HidEndpoint { port: 1, slot_id: 2, endpoint_id: 3, interface_number: 0, kind: HidDeviceKind::Keyboard, packet_size: 8 });
    assert!(manager.has_keyboard());
    assert!(!manager.has_mouse());
    assert_eq!(manager.device_count(), 1);
    assert_eq!(manager.find_endpoint(2, 3), Some(0));
    assert_eq!(manager.find_endpoint(2, 5), None);
    assert_eq!(manager.handle_completion(2, 3, 1, 0), CompletionAction::Deliver { index: 0, kind: HidDeviceKind::Keyboard, length: 8 });
    assert_eq!(manager.handle_completion(2, 3, 13, 3), CompletionAction::Deliver { index: 0, kind: HidDeviceKind::Keyboard, length: 5 });
    assert_eq!(manager.handle_completion(2, 3, 6, 0), CompletionAction::TransferError { index: 0 });
    assert_eq!(manager.handle_completion(9, 3, 1, 0), CompletionAction::UnknownEndpoint);
}

#[test]
fn enumeration_walks_the_stages() {
    let mut manager = HidManager::new();
    let (mut e, first) = HidEnumeration::start(true, true, 1, 2, 3);
    assert_eq!(first, HidRequest::AddressDevice { max_packet_size: 64 });
    let request = e.step(&mut manager, true, &[], 0);
    assert_eq!(request, HidRequest::GetDescriptor { descriptor_type: 1, length: 8 });
    let header = [18u8, 1, 0, 2, 0, 0, 0, 64];
    let request = e.step(&mut manager, true, &header, 8);
    assert_eq!(request, HidRequest::GetDescriptor { descriptor_type: 1, length: 18 });
    let failed = e.step(&mut manager, false, &[], 0);
    assert_eq!(failed, HidRequest::Finish { success: false });
    assert_eq!(manager.device_count(), 0);
    let (_, refused) = HidEnumeration::start(true, false, 1, 2, 3);
    assert_eq!(refused, HidRequest::Finish { success: false });
}
