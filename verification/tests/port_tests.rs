use rusty::serial::LogPiece;
use rusty::usb::devices::{inspect_device_info, inspect_open_device, ConfigurationInfo, EndpointInfo, InterfaceInfo};
use rusty::usb::init::{
    check_bar0, check_started, enumeration_order, port_ready_message, port_state, port_timeout_message,
    port_wait_deadline, usb2_wait_start, usb2_wait_step, usb3_wait_step, Usb2WaitStart, Usb2WaitStep, Usb3WaitStep,
};
use rusty::xhci_pci::{debug_dump_ports, port_dump_count, port_registers_address, ControllerRegisters, PortRegisters};

fn render(pieces: &[LogPiece]) -> String {
    let mut out = String::new();
    for piece in pieces {
        match piece {
            LogPiece::Text(text) => out.push_str(text),
            LogPiece::Hex(value) => out.push_str(&format!("{:X}", value)),
            LogPiece::Usize(value) => out.push_str(&format!("{:X}", value)),
        }
    }
    out
}

fn keyboard_setting() -> InterfaceInfo {
    InterfaceInfo {
        interface_number: 0,
        alternate_setting: 0,
        class: 3,
        subclass: 1,
        protocol: 1,
        endpoints: vec![EndpointInfo { address: 0x81, max_packet_size: 8, interval: 10, transfer_type: 3 }],
    }
}

fn vendor_setting() -> InterfaceInfo {
    InterfaceInfo {
        interface_number: 1,
        alternate_setting: 2,
        class: 0xFF,
        subclass: 0,
        protocol: 0,
        endpoints: vec![EndpointInfo { address: 0x02, max_packet_size: 64, interval: 0, transfer_type: 2 }],
    }
}

#[test]
fn device_info_lists_hid_interfaces() {
    let log = inspect_device_info(5, 0x1234, 0xABCD, &[vendor_setting(), keyboard_setting()]);
    assert_eq!(
        render(&log),
        "USB: DEVICE DESCRIPTORS\nUSB: id=5 vendor=1234 product=ABCD\n\
         USB: supported HID interface count=1\nUSB: keyboard interface=0 alt=0\n"
    );
    let log = inspect_device_info(1, 2, 3, &[vendor_setting()]);
    assert_eq!(
        render(&log),
        "USB: DEVICE DESCRIPTORS\nUSB: id=1 vendor=2 product=3\nUSB: no supported HID interfaces found\n"
    );
}

#[test]
fn open_device_lists_every_descriptor() {
    let configurations =
        vec![ConfigurationInfo { configuration_value: 1, interfaces: vec![keyboard_setting(), vendor_setting()] }];
    let log = inspect_open_device(7, 0x46D, 0xC31C, &configurations);
    assert_eq!(
        render(&log),
        "USB: DEVICE INFORMATION\nUSB: slot=7 vendor=46D product=C31C\nUSB: configuration_count=1\n\
         USB: configuration=1\n\
         USB: interface=0 alt=0 class=3 subclass=1 protocol=1\n\
         USB: endpoint address=81 max_packet=8 interval=A\nUSB: endpoint direction=IN\n\
         USB: endpoint transfer_type=3\n\
         USB: interface=1 alt=2 class=FF subclass=0 protocol=0\n\
         USB: endpoint address=2 max_packet=40 interval=0\nUSB: endpoint direction=OUT\n\
         USB: endpoint transfer_type=2\n"
    );
    assert_eq!(render(&inspect_open_device(1, 2, 3, &[])), "USB: DEVICE INFORMATION\nUSB: slot=1 vendor=2 product=3\nUSB: configuration_count=0\n");
}

#[test]
fn port_dump_decodes_the_registers() {
    let controller = ControllerRegisters {
        cap_length: 0x20,
        hcsparams1: 0x0200_0840,
        hccparams1: 0x0050_0005,
        usbcmd: 1,
        usbsts: 0,
        pagesize: 1,
    };
    assert_eq!(port_dump_count(controller.hcsparams1), 2);
    let ports = [
        PortRegisters { portsc: 0x0000_0203, portpmsc: 0, portli: 0, porthlpmc: 0 },
        PortRegisters { portsc: 0x0062_0AF1, portpmsc: 1, portli: 2, porthlpmc: 3 },
    ];
    let log = debug_dump_ports(0x1000, controller, &ports);
    assert_eq!(
        render(&log),
        "xHCI: PORT DUMP BEGIN\nxHCI: BASE=1000 CAP=20 OP=1020\n\
         xHCI: SLOTS=40 INTERRUPTERS=8 PORTS=2\n\
         xHCI: HCCPARAMS1=500005 AC64=1 CSZ64=1 XECP=50\n\
         xHCI: USBCMD=1 USBSTS=0 PAGESIZE=1\n\
         xHCI: P1 SC=203 PMSC=0 LI=0 HLPMC=0 CCS=1 PED=1 PR=0 PLS=0 PP=1 SPEED=0 CSC=0 PEC=0 PRC=0 PLC=0\n\
         xHCI: P2 SC=620AF1 PMSC=1 LI=2 HLPMC=3 CCS=1 PED=0 PR=1 PLS=7 PP=1 SPEED=2 CSC=1 PEC=0 PRC=1 PLC=1\n\
         xHCI: PORT DUMP END\n"
    );
    assert_eq!(port_registers_address(0x1020, 1), Some(0x1430));
    assert_eq!(port_registers_address(usize::MAX - 0x10, 0), None);
}

#[test]
fn controller_checks() {
    assert_eq!(check_bar0(0xFEB0_0000, 0x1_0000), Ok(()));
    assert_eq!(check_bar0(0, 0x1000), Err("Rusty: xHCI BAR0 is zero"));
    assert_eq!(check_bar0(0x1000, 0), Err("Rusty: xHCI BAR0 size is zero"));
    assert_eq!(check_bar0(0x1008, 0x10), Err("Rusty: xHCI BAR0 is not 16-byte aligned"));
    assert_eq!(check_bar0(usize::MAX - 0xF, 0x100), Err("Rusty: xHCI BAR0 range overflows usize"));
    assert_eq!(check_started(1, 0), Ok(()));
    assert_eq!(check_started(0, 0), Err("Rusty: xHCI RUN bit is not set after start"));
    assert_eq!(check_started(1, 1), Err("Rusty: xHCI HCH bit is still set after start"));
    assert_eq!(check_started(1, 1 << 11), Err("Rusty: xHCI CNR is still set after start"));
}

#[test]
fn usb2_ports_wait_for_u0() {
    let state = port_state(0x0100_0293);
    assert!(state.connected && state.enabled && state.resetting && state.cold_attach);
    assert_eq!(state.link_state, 4);
    assert_eq!(usb2_wait_start(false, 1, false), Usb2WaitStart::GiveUp);
    assert_eq!(usb2_wait_start(true, 0, false), Usb2WaitStart::GiveUp);
    assert_eq!(usb2_wait_start(true, 1, false), Usb2WaitStart::ResetThenWait);
    assert_eq!(usb2_wait_start(true, 1, true), Usb2WaitStart::Wait);
    assert_eq!(usb2_wait_start(true, 0x11, false), Usb2WaitStart::Wait);
    assert_eq!(usb2_wait_step(0, false, 0, 10), Usb2WaitStep::Disconnected);
    assert_eq!(usb2_wait_step(0x3, false, 20, 10), Usb2WaitStep::Ready);
    assert_eq!(usb2_wait_step(0x3, true, 5, 10), Usb2WaitStep::Poll);
    assert_eq!(usb2_wait_step(0x13, false, 10, 10), Usb2WaitStep::TimedOut);
    assert_eq!(port_wait_deadline(5, 1_000_000), 1_000_005);
    assert_eq!(port_wait_deadline(u64::MAX - 1, 10), u64::MAX);
}

#[test]
fn usb3_ports_recover_with_warm_resets() {
    assert_eq!(usb3_wait_step(0, false, 0, 10), Usb3WaitStep::Gone);
    assert_eq!(usb3_wait_step(0, true, 0, 10), Usb3WaitStep::Poll);
    assert_eq!(usb3_wait_step(0x3, false, 0, 10), Usb3WaitStep::Ready);
    assert_eq!(usb3_wait_step(0x3, true, 20, 10), Usb3WaitStep::TimedOut);
    assert_eq!(usb3_wait_step(0x1 | (6 << 5), false, 0, 10), Usb3WaitStep::WarmReset);
    assert_eq!(usb3_wait_step(0x1 | (10 << 5), false, 0, 10), Usb3WaitStep::WarmReset);
    assert_eq!(usb3_wait_step(0x0100_0001, false, 0, 10), Usb3WaitStep::WarmReset);
    assert_eq!(usb3_wait_step(0x1 | (7 << 5), false, 0, 10), Usb3WaitStep::Poll);
}

#[test]
fn port_messages_and_order() {
    assert_eq!(
        render(&port_ready_message(false, 3, 3, 0x603)),
        "USB: USB2 root port ready on port 3 speed=0x3 PORTSC=0x603\n"
    );
    assert_eq!(
        render(&port_timeout_message(true, 5, 0x2A0, true)),
        "USB: timed out waiting for USB3 root port readiness port 5 PORTSC=0x2A0 warm_pending=1\n"
    );
    assert_eq!(enumeration_order(&[1, 2], &[5]), vec![(1, false), (2, false), (5, true)]);
    assert!(enumeration_order(&[], &[]).is_empty());
}
