//! Boot HID interfaces and interrupt-IN endpoints among the descriptors
//! of a USB device.

use vstd::prelude::*;
use crate::serial::LogPiece;

pub use crate::usb::hid::HidDeviceKind;

verus! {

/// HID interface class.
pub const USB_CLASS_HID: u8 = 0x03;

/// Boot interface subclass.
pub const HID_SUBCLASS_BOOT: u8 = 0x01;

/// Boot keyboard protocol.
pub const HID_PROTOCOL_KEYBOARD: u8 = 0x01;

/// Boot mouse protocol.
pub const HID_PROTOCOL_MOUSE: u8 = 0x02;

/// Endpoint address bit: IN.
pub const USB_ENDPOINT_DIRECTION_IN: u8 = 0x80;

/// Control transfers.
pub const USB_TRANSFER_TYPE_CONTROL: u8 = 0x00;

/// Isochronous transfers.
pub const USB_TRANSFER_TYPE_ISOCHRONOUS: u8 = 0x01;

/// Bulk transfers.
pub const USB_TRANSFER_TYPE_BULK: u8 = 0x02;

/// Interrupt transfers.
pub const USB_TRANSFER_TYPE_INTERRUPT: u8 = 0x03;

/// An endpoint descriptor.
#[derive(Clone, Copy, Debug, PartialEq, Eq, Structural)]
pub struct EndpointInfo {
    pub address: u8,
    pub max_packet_size: u16,
    pub interval: u8,
    pub transfer_type: u8,
}

/// An interface descriptor (one alternate setting) with its endpoints.
#[derive(Debug)]
pub struct InterfaceInfo {
    pub interface_number: u8,
    pub alternate_setting: u8,
    pub class: u8,
    pub subclass: u8,
    pub protocol: u8,
    pub endpoints: Vec<EndpointInfo>,
}

/// A boot HID interface.
#[derive(Clone, Copy, Debug, PartialEq, Eq, Structural)]
pub struct HidInterface {
    pub interface_number: u8,
    pub alternate_setting: u8,
    pub kind: HidDeviceKind,
}

/// An interrupt-IN endpoint.
#[derive(Clone, Copy, Debug, PartialEq, Eq, Structural)]
pub struct HidInterruptEndpoint {
    pub address: u8,
    pub max_packet_size: u16,
    pub interval: u8,
}

/// The boot HID kind of an interface, if it is one.
pub open spec fn hid_kind_of(class: u8, subclass: u8, protocol: u8) -> Option<HidDeviceKind> {
    if class != USB_CLASS_HID || subclass != HID_SUBCLASS_BOOT {
        None
    } else if protocol == HID_PROTOCOL_KEYBOARD {
        Some(HidDeviceKind::Keyboard)
    } else if protocol == HID_PROTOCOL_MOUSE {
        Some(HidDeviceKind::Mouse)
    } else {
        None
    }
}

fn hid_kind(class: u8, subclass: u8, protocol: u8) -> (r: Option<HidDeviceKind>)
    ensures
        r == hid_kind_of(class, subclass, protocol),
{
    if class != USB_CLASS_HID || subclass != HID_SUBCLASS_BOOT {
        None
    } else if protocol == HID_PROTOCOL_KEYBOARD {
        Some(HidDeviceKind::Keyboard)
    } else if protocol == HID_PROTOCOL_MOUSE {
        Some(HidDeviceKind::Mouse)
    } else {
        None
    }
}

/// The boot HID interfaces among `interfaces`, in order.
pub open spec fn hid_interfaces_of(interfaces: Seq<InterfaceInfo>) -> Seq<HidInterface>
    decreases interfaces.len(),
{
    if interfaces.len() == 0 {
        Seq::empty()
    } else {
        let rest = hid_interfaces_of(interfaces.drop_last());
        let last = interfaces.last();
        match hid_kind_of(last.class, last.subclass, last.protocol) {
            Some(kind) => rest.push(
                HidInterface {
                    interface_number: last.interface_number,
                    alternate_setting: last.alternate_setting,
                    kind,
                },
            ),
            None => rest,
        }
    }
}

/// The boot keyboard and mouse interfaces among a device's interface
/// descriptors, in order.
pub fn detect_interfaces(interfaces: &[InterfaceInfo]) -> (r: Vec<HidInterface>)
    ensures
        r@ == hid_interfaces_of(interfaces@),
{
    let mut detected: Vec<HidInterface> = Vec::new();
    let mut i: usize = 0;
    while i < interfaces.len()
        invariant
            i <= interfaces@.len(),
            detected@ == hid_interfaces_of(interfaces@.take(i as int)),
        decreases interfaces@.len() - i,
    {
        let interface = &interfaces[i];
        proof {
            assert(interfaces@.take(i + 1).drop_last() =~= interfaces@.take(i as int));
        }
        match hid_kind(interface.class, interface.subclass, interface.protocol) {
            Some(kind) => {
                detected.push(
                    HidInterface {
                        interface_number: interface.interface_number,
                        alternate_setting: interface.alternate_setting,
                        kind,
                    },
                );
            },
            None => {},
        }
        i = i + 1;
    }
    proof {
        assert(interfaces@.take(i as int) =~= interfaces@);
    }
    detected
}

/// The boot HID interfaces among a device's interface descriptors.
pub fn detect_device(interfaces: &[InterfaceInfo]) -> (r: Vec<HidInterface>)
    ensures
        r@ == hid_interfaces_of(interfaces@),
{
    detect_interfaces(interfaces)
}

/// The first boot HID interface among the alternate settings of an opened
/// device's configurations, listed in order.
pub fn find_hid_interface(settings: &[InterfaceInfo]) -> (r: Option<HidInterface>)
    ensures
        match r {
            Some(found) => exists|i: int|
                0 <= i < settings@.len() && hid_kind_of(
                    settings@[i].class,
                    settings@[i].subclass,
                    settings@[i].protocol,
                ) == Some(found.kind) && found.interface_number == settings@[i].interface_number
                    && found.alternate_setting == settings@[i].alternate_setting && forall|j: int|
                    0 <= j < i ==> #[trigger] hid_kind_of(settings@[j].class, settings@[j].subclass, settings@[j].protocol)
                        is None,
            None => forall|j: int|
                0 <= j < settings@.len() ==> #[trigger] hid_kind_of(
                    settings@[j].class,
                    settings@[j].subclass,
                    settings@[j].protocol,
                ) is None,
        },
{
    let mut i: usize = 0;
    while i < settings.len()
        invariant
            i <= settings@.len(),
            forall|j: int|
                0 <= j < i ==> #[trigger] hid_kind_of(settings@[j].class, settings@[j].subclass, settings@[j].protocol)
                    is None,
        decreases settings@.len() - i,
    {
        let interface = &settings[i];
        match hid_kind(interface.class, interface.subclass, interface.protocol) {
            Some(kind) => {
                return Some(
                    HidInterface {
                        interface_number: interface.interface_number,
                        alternate_setting: interface.alternate_setting,
                        kind,
                    },
                );
            },
            None => {},
        }
        i = i + 1;
    }
    None
}

/// Whether an endpoint is an interrupt-IN endpoint.
pub open spec fn is_interrupt_in(endpoint: EndpointInfo) -> bool {
    endpoint.address & USB_ENDPOINT_DIRECTION_IN != 0 && endpoint.transfer_type == USB_TRANSFER_TYPE_INTERRUPT
}

/// The first interrupt-IN endpoint of `endpoints`, if any.
fn first_interrupt_in(endpoints: &Vec<EndpointInfo>) -> (r: Option<HidInterruptEndpoint>)
    ensures
        match r {
            Some(found) => exists|k: int|
                0 <= k < endpoints@.len() && is_interrupt_in(endpoints@[k]) && found == (HidInterruptEndpoint {
                    address: endpoints@[k].address,
                    max_packet_size: endpoints@[k].max_packet_size,
                    interval: endpoints@[k].interval,
                }) && forall|j: int| 0 <= j < k ==> !is_interrupt_in(#[trigger] endpoints@[j]),
            None => forall|j: int| 0 <= j < endpoints@.len() ==> !is_interrupt_in(#[trigger] endpoints@[j]),
        },
{
    let mut k: usize = 0;
    while k < endpoints.len()
        invariant
            k <= endpoints@.len(),
            forall|j: int| 0 <= j < k ==> !is_interrupt_in(#[trigger] endpoints@[j]),
        decreases endpoints@.len() - k,
    {
        let endpoint = endpoints[k];
        if endpoint.address & USB_ENDPOINT_DIRECTION_IN != 0 && endpoint.transfer_type == USB_TRANSFER_TYPE_INTERRUPT {
            return Some(
                HidInterruptEndpoint {
                    address: endpoint.address,
                    max_packet_size: endpoint.max_packet_size,
                    interval: endpoint.interval,
                },
            );
        }
        k = k + 1;
    }
    None
}

/// Whether the alternate setting matches the interface and setting
/// numbers and has an interrupt-IN endpoint.
pub open spec fn setting_has_endpoint(setting: InterfaceInfo, interface_number: u8, alternate_setting: u8) -> bool {
    &&& setting.interface_number == interface_number
    &&& setting.alternate_setting == alternate_setting
    &&& exists|k: int| 0 <= k < setting.endpoints@.len() && is_interrupt_in(#[trigger] setting.endpoints@[k])
}

/// The first interrupt-IN endpoint of the given interface and alternate
/// setting, looking through the settings in order.
pub fn find_hid_interrupt_in_endpoint(
    settings: &[InterfaceInfo],
    interface_number: u8,
    alternate_setting: u8,
) -> (r: Option<HidInterruptEndpoint>)
    ensures
        match r {
            Some(found) => exists|i: int, k: int|
                0 <= i < settings@.len() && settings@[i].interface_number == interface_number
                    && settings@[i].alternate_setting == alternate_setting && 0 <= k < settings@[i].endpoints@.len()
                    && is_interrupt_in(settings@[i].endpoints@[k]) && found == (HidInterruptEndpoint {
                    address: settings@[i].endpoints@[k].address,
                    max_packet_size: settings@[i].endpoints@[k].max_packet_size,
                    interval: settings@[i].endpoints@[k].interval,
                }) && (forall|j: int|
                    0 <= j < k ==> !is_interrupt_in(#[trigger] settings@[i].endpoints@[j])) && (forall|j: int|
                    0 <= j < i ==> !#[trigger] setting_has_endpoint(settings@[j], interface_number, alternate_setting)),
            None => forall|j: int|
                0 <= j < settings@.len() ==> !#[trigger] setting_has_endpoint(
                    settings@[j],
                    interface_number,
                    alternate_setting,
                ),
        },
{
    let mut i: usize = 0;
    while i < settings.len()
        invariant
            i <= settings@.len(),
            forall|j: int|
                0 <= j < i ==> !#[trigger] setting_has_endpoint(settings@[j], interface_number, alternate_setting),
        decreases settings@.len() - i,
    {
        let interface = &settings[i];
        if interface.interface_number == interface_number && interface.alternate_setting == alternate_setting {
            match first_interrupt_in(&interface.endpoints) {
                Some(found) => {
                    return Some(found);
                },
                None => {},
            }
        }
        i = i + 1;
    }
    None
}

/// The log lines for one key in a keyboard report: a non-zero usage is
/// logged, an empty slot is not.
pub open spec fn usage_log(usage: u8) -> Seq<LogPiece> {
    if usage == 0 {
        Seq::empty()
    } else {
        seq![LogPiece::Text("USB KEYBOARD: key usage="), LogPiece::Hex(usage as u64), LogPiece::Text("\n")]
    }
}

/// The log lines for the key slots from byte 2 up to `end` of a report.
pub open spec fn usages_log(report: Seq<u8>, end: int) -> Seq<LogPiece>
    decreases end,
{
    if end <= 2 {
        Seq::empty()
    } else {
        usages_log(report, end - 1) + usage_log(report[end - 1])
    }
}

/// The log lines for a boot keyboard report: too short to hold the
/// modifier byte is invalid; otherwise the modifiers, then every pressed
/// key among the (at most six) key slots.
pub open spec fn keyboard_report_log(report: Seq<u8>) -> Seq<LogPiece> {
    if report.len() < 2 {
        seq![LogPiece::Text("USB KEYBOARD: invalid report\n")]
    } else {
        seq![LogPiece::Text("USB KEYBOARD: modifier="), LogPiece::Hex(report[0] as u64), LogPiece::Text("\n")]
            + usages_log(report, if report.len() < 8 { report.len() as int } else { 8 })
    }
}

/// Logs a boot keyboard report.
pub fn parse_keyboard_report(report: &[u8]) -> (r: Vec<LogPiece>)
    ensures
        r@ == keyboard_report_log(report@),
{
    let mut pieces: Vec<LogPiece> = Vec::new();
    if report.len() < 2 {
        pieces.push(LogPiece::Text("USB KEYBOARD: invalid report\n"));
        proof {
            assert(pieces@ =~= keyboard_report_log(report@));
        }
        return pieces;
    }
    pieces.push(LogPiece::Text("USB KEYBOARD: modifier="));
    pieces.push(LogPiece::Hex(report[0] as u64));
    pieces.push(LogPiece::Text("\n"));
    let ghost header = pieces@;
    let key_count = if report.len() < 8 {
        report.len()
    } else {
        8
    };
    let mut key_index: usize = 2;
    while key_index < key_count
        invariant
            2 <= key_index <= key_count,
            key_count <= report@.len(),
            pieces@ == header + usages_log(report@, key_index as int),
        decreases key_count - key_index,
    {
        let usage = report[key_index];
        if usage != 0 {
            pieces.push(LogPiece::Text("USB KEYBOARD: key usage="));
            pieces.push(LogPiece::Hex(usage as u64));
            pieces.push(LogPiece::Text("\n"));
        }
        proof {
            assert(pieces@ =~= header + usages_log(report@, key_index + 1));
        }
        key_index = key_index + 1;
    }
    proof {
        if key_count <= 2 {
            assert(pieces@ =~= header + usages_log(report@, key_count as int));
        }
        assert(pieces@ =~= keyboard_report_log(report@));
    }
    pieces
}

/// A report byte read as a signed movement and written as a 64-bit
/// two's-complement number.
pub open spec fn signed_movement(b: u8) -> u64 {
    if b < 128 {
        b as u64
    } else {
        (b + 0xFFFF_FFFF_FFFF_FF00) as u64
    }
}

/// The log line for a boot mouse report: too short for buttons and both
/// movements is invalid; otherwise the buttons and the signed movements.
pub open spec fn mouse_report_log(report: Seq<u8>) -> Seq<LogPiece> {
    if report.len() < 3 {
        seq![LogPiece::Text("USB MOUSE: invalid report\n")]
    } else {
        seq![
            LogPiece::Text("USB MOUSE: buttons="),
            LogPiece::Hex(report[0] as u64),
            LogPiece::Text(" x="),
            LogPiece::Hex(signed_movement(report[1])),
            LogPiece::Text(" y="),
            LogPiece::Hex(signed_movement(report[2])),
            LogPiece::Text("\n"),
        ]
    }
}

fn signed_movement_exec(b: u8) -> (r: u64)
    ensures
        r == signed_movement(b),
{
    if b < 128 {
        b as u64
    } else {
        b as u64 + 0xFFFF_FFFF_FFFF_FF00
    }
}

/// Logs a boot mouse report.
pub fn parse_mouse_report(report: &[u8]) -> (r: Vec<LogPiece>)
    ensures
        r@ == mouse_report_log(report@),
{
    let mut pieces: Vec<LogPiece> = Vec::new();
    if report.len() < 3 {
        pieces.push(LogPiece::Text("USB MOUSE: invalid report\n"));
        proof {
            assert(pieces@ =~= mouse_report_log(report@));
        }
        return pieces;
    }
    pieces.push(LogPiece::Text("USB MOUSE: buttons="));
    pieces.push(LogPiece::Hex(report[0] as u64));
    pieces.push(LogPiece::Text(" x="));
    pieces.push(LogPiece::Hex(signed_movement_exec(report[1])));
    pieces.push(LogPiece::Text(" y="));
    pieces.push(LogPiece::Hex(signed_movement_exec(report[2])));
    pieces.push(LogPiece::Text("\n"));
    proof {
        assert(pieces@ =~= mouse_report_log(report@));
    }
    pieces
}


// ============================================================
// Descriptor logs
// ============================================================

/// One configuration of an opened device: its value and the alternate
/// settings of all its interfaces, interface by interface.
#[derive(Debug)]
pub struct ConfigurationInfo {
    pub configuration_value: u8,
    pub interfaces: Vec<InterfaceInfo>,
}

/// The log line of one supported HID interface.
pub open spec fn hid_interface_log(interface: HidInterface) -> Seq<LogPiece> {
    seq![
        LogPiece::Text(
            match interface.kind {
                HidDeviceKind::Keyboard => "USB: keyboard interface=",
                HidDeviceKind::Mouse => "USB: mouse interface=",
            },
        ),
        LogPiece::Hex(interface.interface_number as u64),
        LogPiece::Text(" alt="),
        LogPiece::Hex(interface.alternate_setting as u64),
        LogPiece::Text("\n"),
    ]
}

/// The log lines of the first `n` supported HID interfaces.
pub open spec fn hid_interfaces_log(found: Seq<HidInterface>, n: int) -> Seq<LogPiece>
    decreases n,
{
    if n <= 0 {
        Seq::empty()
    } else {
        hid_interfaces_log(found, n - 1) + hid_interface_log(found[n - 1])
    }
}

/// The log of a device's descriptors: its identity, then its supported
/// HID interfaces, or a line saying that it has none.
pub open spec fn device_info_log(id: usize, vendor_id: u16, product_id: u16, interfaces: Seq<InterfaceInfo>) -> Seq<
    LogPiece,
> {
    let found = hid_interfaces_of(interfaces);
    seq![
        LogPiece::Text("USB: DEVICE DESCRIPTORS\n"),
        LogPiece::Text("USB: id="),
        LogPiece::Hex(id as u64),
        LogPiece::Text(" vendor="),
        LogPiece::Hex(vendor_id as u64),
        LogPiece::Text(" product="),
        LogPiece::Hex(product_id as u64),
        LogPiece::Text("\n"),
    ] + if found.len() == 0 {
        seq![LogPiece::Text("USB: no supported HID interfaces found\n")]
    } else {
        seq![
            LogPiece::Text("USB: supported HID interface count="),
            LogPiece::Hex(found.len() as u64),
            LogPiece::Text("\n"),
        ] + hid_interfaces_log(found, found.len() as int)
    }
}

/// Logs a device's identity and the boot keyboard and mouse interfaces
/// among its interface descriptors.
pub fn inspect_device_info(id: usize, vendor_id: u16, product_id: u16, interfaces: &[InterfaceInfo]) -> (r: Vec<
    LogPiece,
>)
    ensures
        r@ == device_info_log(id, vendor_id, product_id, interfaces@),
{
    let mut pieces: Vec<LogPiece> = Vec::new();
    pieces.push(LogPiece::Text("USB: DEVICE DESCRIPTORS\n"));
    pieces.push(LogPiece::Text("USB: id="));
    pieces.push(LogPiece::Hex(id as u64));
    pieces.push(LogPiece::Text(" vendor="));
    pieces.push(LogPiece::Hex(vendor_id as u64));
    pieces.push(LogPiece::Text(" product="));
    pieces.push(LogPiece::Hex(product_id as u64));
    pieces.push(LogPiece::Text("\n"));
    let detected = detect_interfaces(interfaces);
    if detected.len() == 0 {
        pieces.push(LogPiece::Text("USB: no supported HID interfaces found\n"));
        proof {
            assert(pieces@ =~= device_info_log(id, vendor_id, product_id, interfaces@));
        }
        return pieces;
    }
    pieces.push(LogPiece::Text("USB: supported HID interface count="));
    pieces.push(LogPiece::Hex(detected.len() as u64));
    pieces.push(LogPiece::Text("\n"));
    let ghost header = pieces@;
    let mut i: usize = 0;
    while i < detected.len()
        invariant
            i <= detected@.len(),
            pieces@ == header + hid_interfaces_log(detected@, i as int),
        decreases detected@.len() - i,
    {
        let interface = detected[i];
        match interface.kind {
            HidDeviceKind::Keyboard => {
                pieces.push(LogPiece::Text("USB: keyboard interface="));
            },
            HidDeviceKind::Mouse => {
                pieces.push(LogPiece::Text("USB: mouse interface="));
            },
        }
        pieces.push(LogPiece::Hex(interface.interface_number as u64));
        pieces.push(LogPiece::Text(" alt="));
        pieces.push(LogPiece::Hex(interface.alternate_setting as u64));
        pieces.push(LogPiece::Text("\n"));
        proof {
            assert(pieces@ =~= header + hid_interfaces_log(detected@, i + 1));
        }
        i = i + 1;
    }
    proof {
        assert(pieces@ =~= device_info_log(id, vendor_id, product_id, interfaces@));
    }
    pieces
}

/// The log lines of one endpoint descriptor.
pub open spec fn endpoint_log(endpoint: EndpointInfo) -> Seq<LogPiece> {
    seq![
        LogPiece::Text("USB: endpoint address="),
        LogPiece::Hex(endpoint.address as u64),
        LogPiece::Text(" max_packet="),
        LogPiece::Hex(endpoint.max_packet_size as u64),
        LogPiece::Text(" interval="),
        LogPiece::Hex(endpoint.interval as u64),
        LogPiece::Text("\n"),
        LogPiece::Text(
            if endpoint.address & USB_ENDPOINT_DIRECTION_IN != 0 {
                "USB: endpoint direction=IN\n"
            } else {
                "USB: endpoint direction=OUT\n"
            },
        ),
        LogPiece::Text("USB: endpoint transfer_type="),
        LogPiece::Hex(endpoint.transfer_type as u64),
        LogPiece::Text("\n"),
    ]
}

/// The log lines of the first `n` endpoint descriptors.
pub open spec fn endpoints_log(endpoints: Seq<EndpointInfo>, n: int) -> Seq<LogPiece>
    decreases n,
{
    if n <= 0 {
        Seq::empty()
    } else {
        endpoints_log(endpoints, n - 1) + endpoint_log(endpoints[n - 1])
    }
}

/// The log lines of one alternate setting and its endpoints.
pub open spec fn setting_log(setting: InterfaceInfo) -> Seq<LogPiece> {
    seq![
        LogPiece::Text("USB: interface="),
        LogPiece::Hex(setting.interface_number as u64),
        LogPiece::Text(" alt="),
        LogPiece::Hex(setting.alternate_setting as u64),
        LogPiece::Text(" class="),
        LogPiece::Hex(setting.class as u64),
        LogPiece::Text(" subclass="),
        LogPiece::Hex(setting.subclass as u64),
        LogPiece::Text(" protocol="),
        LogPiece::Hex(setting.protocol as u64),
        LogPiece::Text("\n"),
    ] + endpoints_log(setting.endpoints@, setting.endpoints@.len() as int)
}

/// The log lines of the first `n` alternate settings.
pub open spec fn settings_log(settings: Seq<InterfaceInfo>, n: int) -> Seq<LogPiece>
    decreases n,
{
    if n <= 0 {
        Seq::empty()
    } else {
        settings_log(settings, n - 1) + setting_log(settings[n - 1])
    }
}

/// The log lines of one configuration.
pub open spec fn configuration_log(configuration: ConfigurationInfo) -> Seq<LogPiece> {
    seq![
        LogPiece::Text("USB: configuration="),
        LogPiece::Hex(configuration.configuration_value as u64),
        LogPiece::Text("\n"),
    ] + settings_log(configuration.interfaces@, configuration.interfaces@.len() as int)
}

/// The log lines of the first `n` configurations.
pub open spec fn configurations_log(configurations: Seq<ConfigurationInfo>, n: int) -> Seq<LogPiece>
    decreases n,
{
    if n <= 0 {
        Seq::empty()
    } else {
        configurations_log(configurations, n - 1) + configuration_log(configurations[n - 1])
    }
}

/// The log of an opened device: its identity, the number of its
/// configurations, then every configuration, alternate setting and
/// endpoint in order.
pub open spec fn open_device_log(
    slot_id: u64,
    vendor_id: u16,
    product_id: u16,
    configurations: Seq<ConfigurationInfo>,
) -> Seq<LogPiece> {
    seq![
        LogPiece::Text("USB: DEVICE INFORMATION\n"),
        LogPiece::Text("USB: slot="),
        LogPiece::Hex(slot_id),
        LogPiece::Text(" vendor="),
        LogPiece::Hex(vendor_id as u64),
        LogPiece::Text(" product="),
        LogPiece::Hex(product_id as u64),
        LogPiece::Text("\n"),
        LogPiece::Text("USB: configuration_count="),
        LogPiece::Hex(configurations.len() as u64),
        LogPiece::Text("\n"),
    ] + configurations_log(configurations, configurations.len() as int)
}

fn push_endpoint_log(pieces: &mut Vec<LogPiece>, endpoint: EndpointInfo)
    ensures
        final(pieces)@ == old(pieces)@ + endpoint_log(endpoint),
{
    let ghost start = pieces@;
    pieces.push(LogPiece::Text("USB: endpoint address="));
    pieces.push(LogPiece::Hex(endpoint.address as u64));
    pieces.push(LogPiece::Text(" max_packet="));
    pieces.push(LogPiece::Hex(endpoint.max_packet_size as u64));
    pieces.push(LogPiece::Text(" interval="));
    pieces.push(LogPiece::Hex(endpoint.interval as u64));
    pieces.push(LogPiece::Text("\n"));
    if endpoint.address & USB_ENDPOINT_DIRECTION_IN != 0 {
        pieces.push(LogPiece::Text("USB: endpoint direction=IN\n"));
    } else {
        pieces.push(LogPiece::Text("USB: endpoint direction=OUT\n"));
    }
    pieces.push(LogPiece::Text("USB: endpoint transfer_type="));
    pieces.push(LogPiece::Hex(endpoint.transfer_type as u64));
    pieces.push(LogPiece::Text("\n"));
    proof {
        assert(pieces@ =~= start + endpoint_log(endpoint));
    }
}

fn push_setting_log(pieces: &mut Vec<LogPiece>, setting: &InterfaceInfo)
    ensures
        final(pieces)@ == old(pieces)@ + setting_log(*setting),
{
    let ghost start = pieces@;
    pieces.push(LogPiece::Text("USB: interface="));
    pieces.push(LogPiece::Hex(setting.interface_number as u64));
    pieces.push(LogPiece::Text(" alt="));
    pieces.push(LogPiece::Hex(setting.alternate_setting as u64));
    pieces.push(LogPiece::Text(" class="));
    pieces.push(LogPiece::Hex(setting.class as u64));
    pieces.push(LogPiece::Text(" subclass="));
    pieces.push(LogPiece::Hex(setting.subclass as u64));
    pieces.push(LogPiece::Text(" protocol="));
    pieces.push(LogPiece::Hex(setting.protocol as u64));
    pieces.push(LogPiece::Text("\n"));
    let ghost header = pieces@;
    let mut e: usize = 0;
    while e < setting.endpoints.len()
        invariant
            e <= setting.endpoints@.len(),
            pieces@ == header + endpoints_log(setting.endpoints@, e as int),
        decreases setting.endpoints@.len() - e,
    {
        push_endpoint_log(pieces, setting.endpoints[e]);
        proof {
            assert(pieces@ =~= header + endpoints_log(setting.endpoints@, e + 1));
        }
        e = e + 1;
    }
    proof {
        assert(pieces@ =~= start + setting_log(*setting));
    }
}

/// Logs an opened device: its identity, then every configuration,
/// alternate setting and endpoint descriptor, with each endpoint's
/// direction.
pub fn inspect_open_device(
    slot_id: u64,
    vendor_id: u16,
    product_id: u16,
    configurations: &[ConfigurationInfo],
) -> (r: Vec<LogPiece>)
    ensures
        r@ == open_device_log(slot_id, vendor_id, product_id, configurations@),
{
    let mut pieces: Vec<LogPiece> = Vec::new();
    pieces.push(LogPiece::Text("USB: DEVICE INFORMATION\n"));
    pieces.push(LogPiece::Text("USB: slot="));
    pieces.push(LogPiece::Hex(slot_id));
    pieces.push(LogPiece::Text(" vendor="));
    pieces.push(LogPiece::Hex(vendor_id as u64));
    pieces.push(LogPiece::Text(" product="));
    pieces.push(LogPiece::Hex(product_id as u64));
    pieces.push(LogPiece::Text("\n"));
    pieces.push(LogPiece::Text("USB: configuration_count="));
    pieces.push(LogPiece::Hex(configurations.len() as u64));
    pieces.push(LogPiece::Text("\n"));
    let ghost header = pieces@;
    let mut c: usize = 0;
    while c < configurations.len()
        invariant
            c <= configurations@.len(),
            pieces@ == header + configurations_log(configurations@, c as int),
        decreases configurations@.len() - c,
    {
        let configuration = &configurations[c];
        let ghost before = pieces@;
        pieces.push(LogPiece::Text("USB: configuration="));
        pieces.push(LogPiece::Hex(configuration.configuration_value as u64));
        pieces.push(LogPiece::Text("\n"));
        let ghost config_header = pieces@;
        let mut s: usize = 0;
        while s < configuration.interfaces.len()
            invariant
                s <= configuration.interfaces@.len(),
                pieces@ == config_header + settings_log(configuration.interfaces@, s as int),
            decreases configuration.interfaces@.len() - s,
        {
            push_setting_log(&mut pieces, &configuration.interfaces[s]);
            proof {
                assert(pieces@ =~= config_header + settings_log(configuration.interfaces@, s + 1));
            }
            s = s + 1;
        }
        proof {
            assert(pieces@ =~= before + configuration_log(*configuration));
            assert(pieces@ =~= header + configurations_log(configurations@, c + 1));
        }
        c = c + 1;
    }
    proof {
        assert(pieces@ =~= open_device_log(slot_id, vendor_id, product_id, configurations@));
    }
    pieces
}

} // verus!
