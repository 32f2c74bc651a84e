//! Boot-protocol HID keyboards and mice on xHCI: the checks on the
//! descriptors a device returns, the search of its configuration for
//! interrupt-IN endpoints, the enumeration sequence as a state machine that
//! names each controller request, and the table of armed endpoints.

use vstd::prelude::*;

verus! {

/// `GET_DESCRIPTOR`.
pub const USB_REQ_GET_DESCRIPTOR: u8 = 0x06;

/// `SET_CONFIGURATION`.
pub const USB_REQ_SET_CONFIGURATION: u8 = 0x09;

/// Device descriptor type.
pub const USB_DESC_DEVICE: u8 = 0x01;

/// Configuration descriptor type.
pub const USB_DESC_CONFIGURATION: u8 = 0x02;

/// Interface descriptor type.
pub const USB_DESC_INTERFACE: u8 = 0x04;

/// Endpoint descriptor type.
pub const USB_DESC_ENDPOINT: u8 = 0x05;

/// HID descriptor type.
pub const USB_DESC_HID: u8 = 0x21;

/// SuperSpeed endpoint companion descriptor type.
pub const USB_DESC_SS_ENDPOINT_COMPANION: u8 = 0x30;

/// HID `SET_IDLE`.
pub const HID_REQ_SET_IDLE: u8 = 0x0A;

/// HID `SET_PROTOCOL`.
pub const HID_REQ_SET_PROTOCOL: u8 = 0x0B;

/// HID interface class.
pub const USB_CLASS_HID: u8 = 0x03;

/// Boot interface subclass.
pub const HID_SUBCLASS_BOOT: u8 = 0x01;

/// Boot keyboard protocol.
pub const HID_PROTOCOL_KEYBOARD: u8 = 0x01;

/// Boot mouse protocol.
pub const HID_PROTOCOL_MOUSE: u8 = 0x02;

/// Interrupt transfer type of an endpoint.
pub const USB_ENDPOINT_XFER_INT: u8 = 0x03;

/// Transfer completion: success.
pub const XHCI_COMPLETION_SUCCESS: u8 = 1;

/// Transfer completion: short packet.
pub const XHCI_COMPLETION_SHORT_PACKET: u8 = 13;

/// Port speed: full speed.
pub const XHCI_SPEED_FULL: u8 = 1;

/// Port speed: low speed.
pub const XHCI_SPEED_LOW: u8 = 2;

/// Port speed: high speed.
pub const XHCI_SPEED_HIGH: u8 = 3;

/// Port speed: SuperSpeed.
pub const XHCI_SPEED_SUPER: u8 = 4;

/// Port speed: SuperSpeedPlus.
pub const XHCI_SPEED_SUPER_PLUS: u8 = 5;

/// Largest configuration descriptor tree that is read.
pub const MAX_CONFIGURATION_LENGTH: usize = 4096;

/// A boot HID device's kind.
#[derive(Clone, Copy, Debug, PartialEq, Eq, Structural)]
pub enum HidDeviceKind {
    Keyboard,
    Mouse,
}

/// An interrupt-IN endpoint of a boot HID interface found in a
/// configuration.
#[derive(Clone, Copy, Debug, PartialEq, Eq, Structural)]
pub struct HidEndpointCandidate {
    pub interface_number: u8,
    pub alternate_setting: u8,
    pub address: u8,
    pub kind: HidDeviceKind,
    pub packet_size: u16,
    pub interval: u8,
}

/// An armed interrupt-IN endpoint.
#[derive(Clone, Copy, Debug, PartialEq, Eq, Structural)]
pub struct HidEndpoint {
    pub port: usize,
    pub slot_id: u8,
    pub endpoint_id: u8,
    pub interface_number: u8,
    pub kind: HidDeviceKind,
    pub packet_size: usize,
}

// ============================================================
// Device descriptors
// ============================================================

/// The default control-endpoint packet size used to address a device at
/// each port speed; `None` for an unknown speed.
pub open spec fn initial_packet_size_of(speed: u8) -> Option<u16> {
    if speed == XHCI_SPEED_LOW || speed == XHCI_SPEED_FULL {
        Some(8)
    } else if speed == XHCI_SPEED_HIGH {
        Some(64)
    } else if speed == XHCI_SPEED_SUPER || speed == XHCI_SPEED_SUPER_PLUS {
        Some(512)
    } else {
        None
    }
}

/// The control-endpoint packet size used to address a device at `speed`.
pub fn initial_max_packet_size(speed: u8) -> (r: Option<u16>)
    ensures
        r == initial_packet_size_of(speed),
{
    if speed == XHCI_SPEED_LOW || speed == XHCI_SPEED_FULL {
        Some(8)
    } else if speed == XHCI_SPEED_HIGH {
        Some(64)
    } else if speed == XHCI_SPEED_SUPER || speed == XHCI_SPEED_SUPER_PLUS {
        Some(512)
    } else {
        None
    }
}

/// Whether the first eight bytes of a device descriptor, `actual` of them
/// received, look like one.
pub open spec fn device_header_ok(header: Seq<u8>, actual: usize) -> bool {
    actual >= 8 && header.len() >= 8 && header[0] >= 8 && header[1] == USB_DESC_DEVICE
}

/// Checks the first eight bytes of a device descriptor.
pub fn device_header_valid(header: &[u8], actual: usize) -> (r: bool)
    ensures
        r == device_header_ok(header@, actual),
{
    actual >= 8 && header.len() >= 8 && header[0] >= 8 && header[1] == USB_DESC_DEVICE
}

/// The control-endpoint packet size that a device at `speed` reports with
/// `reported` (an exponent at SuperSpeed); `None` when the value is not
/// allowed at that speed.
pub open spec fn ep0_packet_size_of(speed: u8, reported: u8) -> Option<u16> {
    if speed == XHCI_SPEED_SUPER || speed == XHCI_SPEED_SUPER_PLUS {
        if 3 <= reported <= 9 {
            Some((1u16 << reported) as u16)
        } else {
            None
        }
    } else if speed == XHCI_SPEED_LOW {
        if reported == 8 {
            Some(8)
        } else {
            None
        }
    } else if speed == XHCI_SPEED_FULL {
        if reported == 8 || reported == 16 || reported == 32 || reported == 64 {
            Some(reported as u16)
        } else {
            None
        }
    } else if speed == XHCI_SPEED_HIGH {
        if reported == 64 {
            Some(64)
        } else {
            None
        }
    } else {
        None
    }
}

/// Decodes `bMaxPacketSize0` for a device at `speed`.
pub fn ep0_max_packet_size(speed: u8, reported: u8) -> (r: Option<u16>)
    ensures
        r == ep0_packet_size_of(speed, reported),
{
    if speed == XHCI_SPEED_SUPER || speed == XHCI_SPEED_SUPER_PLUS {
        if 3 <= reported && reported <= 9 {
            Some(1u16 << reported)
        } else {
            None
        }
    } else if speed == XHCI_SPEED_LOW {
        if reported == 8 {
            Some(8)
        } else {
            None
        }
    } else if speed == XHCI_SPEED_FULL {
        if reported == 8 || reported == 16 || reported == 32 || reported == 64 {
            Some(reported as u16)
        } else {
            None
        }
    } else if speed == XHCI_SPEED_HIGH {
        if reported == 64 {
            Some(64)
        } else {
            None
        }
    } else {
        None
    }
}

/// The vendor, product and number of configurations of a device.
#[derive(Clone, Copy, Debug, PartialEq, Eq, Structural)]
pub struct DeviceDescriptorInfo {
    pub vendor_id: u16,
    pub product_id: u16,
    pub configuration_count: u8,
}

/// The little-endian 16-bit value of two bytes.
pub open spec fn le16(low: u8, high: u8) -> u16 {
    (low as int + 256 * high as int) as u16
}

fn le16_exec(low: u8, high: u8) -> (r: u16)
    ensures
        r == le16(low, high),
{
    (high as u16) * 256 + low as u16
}

/// What a full device descriptor, `actual` bytes of it received, says;
/// `None` when it is not one.
pub open spec fn device_descriptor_of(descriptor: Seq<u8>, actual: usize) -> Option<DeviceDescriptorInfo> {
    if actual >= 18 && descriptor.len() >= 18 && descriptor[0] >= 18 && descriptor[1] == USB_DESC_DEVICE {
        Some(
            DeviceDescriptorInfo {
                vendor_id: le16(descriptor[8], descriptor[9]),
                product_id: le16(descriptor[10], descriptor[11]),
                configuration_count: descriptor[17],
            },
        )
    } else {
        None
    }
}

/// Checks a full device descriptor and reads its identifiers.
pub fn device_descriptor_info(descriptor: &[u8], actual: usize) -> (r: Option<DeviceDescriptorInfo>)
    ensures
        r == device_descriptor_of(descriptor@, actual),
{
    if actual >= 18 && descriptor.len() >= 18 && descriptor[0] >= 18 && descriptor[1] == USB_DESC_DEVICE {
        Some(
            DeviceDescriptorInfo {
                vendor_id: le16_exec(descriptor[8], descriptor[9]),
                product_id: le16_exec(descriptor[10], descriptor[11]),
                configuration_count: descriptor[17],
            },
        )
    } else {
        None
    }
}

/// The total length and configuration value in a configuration
/// descriptor header, `actual` bytes of it received; `None` when it is not
/// one or its tree is shorter than 9 or longer than 4096 bytes.
pub open spec fn configuration_header_of(header: Seq<u8>, actual: usize) -> Option<(usize, u8)> {
    if !(actual >= 9 && header.len() >= 9 && header[0] >= 9 && header[1] == USB_DESC_CONFIGURATION) {
        None
    } else {
        let total = le16(header[2], header[3]);
        if total < 9 || total > MAX_CONFIGURATION_LENGTH {
            None
        } else {
            Some((total as usize, header[5]))
        }
    }
}

/// Checks a configuration descriptor header.
pub fn configuration_header_info(header: &[u8], actual: usize) -> (r: Option<(usize, u8)>)
    ensures
        r == configuration_header_of(header@, actual),
{
    if !(actual >= 9 && header.len() >= 9 && header[0] >= 9 && header[1] == USB_DESC_CONFIGURATION) {
        return None;
    }
    let total = le16_exec(header[2], header[3]) as usize;
    if total < 9 || total > MAX_CONFIGURATION_LENGTH {
        return None;
    }
    Some((total, header[5]))
}

/// The xHCI endpoint id of USB endpoint address `address`: twice the
/// endpoint number, plus one for IN.
pub open spec fn endpoint_id_of(address: u8) -> u8 {
    (2 * (address & 0x0F) + if address & 0x80 != 0 { 1int } else { 0int }) as u8
}

/// The xHCI endpoint id of a USB endpoint address.
pub fn endpoint_id_from_address(address: u8) -> (r: u8)
    ensures
        r == endpoint_id_of(address),
        1 <= r || address & 0x8F == 0,
        r <= 31,
{
    let endpoint_number = address & 0x0F;
    proof {
        assert(address & 0x0F <= 15) by (bit_vector);
        assert(address & 0x8F == 0 <==> (address & 0x0F == 0 && address & 0x80 == 0)) by (bit_vector);
    }
    endpoint_number * 2 + if address & 0x80 != 0 { 1 } else { 0 }
}

// ============================================================
// Configuration descriptor tree
// ============================================================

/// Where the search of a configuration tree stands: the boot HID
/// interface being read (number, alternate setting, kind), the endpoints
/// found so far, and the last endpoint found in the current descriptor
/// run.
#[derive(Clone, Copy, Debug)]
pub struct ParsePosition {
    pub interface: Option<(u8, u8, HidDeviceKind)>,
    pub last_endpoint: Option<usize>,
}

/// The boot HID kind of an interface descriptor's class, subclass and
/// protocol at alternate setting zero; `None` for anything else.
pub open spec fn boot_interface_kind(alternate_setting: u8, class: u8, subclass: u8, protocol: u8) -> Option<HidDeviceKind> {
    if alternate_setting == 0 && class == USB_CLASS_HID && subclass == HID_SUBCLASS_BOOT {
        if protocol == HID_PROTOCOL_KEYBOARD {
            Some(HidDeviceKind::Keyboard)
        } else if protocol == HID_PROTOCOL_MOUSE {
            Some(HidDeviceKind::Mouse)
        } else {
            None
        }
    } else {
        None
    }
}

/// The endpoint that an endpoint descriptor at `offset` adds while a boot
/// HID interface is being read: an interrupt-IN endpoint with one
/// transaction per microframe, a packet size of 1 to 1024 and a non-zero
/// interval.
pub open spec fn endpoint_candidate(
    bytes: Seq<u8>,
    offset: int,
    interface: (u8, u8, HidDeviceKind),
) -> Option<HidEndpointCandidate> {
    let address = bytes[offset + 2];
    let attributes = bytes[offset + 3];
    let packet = le16(bytes[offset + 4], bytes[offset + 5]);
    let interval = bytes[offset + 6];
    let max_packet = packet & 0x07FF;
    if address & 0x80 == 0 || attributes & 0x03 != USB_ENDPOINT_XFER_INT {
        None
    } else if (packet >> 11u16) & 0x03 != 0 {
        None
    } else if max_packet == 0 || max_packet > 1024 || interval == 0 {
        None
    } else {
        Some(
            HidEndpointCandidate {
                interface_number: interface.0,
                alternate_setting: interface.1,
                address,
                kind: interface.2,
                packet_size: max_packet,
                interval,
            },
        )
    }
}

/// The search after the descriptor of `length` bytes at `offset`, for a
/// device at `speed`: interface descriptors start or end a boot HID
/// interface, endpoint descriptors inside one add candidates, and a
/// SuperSpeed companion that asks for bursts drops the endpoint before it.
pub open spec fn descriptor_step(
    bytes: Seq<u8>,
    offset: int,
    length: int,
    speed: u8,
    pos: ParsePosition,
    endpoints: Seq<HidEndpointCandidate>,
) -> (ParsePosition, Seq<HidEndpointCandidate>) {
    let descriptor_type = bytes[offset + 1];
    if descriptor_type == USB_DESC_INTERFACE && length >= 9 {
        let kind = boot_interface_kind(bytes[offset + 3], bytes[offset + 5], bytes[offset + 6], bytes[offset + 7]);
        match kind {
            Some(k) => (ParsePosition { interface: Some((bytes[offset + 2], bytes[offset + 3], k)), last_endpoint: None }, endpoints),
            None => (ParsePosition { interface: None, last_endpoint: None }, endpoints),
        }
    } else if descriptor_type == USB_DESC_ENDPOINT && length >= 7 {
        match pos.interface {
            None => (ParsePosition { last_endpoint: None, ..pos }, endpoints),
            Some(interface) => match endpoint_candidate(bytes, offset, interface) {
                None => (ParsePosition { last_endpoint: None, ..pos }, endpoints),
                Some(c) => (
                    ParsePosition { last_endpoint: Some(endpoints.len() as usize), ..pos },
                    endpoints.push(c),
                ),
            },
        }
    } else if descriptor_type == USB_DESC_SS_ENDPOINT_COMPANION && length >= 6 {
        match pos.last_endpoint {
            None => (pos, endpoints),
            Some(index) => if speed < XHCI_SPEED_SUPER {
                (pos, endpoints)
            } else if (bytes[offset + 2] != 0 || bytes[offset + 3] != 0) && index < endpoints.len() {
                (
                    ParsePosition { last_endpoint: None, ..pos },
                    endpoints.update(index as int, endpoints.last()).drop_last(),
                )
            } else {
                (pos, endpoints)
            },
        }
    } else {
        (pos, endpoints)
    }
}

/// The endpoints found in the first `parse_length` bytes from `offset`,
/// or `None` when a descriptor there is shorter than two bytes or runs
/// past the end.
pub open spec fn parse_from(
    bytes: Seq<u8>,
    parse_length: int,
    speed: u8,
    offset: int,
    pos: ParsePosition,
    endpoints: Seq<HidEndpointCandidate>,
) -> Option<Seq<HidEndpointCandidate>>
    decreases parse_length - offset,
{
    if offset < 0 || offset + 2 > parse_length {
        Some(endpoints)
    } else {
        let length = bytes[offset] as int;
        if length < 2 || offset + length > parse_length {
            None
        } else {
            let next = descriptor_step(bytes, offset, length, speed, pos, endpoints);
            parse_from(bytes, parse_length, speed, offset + length, next.0, next.1)
        }
    }
}

/// The boot HID interrupt-IN endpoints of a configuration tree of which
/// `actual` bytes were received, for a device at `speed`.
pub open spec fn hid_endpoints_of(configuration: Seq<u8>, actual: usize, speed: u8) -> Option<
    Seq<HidEndpointCandidate>,
> {
    let parse_length = if actual < configuration.len() { actual as int } else { configuration.len() as int };
    parse_from(
        configuration,
        parse_length,
        speed,
        0,
        ParsePosition { interface: None, last_endpoint: None },
        Seq::empty(),
    )
}

/// The endpoint that the endpoint descriptor at `offset` adds, if any.
fn endpoint_candidate_exec(bytes: &[u8], offset: usize, interface: (u8, u8, HidDeviceKind)) -> (r: Option<
    HidEndpointCandidate,
>)
    requires
        offset + 7 <= bytes@.len(),
    ensures
        r == endpoint_candidate(bytes@, offset as int, interface),
{
    let _ = bytes.len();
    let address = bytes[offset + 2];
    let attributes = bytes[offset + 3];
    let packet = le16_exec(bytes[offset + 4], bytes[offset + 5]);
    let interval = bytes[offset + 6];
    let max_packet = packet & 0x07FF;
    if address & 0x80 == 0 || attributes & 0x03 != USB_ENDPOINT_XFER_INT {
        return None;
    }
    if (packet >> 11) & 0x03 != 0 {
        return None;
    }
    if max_packet == 0 || max_packet > 1024 || interval == 0 {
        return None;
    }
    Some(
        HidEndpointCandidate {
            interface_number: interface.0,
            alternate_setting: interface.1,
            address,
            kind: interface.2,
            packet_size: max_packet,
            interval,
        },
    )
}

/// Searches the configuration tree, `actual` bytes of it received, for
/// boot HID interrupt-IN endpoints; `None` when a descriptor is malformed.
pub fn parse_hid_endpoints(configuration: &[u8], actual: usize, speed: u8) -> (r: Option<Vec<HidEndpointCandidate>>)
    ensures
        match hid_endpoints_of(configuration@, actual, speed) {
            Some(found) => r matches Some(v) && v@ == found,
            None => r is None,
        },
{
    let parse_length = if actual < configuration.len() { actual } else { configuration.len() };
    let ghost bytes = configuration@;
    let mut pos = ParsePosition { interface: None, last_endpoint: None };
    let mut endpoints: Vec<HidEndpointCandidate> = Vec::new();
    let mut offset: usize = 0;
    while parse_length - offset >= 2
        invariant
            parse_length <= bytes.len(),
            bytes == configuration@,
            offset <= parse_length,
            parse_from(bytes, parse_length as int, speed, offset as int, pos, endpoints@) == hid_endpoints_of(
                bytes,
                actual,
                speed,
            ),
        decreases parse_length - offset,
    {
        let length = configuration[offset] as usize;
        if length < 2 || length > parse_length - offset {
            return None;
        }
        let descriptor_type = configuration[offset + 1];
        let ghost before_pos = pos;
        let ghost before = endpoints@;
        if descriptor_type == USB_DESC_INTERFACE && length >= 9 {
            let alternate_setting = configuration[offset + 3];
            let class = configuration[offset + 5];
            let subclass = configuration[offset + 6];
            let protocol = configuration[offset + 7];
            if alternate_setting == 0 && class == USB_CLASS_HID && subclass == HID_SUBCLASS_BOOT {
                if protocol == HID_PROTOCOL_KEYBOARD {
                    pos = ParsePosition {
                        interface: Some((configuration[offset + 2], alternate_setting, HidDeviceKind::Keyboard)),
                        last_endpoint: None,
                    };
                } else if protocol == HID_PROTOCOL_MOUSE {
                    pos = ParsePosition {
                        interface: Some((configuration[offset + 2], alternate_setting, HidDeviceKind::Mouse)),
                        last_endpoint: None,
                    };
                } else {
                    pos = ParsePosition { interface: None, last_endpoint: None };
                }
            } else {
                pos = ParsePosition { interface: None, last_endpoint: None };
            }
        } else if descriptor_type == USB_DESC_ENDPOINT && length >= 7 {
            pos.last_endpoint = None;
            match pos.interface {
                None => {},
                Some(interface) => {
                    match endpoint_candidate_exec(configuration, offset, interface) {
                        None => {},
                        Some(candidate) => {
                            endpoints.push(candidate);
                            pos.last_endpoint = Some(endpoints.len() - 1);
                        },
                    }
                },
            }
        } else if descriptor_type == USB_DESC_SS_ENDPOINT_COMPANION && length >= 6 {
            match pos.last_endpoint {
                None => {},
                Some(index) => {
                    if speed >= XHCI_SPEED_SUPER {
                        let max_burst = configuration[offset + 2];
                        let attributes = configuration[offset + 3];
                        if (max_burst != 0 || attributes != 0) && index < endpoints.len() {
                            let _ = endpoints.swap_remove(index);
                            pos.last_endpoint = None;
                        }
                    }
                },
            }
        }
        proof {
            let next = descriptor_step(bytes, offset as int, length as int, speed, before_pos, before);
            assert(next.0 == pos);
            assert(next.1 =~= endpoints@);
        }
        offset = offset + length;
    }
    Some(endpoints)
}

// ============================================================
// Armed endpoints
// ============================================================

/// The armed boot HID endpoints.
pub struct HidManager {
    devices: Vec<HidEndpoint>,
}

impl HidManager {
    /// The armed endpoints, in the order they were armed.
    pub closed spec fn devices(&self) -> Seq<HidEndpoint> {
        self.devices@
    }

    /// No endpoints.
    pub fn new() -> (r: Self)
        ensures
            r.devices() == Seq::<HidEndpoint>::empty(),
    {
        HidManager { devices: Vec::new() }
    }

    /// The number of armed endpoints.
    pub fn device_count(&self) -> (r: usize)
        ensures
            r == self.devices().len(),
    {
        self.devices.len()
    }

    /// Whether a keyboard endpoint is armed.
    pub fn has_keyboard(&self) -> (r: bool)
        ensures
            r == exists|i: int| 0 <= i < self.devices().len() && #[trigger] self.devices()[i].kind == HidDeviceKind::Keyboard,
    {
        self.has_kind(HidDeviceKind::Keyboard)
    }

    /// Whether a mouse endpoint is armed.
    pub fn has_mouse(&self) -> (r: bool)
        ensures
            r == exists|i: int| 0 <= i < self.devices().len() && #[trigger] self.devices()[i].kind == HidDeviceKind::Mouse,
    {
        self.has_kind(HidDeviceKind::Mouse)
    }

    fn has_kind(&self, kind: HidDeviceKind) -> (r: bool)
        ensures
            r == exists|i: int| 0 <= i < self.devices().len() && #[trigger] self.devices()[i].kind == kind,
    {
        let mut i: usize = 0;
        while i < self.devices.len()
            invariant
                i <= self.devices@.len(),
                forall|j: int| 0 <= j < i ==> #[trigger] self.devices@[j].kind != kind,
            decreases self.devices@.len() - i,
        {
            if self.devices[i].kind == kind {
                return true;
            }
            i = i + 1;
        }
        false
    }

    /// Adds an armed endpoint.
    pub fn register(&mut self, device: HidEndpoint)
        ensures
            final(self).devices() == old(self).devices().push(device),
    {
        self.devices.push(device);
    }

    /// The first armed endpoint of slot `slot_id` with endpoint id
    /// `endpoint_id`.
    pub fn find_endpoint(&self, slot_id: u8, endpoint_id: u8) -> (r: Option<usize>)
        ensures
            match r {
                Some(i) => i < self.devices().len() && self.devices()[i as int].slot_id == slot_id
                    && self.devices()[i as int].endpoint_id == endpoint_id && forall|j: int|
                    0 <= j < i ==> !(#[trigger] self.devices()[j].slot_id == slot_id && self.devices()[j].endpoint_id
                        == endpoint_id),
                None => forall|j: int|
                    0 <= j < self.devices().len() ==> !(#[trigger] self.devices()[j].slot_id == slot_id
                        && self.devices()[j].endpoint_id == endpoint_id),
            },
    {
        let mut i: usize = 0;
        while i < self.devices.len()
            invariant
                i <= self.devices@.len(),
                forall|j: int|
                    0 <= j < i ==> !(#[trigger] self.devices@[j].slot_id == slot_id && self.devices@[j].endpoint_id
                        == endpoint_id),
            decreases self.devices@.len() - i,
        {
            if self.devices[i].slot_id == slot_id && self.devices[i].endpoint_id == endpoint_id {
                return Some(i);
            }
            i = i + 1;
        }
        None
    }

    /// The armed endpoint at `index`.
    pub fn device(&self, index: usize) -> (r: HidEndpoint)
        requires
            index < self.devices().len(),
        ensures
            r == self.devices()[index as int],
    {
        self.devices[index]
    }

    /// What to do with a finished interrupt transfer of slot `slot_id`,
    /// endpoint `endpoint_id`, with completion code `completion_code` and
    /// `residual` bytes not transferred.
    pub fn handle_completion(&self, slot_id: u8, endpoint_id: u8, completion_code: u8, residual: u32) -> (r:
        CompletionAction)
        ensures
            match r {
                CompletionAction::UnknownEndpoint => forall|j: int|
                    0 <= j < self.devices().len() ==> !(#[trigger] self.devices()[j].slot_id == slot_id
                        && self.devices()[j].endpoint_id == endpoint_id),
                CompletionAction::TransferError { index } => index < self.devices().len()
                    && self.devices()[index as int].slot_id == slot_id && self.devices()[index as int].endpoint_id
                    == endpoint_id && !completion_succeeded(completion_code),
                CompletionAction::Deliver { index, kind, length } => index < self.devices().len()
                    && self.devices()[index as int].slot_id == slot_id && self.devices()[index as int].endpoint_id
                    == endpoint_id && completion_succeeded(completion_code) && kind == self.devices()[index as int].kind
                    && length == received_length(self.devices()[index as int].packet_size, residual),
            },
            !(r is UnknownEndpoint) <==> exists|j: int|
                0 <= j < self.devices().len() && #[trigger] self.devices()[j].slot_id == slot_id
                    && self.devices()[j].endpoint_id == endpoint_id,
    {
        match self.find_endpoint(slot_id, endpoint_id) {
            None => CompletionAction::UnknownEndpoint,
            Some(index) => {
                let device = self.devices[index];
                if !completion_ok(completion_code) {
                    CompletionAction::TransferError { index }
                } else {
                    CompletionAction::Deliver {
                        index,
                        kind: device.kind,
                        length: received_length_exec(device.packet_size, residual),
                    }
                }
            },
        }
    }
}

/// What a finished interrupt transfer asks for.
#[derive(Clone, Copy, Debug, PartialEq, Eq, Structural)]
pub enum CompletionAction {
    /// No armed endpoint matches: the completion is dropped.
    UnknownEndpoint,
    /// The transfer failed: the endpoint is not re-armed.
    TransferError { index: usize },
    /// Up to `length` report bytes go to the keyboard or mouse decoder,
    /// then the endpoint is re-armed.
    Deliver { index: usize, kind: HidDeviceKind, length: usize },
}

/// Whether a transfer completion code means the report arrived.
pub open spec fn completion_succeeded(code: u8) -> bool {
    code == XHCI_COMPLETION_SUCCESS || code == XHCI_COMPLETION_SHORT_PACKET
}

/// Whether a transfer completion code means the report arrived.
pub fn completion_ok(code: u8) -> (r: bool)
    ensures
        r == completion_succeeded(code),
{
    code == XHCI_COMPLETION_SUCCESS || code == XHCI_COMPLETION_SHORT_PACKET
}

/// The number of report bytes received into a `packet_size` buffer when
/// `residual` bytes were not transferred.
pub open spec fn received_length(packet_size: usize, residual: u32) -> usize {
    if residual >= packet_size {
        0
    } else {
        (packet_size - residual) as usize
    }
}

fn received_length_exec(packet_size: usize, residual: u32) -> (r: usize)
    ensures
        r == received_length(packet_size, residual),
        r <= packet_size,
{
    let residual = residual as usize;
    if residual >= packet_size {
        0
    } else {
        packet_size - residual
    }
}

// ============================================================
// Enumeration
// ============================================================

/// A request to the xHCI driver during enumeration of one slot.
#[derive(Clone, Copy, Debug, PartialEq, Eq, Structural)]
pub enum HidRequest {
    /// Address Device with this control-endpoint packet size.
    AddressDevice { max_packet_size: u16 },
    /// `GET_DESCRIPTOR` of this type into a buffer of `length` bytes.
    GetDescriptor { descriptor_type: u8, length: usize },
    /// Evaluate Context with the device's control-endpoint packet size.
    UpdateEp0 { max_packet_size: u16 },
    /// `SET_CONFIGURATION`.
    SetConfiguration { value: u8 },
    /// HID `SET_PROTOCOL` (boot) on an interface.
    SetProtocol { interface: u8 },
    /// HID `SET_IDLE` (zero) on an interface.
    SetIdle { interface: u8 },
    /// Configure Endpoint for an interrupt-IN endpoint.
    ConfigureEndpoint { address: u8, packet_size: u16, interval: u8 },
    /// Queue the first interrupt-IN transfer.
    SubmitInterruptIn { endpoint_id: u8 },
    /// Enumeration is over.
    Finish { success: bool },
}

/// Which request the enumeration waits on.
#[derive(Clone, Copy, Debug, PartialEq, Eq, Structural)]
pub enum HidStage {
    Addressing,
    ReadingDeviceHeader,
    UpdatingEp0,
    ReadingDeviceDescriptor,
    ReadingConfigurationHeader,
    ReadingConfiguration,
    SelectingConfiguration,
    SettingProtocol,
    SettingIdle,
    ConfiguringEndpoint,
    Arming,
    Finished,
}

/// The enumeration of one slot on a root port.
pub struct HidEnumeration {
    pub port: usize,
    pub slot_id: u8,
    pub speed: u8,
    pub initial_packet_size: u16,
    pub stage: HidStage,
    pub configuration_value: u8,
    pub endpoints: Vec<HidEndpointCandidate>,
    pub next_endpoint: usize,
    pub configured_count: usize,
}

/// The first endpoint at or after `i` on alternate setting zero, or the
/// number of endpoints.
pub open spec fn next_alternate_zero(endpoints: Seq<HidEndpointCandidate>, i: int) -> int
    decreases endpoints.len() - i,
{
    if i >= endpoints.len() {
        endpoints.len() as int
    } else if endpoints[i].alternate_setting == 0 {
        i
    } else {
        next_alternate_zero(endpoints, i + 1)
    }
}

/// The next endpoint on alternate setting zero is one, and none before it
/// is.
pub proof fn lemma_next_alternate_zero(endpoints: Seq<HidEndpointCandidate>, i: int)
    requires
        0 <= i <= endpoints.len(),
    ensures
        i <= next_alternate_zero(endpoints, i) <= endpoints.len(),
        next_alternate_zero(endpoints, i) < endpoints.len() ==> endpoints[next_alternate_zero(
            endpoints,
            i,
        )].alternate_setting == 0,
        forall|j: int| i <= j < next_alternate_zero(endpoints, i) ==> #[trigger] endpoints[j].alternate_setting != 0,
    decreases endpoints.len() - i,
{
    if i < endpoints.len() && endpoints[i].alternate_setting != 0 {
        lemma_next_alternate_zero(endpoints, i + 1);
    }
}

/// The request that goes with configuring endpoint `i`, or the end of
/// enumeration when no endpoint remains: a success when one was armed.
pub open spec fn endpoint_request(endpoints: Seq<HidEndpointCandidate>, i: int, configured: usize) -> HidRequest {
    if i >= endpoints.len() {
        HidRequest::Finish { success: configured != 0 }
    } else {
        HidRequest::SetProtocol { interface: endpoints[i].interface_number }
    }
}

impl HidEnumeration {
    /// Starts enumerating slot `slot_id` on `port` at `speed` when the
    /// controller runs and the port is connected: the first request
    /// addresses the device with the default packet size for the speed.
    pub fn start(running: bool, connected: bool, port: usize, slot_id: u8, speed: u8) -> (r: (Self, HidRequest))
        ensures
            r.0.port == port,
            r.0.slot_id == slot_id,
            r.0.speed == speed,
            r.0.endpoints@.len() == 0,
            r.0.configured_count == 0,
            !running || !connected || initial_packet_size_of(speed) is None ==> r.1 == (HidRequest::Finish {
                success: false,
            }) && r.0.stage == HidStage::Finished,
            running && connected && initial_packet_size_of(speed) is Some ==> r.1 == (HidRequest::AddressDevice {
                max_packet_size: initial_packet_size_of(speed)->Some_0,
            }) && r.0.stage == HidStage::Addressing && r.0.initial_packet_size == initial_packet_size_of(
                speed,
            )->Some_0,
    {
        let mut e = HidEnumeration {
            port,
            slot_id,
            speed,
            initial_packet_size: 0,
            stage: HidStage::Finished,
            configuration_value: 0,
            endpoints: Vec::new(),
            next_endpoint: 0,
            configured_count: 0,
        };
        if !running || !connected {
            return (e, HidRequest::Finish { success: false });
        }
        match initial_max_packet_size(speed) {
            None => (e, HidRequest::Finish { success: false }),
            Some(mps) => {
                e.initial_packet_size = mps;
                e.stage = HidStage::Addressing;
                (e, HidRequest::AddressDevice { max_packet_size: mps })
            },
        }
    }

    fn fail(&mut self) -> (r: HidRequest)
        ensures
            r == (HidRequest::Finish { success: false }),
            final(self).stage == HidStage::Finished,
            final(self).port == old(self).port,
            final(self).slot_id == old(self).slot_id,
            final(self).speed == old(self).speed,
            final(self).initial_packet_size == old(self).initial_packet_size,
            final(self).configuration_value == old(self).configuration_value,
            final(self).endpoints@ == old(self).endpoints@,
            final(self).next_endpoint == old(self).next_endpoint,
            final(self).configured_count == old(self).configured_count,
    {
        self.stage = HidStage::Finished;
        HidRequest::Finish { success: false }
    }

    /// Moves to the next endpoint on alternate setting zero from
    /// `next_endpoint` and asks for its `SET_PROTOCOL`, or ends.
    fn advance(&mut self) -> (r: HidRequest)
        requires
            old(self).next_endpoint <= old(self).endpoints@.len(),
        ensures
            final(self).next_endpoint == next_alternate_zero(old(self).endpoints@, old(self).next_endpoint as int),
            r == endpoint_request(old(self).endpoints@, final(self).next_endpoint as int, old(self).configured_count),
            final(self).stage == (if final(self).next_endpoint < old(self).endpoints@.len() {
                HidStage::SettingProtocol
            } else {
                HidStage::Finished
            }),
            final(self).port == old(self).port,
            final(self).slot_id == old(self).slot_id,
            final(self).speed == old(self).speed,
            final(self).initial_packet_size == old(self).initial_packet_size,
            final(self).configuration_value == old(self).configuration_value,
            final(self).endpoints@ == old(self).endpoints@,
            final(self).configured_count == old(self).configured_count,
            final(self).next_endpoint <= final(self).endpoints@.len(),
            old(self).next_endpoint <= final(self).next_endpoint,
    {
        let ghost start = self.next_endpoint as int;
        proof {
            lemma_next_alternate_zero(self.endpoints@, start);
        }
        while self.next_endpoint < self.endpoints.len()
            invariant
                start <= self.next_endpoint <= next_alternate_zero(self.endpoints@, start),
                next_alternate_zero(self.endpoints@, start) <= self.endpoints@.len(),
                next_alternate_zero(self.endpoints@, start) < self.endpoints@.len() ==> self.endpoints@[next_alternate_zero(
                    self.endpoints@,
                    start,
                )].alternate_setting == 0,
                forall|j: int|
                    start <= j < next_alternate_zero(self.endpoints@, start) ==> #[trigger] self.endpoints@[j].alternate_setting
                        != 0,
                self.port == old(self).port,
                self.slot_id == old(self).slot_id,
                self.speed == old(self).speed,
                self.initial_packet_size == old(self).initial_packet_size,
                self.configuration_value == old(self).configuration_value,
                self.endpoints@ == old(self).endpoints@,
                self.configured_count == old(self).configured_count,
                start == old(self).next_endpoint,
                self.stage == old(self).stage,
            decreases self.endpoints@.len() - self.next_endpoint,
        {
            if self.endpoints[self.next_endpoint].alternate_setting == 0 {
                let interface = self.endpoints[self.next_endpoint].interface_number;
                self.stage = HidStage::SettingProtocol;
                return HidRequest::SetProtocol { interface };
            }
            self.next_endpoint = self.next_endpoint + 1;
        }
        self.stage = HidStage::Finished;
        HidRequest::Finish { success: self.configured_count != 0 }
    }

    /// Takes the outcome of the last request and gives the next one.
    /// `ok` is whether the request succeeded; for a descriptor request,
    /// `data` is the buffer and `actual` the number of bytes received.  An
    /// endpoint whose first transfer is queued is added to `manager`.
    pub fn step(&mut self, manager: &mut HidManager, ok: bool, data: &[u8], actual: usize) -> (r: HidRequest)
        requires
            old(self).next_endpoint <= old(self).endpoints@.len(),
            old(self).configured_count <= old(self).next_endpoint,
        ensures
            final(self).next_endpoint <= final(self).endpoints@.len(),
            final(self).configured_count <= final(self).next_endpoint,
            final(self).port == old(self).port,
            final(self).slot_id == old(self).slot_id,
            final(self).speed == old(self).speed,
            final(self).initial_packet_size == old(self).initial_packet_size,
            old(self).stage != HidStage::ReadingConfigurationHeader ==> final(self).configuration_value == old(
                self,
            ).configuration_value,
            old(self).stage != HidStage::ReadingConfiguration ==> final(self).endpoints@ == old(self).endpoints@,
            old(self).stage != HidStage::ReadingConfiguration && !(old(self).stage == HidStage::Arming && ok && old(
                self,
            ).next_endpoint < old(self).endpoints@.len()) ==> final(self).configured_count == old(
                self,
            ).configured_count,
            old(self).stage != HidStage::ReadingConfiguration && old(self).stage != HidStage::SelectingConfiguration
                && !(old(self).stage == HidStage::Arming && ok && old(self).next_endpoint < old(self).endpoints@.len())
                ==> final(self).next_endpoint == old(self).next_endpoint,
            old(self).stage != HidStage::ReadingConfiguration ==> final(manager).devices().len() + old(
                self,
            ).configured_count == old(manager).devices().len() + final(self).configured_count,
            (r is Finish) <==> final(self).stage == HidStage::Finished,
            r == (HidRequest::Finish { success: true }) ==> final(self).configured_count > 0,
            old(self).stage == HidStage::Arming && ok && old(self).next_endpoint < old(self).endpoints@.len()
                ==> final(manager).devices() == old(manager).devices().push(
                HidEndpoint {
                    port: old(self).port,
                    slot_id: old(self).slot_id,
                    endpoint_id: endpoint_id_of(old(self).endpoints@[old(self).next_endpoint as int].address),
                    interface_number: old(self).endpoints@[old(self).next_endpoint as int].interface_number,
                    kind: old(self).endpoints@[old(self).next_endpoint as int].kind,
                    packet_size: old(self).endpoints@[old(self).next_endpoint as int].packet_size as usize,
                },
            ),
            !(old(self).stage == HidStage::Arming && ok && old(self).next_endpoint < old(self).endpoints@.len())
                ==> final(manager).devices() == old(manager).devices(),
            old(self).stage == HidStage::Finished ==> r == (HidRequest::Finish { success: false }),
            old(self).stage != HidStage::Finished && !ok ==> r == (HidRequest::Finish { success: false })
                && final(self).stage == HidStage::Finished,
            ok ==> match old(self).stage {
                HidStage::Addressing => r == (HidRequest::GetDescriptor { descriptor_type: USB_DESC_DEVICE, length: 8 })
                    && final(self).stage == HidStage::ReadingDeviceHeader,
                HidStage::ReadingDeviceHeader => if !device_header_ok(data@, actual) || ep0_packet_size_of(
                    old(self).speed,
                    data@[7],
                ) is None {
                    r == (HidRequest::Finish { success: false })
                } else if ep0_packet_size_of(old(self).speed, data@[7])->Some_0 != old(self).initial_packet_size {
                    r == (HidRequest::UpdateEp0 {
                        max_packet_size: ep0_packet_size_of(old(self).speed, data@[7])->Some_0,
                    }) && final(self).stage == HidStage::UpdatingEp0
                } else {
                    r == (HidRequest::GetDescriptor { descriptor_type: USB_DESC_DEVICE, length: 18 })
                        && final(self).stage == HidStage::ReadingDeviceDescriptor
                },
                HidStage::UpdatingEp0 => r == (HidRequest::GetDescriptor { descriptor_type: USB_DESC_DEVICE, length: 18 })
                    && final(self).stage == HidStage::ReadingDeviceDescriptor,
                HidStage::ReadingDeviceDescriptor => match device_descriptor_of(data@, actual) {
                    Some(info) => if info.configuration_count == 0 {
                        r == (HidRequest::Finish { success: false })
                    } else {
                        r == (HidRequest::GetDescriptor { descriptor_type: USB_DESC_CONFIGURATION, length: 9 })
                            && final(self).stage == HidStage::ReadingConfigurationHeader
                    },
                    None => r == (HidRequest::Finish { success: false }),
                },
                HidStage::ReadingConfigurationHeader => match configuration_header_of(data@, actual) {
                    Some((total, value)) => r == (HidRequest::GetDescriptor {
                        descriptor_type: USB_DESC_CONFIGURATION,
                        length: total,
                    }) && final(self).stage == HidStage::ReadingConfiguration && final(self).configuration_value
                        == value,
                    None => r == (HidRequest::Finish { success: false }),
                },
                HidStage::ReadingConfiguration => if actual < 9 {
                    r == (HidRequest::Finish { success: false })
                } else {
                    match hid_endpoints_of(data@, actual, old(self).speed) {
                        Some(found) => if found.len() == 0 {
                            r == (HidRequest::Finish { success: false })
                        } else {
                            r == (HidRequest::SetConfiguration { value: old(self).configuration_value })
                                && final(self).stage == HidStage::SelectingConfiguration && final(self).endpoints@
                                == found && final(self).next_endpoint == 0 && final(self).configured_count == 0
                        },
                        None => r == (HidRequest::Finish { success: false }),
                    }
                },
                HidStage::SelectingConfiguration => final(self).next_endpoint == next_alternate_zero(
                    old(self).endpoints@,
                    old(self).next_endpoint as int,
                ) && r == endpoint_request(
                    old(self).endpoints@,
                    final(self).next_endpoint as int,
                    old(self).configured_count,
                ),
                HidStage::SettingProtocol => if old(self).next_endpoint < old(self).endpoints@.len() {
                    r == (HidRequest::SetIdle {
                        interface: old(self).endpoints@[old(self).next_endpoint as int].interface_number,
                    }) && final(self).stage == HidStage::SettingIdle
                } else {
                    r == (HidRequest::Finish { success: false })
                },
                HidStage::SettingIdle => if old(self).next_endpoint < old(self).endpoints@.len() {
                    r == (HidRequest::ConfigureEndpoint {
                        address: old(self).endpoints@[old(self).next_endpoint as int].address,
                        packet_size: old(self).endpoints@[old(self).next_endpoint as int].packet_size,
                        interval: old(self).endpoints@[old(self).next_endpoint as int].interval,
                    }) && final(self).stage == HidStage::ConfiguringEndpoint
                } else {
                    r == (HidRequest::Finish { success: false })
                },
                HidStage::ConfiguringEndpoint => if old(self).next_endpoint < old(self).endpoints@.len() {
                    r == (HidRequest::SubmitInterruptIn {
                        endpoint_id: endpoint_id_of(old(self).endpoints@[old(self).next_endpoint as int].address),
                    }) && final(self).stage == HidStage::Arming
                } else {
                    r == (HidRequest::Finish { success: false })
                },
                HidStage::Arming => if old(self).next_endpoint < old(self).endpoints@.len() {
                    final(self).configured_count == old(self).configured_count + 1 && final(self).next_endpoint
                        == next_alternate_zero(old(self).endpoints@, old(self).next_endpoint + 1) && r
                        == endpoint_request(
                        old(self).endpoints@,
                        final(self).next_endpoint as int,
                        (old(self).configured_count + 1) as usize,
                    )
                } else {
                    r == (HidRequest::Finish { success: false })
                },
                HidStage::Finished => true,
            },
    {
        if self.stage == HidStage::Finished {
            return HidRequest::Finish { success: false };
        }
        if !ok {
            return self.fail();
        }
        match self.stage {
            HidStage::Addressing => {
                self.stage = HidStage::ReadingDeviceHeader;
                HidRequest::GetDescriptor { descriptor_type: USB_DESC_DEVICE, length: 8 }
            },
            HidStage::ReadingDeviceHeader => {
                if !device_header_valid(data, actual) {
                    return self.fail();
                }
                match ep0_max_packet_size(self.speed, data[7]) {
                    None => self.fail(),
                    Some(mps) => {
                        if mps != self.initial_packet_size {
                            self.stage = HidStage::UpdatingEp0;
                            HidRequest::UpdateEp0 { max_packet_size: mps }
                        } else {
                            self.stage = HidStage::ReadingDeviceDescriptor;
                            HidRequest::GetDescriptor { descriptor_type: USB_DESC_DEVICE, length: 18 }
                        }
                    },
                }
            },
            HidStage::UpdatingEp0 => {
                self.stage = HidStage::ReadingDeviceDescriptor;
                HidRequest::GetDescriptor { descriptor_type: USB_DESC_DEVICE, length: 18 }
            },
            HidStage::ReadingDeviceDescriptor => {
                match device_descriptor_info(data, actual) {
                    None => self.fail(),
                    Some(info) => {
                        if info.configuration_count == 0 {
                            return self.fail();
                        }
                        self.stage = HidStage::ReadingConfigurationHeader;
                        HidRequest::GetDescriptor { descriptor_type: USB_DESC_CONFIGURATION, length: 9 }
                    },
                }
            },
            HidStage::ReadingConfigurationHeader => {
                match configuration_header_info(data, actual) {
                    None => self.fail(),
                    Some((total, value)) => {
                        self.configuration_value = value;
                        self.stage = HidStage::ReadingConfiguration;
                        HidRequest::GetDescriptor { descriptor_type: USB_DESC_CONFIGURATION, length: total }
                    },
                }
            },
            HidStage::ReadingConfiguration => {
                if actual < 9 {
                    return self.fail();
                }
                match parse_hid_endpoints(data, actual, self.speed) {
                    None => self.fail(),
                    Some(found) => {
                        if found.len() == 0 {
                            return self.fail();
                        }
                        self.endpoints = found;
                        self.next_endpoint = 0;
                        self.configured_count = 0;
                        self.stage = HidStage::SelectingConfiguration;
                        HidRequest::SetConfiguration { value: self.configuration_value }
                    },
                }
            },
            HidStage::SelectingConfiguration => self.advance(),
            HidStage::SettingProtocol => {
                if self.next_endpoint >= self.endpoints.len() {
                    return self.fail();
                }
                let interface = self.endpoints[self.next_endpoint].interface_number;
                self.stage = HidStage::SettingIdle;
                HidRequest::SetIdle { interface }
            },
            HidStage::SettingIdle => {
                if self.next_endpoint >= self.endpoints.len() {
                    return self.fail();
                }
                let endpoint = self.endpoints[self.next_endpoint];
                self.stage = HidStage::ConfiguringEndpoint;
                HidRequest::ConfigureEndpoint {
                    address: endpoint.address,
                    packet_size: endpoint.packet_size,
                    interval: endpoint.interval,
                }
            },
            HidStage::ConfiguringEndpoint => {
                if self.next_endpoint >= self.endpoints.len() {
                    return self.fail();
                }
                let address = self.endpoints[self.next_endpoint].address;
                self.stage = HidStage::Arming;
                HidRequest::SubmitInterruptIn { endpoint_id: endpoint_id_from_address(address) }
            },
            HidStage::Arming => {
                if self.next_endpoint >= self.endpoints.len() {
                    return self.fail();
                }
                let endpoint = self.endpoints[self.next_endpoint];
                manager.register(
                    HidEndpoint {
                        port: self.port,
                        slot_id: self.slot_id,
                        endpoint_id: endpoint_id_from_address(endpoint.address),
                        interface_number: endpoint.interface_number,
                        kind: endpoint.kind,
                        packet_size: endpoint.packet_size as usize,
                    },
                );
                self.configured_count = self.configured_count + 1;
                self.next_endpoint = self.next_endpoint + 1;
                self.advance()
            },
            HidStage::Finished => HidRequest::Finish { success: false },
        }
    }
}

} // verus!
