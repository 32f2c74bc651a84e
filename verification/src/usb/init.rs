//! Bringing the USB stack up: the controller checks, the root-port
//! readiness decisions of the enumeration path, and whether the stack came
//! up.

use vstd::prelude::*;
use crate::serial::LogPiece;

verus! {

/// The USB stack's initialisation state.
#[derive(Clone, Copy, Debug)]
pub struct UsbStatus {
    pub initialized: bool,
}

impl UsbStatus {
    /// Before initialisation.
    pub fn new() -> (r: Self)
        ensures
            !r.initialized,
    {
        UsbStatus { initialized: false }
    }
}

/// Whether the USB stack is initialised.
pub fn is_initialized(status: &UsbStatus) -> (r: bool)
    ensures
        r == status.initialized,
{
    status.initialized
}

/// Whether input servicing should poll the USB stack: only once it is
/// initialised.
pub fn service_usb(status: &UsbStatus) -> (r: bool)
    ensures
        r == status.initialized,
{
    status.initialized
}


// ============================================================
// Controller checks
// ============================================================

/// Why BAR0 cannot be used, if it cannot: it must be non-zero, of
/// non-zero size, 16-byte aligned, and end within the address space.
pub open spec fn bar0_problem(bar0: usize, size: usize) -> Option<&'static str> {
    if bar0 == 0 {
        Some("Rusty: xHCI BAR0 is zero")
    } else if size == 0 {
        Some("Rusty: xHCI BAR0 size is zero")
    } else if bar0 % 16 != 0 {
        Some("Rusty: xHCI BAR0 is not 16-byte aligned")
    } else if bar0 + size > usize::MAX {
        Some("Rusty: xHCI BAR0 range overflows usize")
    } else {
        None
    }
}

/// Checks BAR0 before its registers are mapped.
pub fn check_bar0(bar0: usize, size: usize) -> (r: Result<(), &'static str>)
    ensures
        r == (match bar0_problem(bar0, size) {
            Some(message) => Err(message),
            None => Ok(()),
        }),
{
    if bar0 == 0 {
        return Err("Rusty: xHCI BAR0 is zero");
    }
    if size == 0 {
        return Err("Rusty: xHCI BAR0 size is zero");
    }
    if bar0 % 16 != 0 {
        return Err("Rusty: xHCI BAR0 is not 16-byte aligned");
    }
    if bar0.checked_add(size).is_none() {
        return Err("Rusty: xHCI BAR0 range overflows usize");
    }
    Ok(())
}

/// Why the controller is not running after it was started, if it is not:
/// USBCMD.RUN must be set, and USBSTS.HCH and USBSTS.CNR clear.
pub open spec fn start_problem(usbcmd: u32, usbsts: u32) -> Option<&'static str> {
    if usbcmd % 2 == 0 {
        Some("Rusty: xHCI RUN bit is not set after start")
    } else if usbsts % 2 != 0 {
        Some("Rusty: xHCI HCH bit is still set after start")
    } else if (usbsts / 2048) % 2 != 0 {
        Some("Rusty: xHCI CNR is still set after start")
    } else {
        None
    }
}

/// Checks USBCMD and USBSTS after the controller was started.
pub fn check_started(usbcmd: u32, usbsts: u32) -> (r: Result<(), &'static str>)
    ensures
        r == (match start_problem(usbcmd, usbsts) {
            Some(message) => Err(message),
            None => Ok(()),
        }),
{
    if usbcmd % 2 == 0 {
        return Err("Rusty: xHCI RUN bit is not set after start");
    }
    if usbsts % 2 != 0 {
        return Err("Rusty: xHCI HCH bit is still set after start");
    }
    if (usbsts / 2048) % 2 != 0 {
        return Err("Rusty: xHCI CNR is still set after start");
    }
    Ok(())
}

// ============================================================
// Root-port readiness
// ============================================================

/// Link state U0.
pub const PLS_U0: u8 = 0;

/// Link state Inactive.
pub const PLS_INACTIVE: u8 = 6;

/// Link state Compliance.
pub const PLS_COMPLIANCE: u8 = 10;

/// How long a USB2 port may take to become ready, in microseconds.
pub const USB2_PORT_READY_TIMEOUT_US: u64 = 1_000_000;

/// How long a USB3 port may take to become ready, in microseconds.
pub const USB3_PORT_READY_TIMEOUT_US: u64 = 2_000_000;

/// Pause between two looks at a port, in microseconds.
pub const PORT_POLL_INTERVAL_US: u64 = 1_000;

/// The PORTSC fields that readiness depends on.
pub struct PortState {
    pub connected: bool,
    pub enabled: bool,
    pub resetting: bool,
    pub link_state: u8,
    pub cold_attach: bool,
}

/// PORTSC read field by field: CCS (bit 0), PED (bit 1), PR (bit 4), PLS
/// (bits 5 to 8) and CAS (bit 24).
pub open spec fn port_state_of(portsc: u32) -> PortState {
    PortState {
        connected: portsc % 2 != 0,
        enabled: (portsc / 2) % 2 != 0,
        resetting: (portsc / 16) % 2 != 0,
        link_state: ((portsc / 32) % 16) as u8,
        cold_attach: (portsc / 0x100_0000) % 2 != 0,
    }
}

/// PORTSC read field by field.
pub fn port_state(portsc: u32) -> (r: PortState)
    ensures
        r == port_state_of(portsc),
{
    PortState {
        connected: portsc % 2 != 0,
        enabled: (portsc / 2) % 2 != 0,
        resetting: (portsc / 16) % 2 != 0,
        link_state: ((portsc / 32) % 16) as u8,
        cold_attach: (portsc / 0x100_0000) % 2 != 0,
    }
}

/// When a wait that starts at `start_us` gives up: `timeout_us` later,
/// held at the largest time.
pub fn port_wait_deadline(start_us: u64, timeout_us: u64) -> (r: u64)
    ensures
        r == (if start_us + timeout_us > u64::MAX {
            u64::MAX
        } else {
            (start_us + timeout_us) as u64
        }),
{
    start_us.saturating_add(timeout_us)
}

/// How a wait for a USB2 port begins.
#[derive(Clone, Copy, Debug, PartialEq, Eq, Structural)]
pub enum Usb2WaitStart {
    /// Not a USB2 port, or nothing is connected: the port is not ready.
    GiveUp,
    /// Ask the driver for a port reset, then wait.
    ResetThenWait,
    /// A reset is under way or the port is enabled: wait.
    Wait,
}

/// How a wait for a USB2 port begins: only a connected USB2 port is waited
/// for, and a reset is requested only when none is pending, the port is
/// disabled and not resetting.
pub open spec fn usb2_wait_start_of(is_usb2: bool, initial: u32, reset_pending: bool) -> Usb2WaitStart {
    let state = port_state_of(initial);
    if !is_usb2 || !state.connected {
        Usb2WaitStart::GiveUp
    } else if !reset_pending && !state.enabled && !state.resetting {
        Usb2WaitStart::ResetThenWait
    } else {
        Usb2WaitStart::Wait
    }
}

/// How a wait for a USB2 port begins.
pub fn usb2_wait_start(is_usb2: bool, initial: u32, reset_pending: bool) -> (r: Usb2WaitStart)
    ensures
        r == usb2_wait_start_of(is_usb2, initial, reset_pending),
{
    let state = port_state(initial);
    if !is_usb2 || !state.connected {
        Usb2WaitStart::GiveUp
    } else if !reset_pending && !state.enabled && !state.resetting {
        Usb2WaitStart::ResetThenWait
    } else {
        Usb2WaitStart::Wait
    }
}

/// What one look at a USB2 port during the wait decides.
#[derive(Clone, Copy, Debug, PartialEq, Eq, Structural)]
pub enum Usb2WaitStep {
    /// The device went away: not ready.
    Disconnected,
    /// Enabled, out of reset and in U0: ready.
    Ready,
    /// The deadline passed: not ready.
    TimedOut,
    /// Pause, let the driver work, and look again.
    Poll,
}

/// What one look at a USB2 port decides, from PORTSC, whether the
/// driver's reset is still pending, the time and the deadline.
pub open spec fn usb2_wait_step_of(portsc: u32, reset_pending: bool, now_us: u64, deadline_us: u64) -> Usb2WaitStep {
    let state = port_state_of(portsc);
    if !state.connected {
        Usb2WaitStep::Disconnected
    } else if !reset_pending && state.enabled && !state.resetting && state.link_state == PLS_U0 {
        Usb2WaitStep::Ready
    } else if now_us >= deadline_us {
        Usb2WaitStep::TimedOut
    } else {
        Usb2WaitStep::Poll
    }
}

/// What one look at a USB2 port during the wait decides.
pub fn usb2_wait_step(portsc: u32, reset_pending: bool, now_us: u64, deadline_us: u64) -> (r: Usb2WaitStep)
    ensures
        r == usb2_wait_step_of(portsc, reset_pending, now_us, deadline_us),
{
    let state = port_state(portsc);
    if !state.connected {
        Usb2WaitStep::Disconnected
    } else if !reset_pending && state.enabled && !state.resetting && state.link_state == PLS_U0 {
        Usb2WaitStep::Ready
    } else if now_us >= deadline_us {
        Usb2WaitStep::TimedOut
    } else {
        Usb2WaitStep::Poll
    }
}

/// What one look at a USB3 port during the wait decides.
#[derive(Clone, Copy, Debug, PartialEq, Eq, Structural)]
pub enum Usb3WaitStep {
    /// Disconnected with no warm reset pending: not ready.
    Gone,
    /// Connected, enabled and in U0 with no warm reset pending: ready.
    Ready,
    /// In a recovery state (cold attach, Inactive or Compliance) with no
    /// warm reset pending: ask the driver for one and look again at once.
    WarmReset,
    /// The deadline passed: not ready.
    TimedOut,
    /// Pause, let the driver work, and look again.
    Poll,
}

/// What one look at a USB3 port decides, from PORTSC, whether a warm
/// reset is pending, the time and the deadline.
pub open spec fn usb3_wait_step_of(portsc: u32, warm_pending: bool, now_us: u64, deadline_us: u64) -> Usb3WaitStep {
    let state = port_state_of(portsc);
    if !state.connected && !warm_pending {
        Usb3WaitStep::Gone
    } else if state.connected && state.enabled && state.link_state == PLS_U0 && !warm_pending {
        Usb3WaitStep::Ready
    } else if (state.cold_attach || state.link_state == PLS_INACTIVE || state.link_state == PLS_COMPLIANCE)
        && !warm_pending {
        Usb3WaitStep::WarmReset
    } else if now_us >= deadline_us {
        Usb3WaitStep::TimedOut
    } else {
        Usb3WaitStep::Poll
    }
}

/// What one look at a USB3 port during the wait decides.
pub fn usb3_wait_step(portsc: u32, warm_pending: bool, now_us: u64, deadline_us: u64) -> (r: Usb3WaitStep)
    ensures
        r == usb3_wait_step_of(portsc, warm_pending, now_us, deadline_us),
{
    let state = port_state(portsc);
    if !state.connected && !warm_pending {
        Usb3WaitStep::Gone
    } else if state.connected && state.enabled && state.link_state == PLS_U0 && !warm_pending {
        Usb3WaitStep::Ready
    } else if (state.cold_attach || state.link_state == PLS_INACTIVE || state.link_state == PLS_COMPLIANCE)
        && !warm_pending {
        Usb3WaitStep::WarmReset
    } else if now_us >= deadline_us {
        Usb3WaitStep::TimedOut
    } else {
        Usb3WaitStep::Poll
    }
}

/// The log line of a root port found ready.
pub open spec fn port_ready_log(usb3: bool, port: usize, speed: u8, portsc: u32) -> Seq<LogPiece> {
    seq![
        LogPiece::Text(
            if usb3 {
                "USB: USB3 root port ready on port "
            } else {
                "USB: USB2 root port ready on port "
            },
        ),
        LogPiece::Usize(port),
        LogPiece::Text(" speed=0x"),
        LogPiece::Hex(speed as u64),
        LogPiece::Text(" PORTSC=0x"),
        LogPiece::Hex(portsc as u64),
        LogPiece::Text("\n"),
    ]
}

/// Logs a root port found ready.
pub fn port_ready_message(usb3: bool, port: usize, speed: u8, portsc: u32) -> (r: Vec<LogPiece>)
    ensures
        r@ == port_ready_log(usb3, port, speed, portsc),
{
    let mut pieces: Vec<LogPiece> = Vec::new();
    if usb3 {
        pieces.push(LogPiece::Text("USB: USB3 root port ready on port "));
    } else {
        pieces.push(LogPiece::Text("USB: USB2 root port ready on port "));
    }
    pieces.push(LogPiece::Usize(port));
    pieces.push(LogPiece::Text(" speed=0x"));
    pieces.push(LogPiece::Hex(speed as u64));
    pieces.push(LogPiece::Text(" PORTSC=0x"));
    pieces.push(LogPiece::Hex(portsc as u64));
    pieces.push(LogPiece::Text("\n"));
    proof {
        assert(pieces@ =~= port_ready_log(usb3, port, speed, portsc));
    }
    pieces
}

/// The log line of a wait that timed out, with the pending flag (the
/// driver's reset for USB2, the warm reset for USB3).
pub open spec fn port_timeout_log(usb3: bool, port: usize, portsc: u32, pending: bool) -> Seq<LogPiece> {
    seq![
        LogPiece::Text(
            if usb3 {
                "USB: timed out waiting for USB3 root port readiness port "
            } else {
                "USB: timed out waiting for USB2 root port readiness port "
            },
        ),
        LogPiece::Usize(port),
        LogPiece::Text(" PORTSC=0x"),
        LogPiece::Hex(portsc as u64),
        LogPiece::Text(
            if usb3 {
                " warm_pending="
            } else {
                " pending="
            },
        ),
        LogPiece::Usize(if pending { 1usize } else { 0usize }),
        LogPiece::Text("\n"),
    ]
}

/// Logs a wait that timed out.
pub fn port_timeout_message(usb3: bool, port: usize, portsc: u32, pending: bool) -> (r: Vec<LogPiece>)
    ensures
        r@ == port_timeout_log(usb3, port, portsc, pending),
{
    let mut pieces: Vec<LogPiece> = Vec::new();
    if usb3 {
        pieces.push(LogPiece::Text("USB: timed out waiting for USB3 root port readiness port "));
    } else {
        pieces.push(LogPiece::Text("USB: timed out waiting for USB2 root port readiness port "));
    }
    pieces.push(LogPiece::Usize(port));
    pieces.push(LogPiece::Text(" PORTSC=0x"));
    pieces.push(LogPiece::Hex(portsc as u64));
    if usb3 {
        pieces.push(LogPiece::Text(" warm_pending="));
    } else {
        pieces.push(LogPiece::Text(" pending="));
    }
    pieces.push(
        LogPiece::Usize(
            if pending {
                1usize
            } else {
                0usize
            },
        ),
    );
    pieces.push(LogPiece::Text("\n"));
    proof {
        assert(pieces@ =~= port_timeout_log(usb3, port, portsc, pending));
    }
    pieces
}

/// The root ports in the order enumeration tries them: every USB2 port,
/// then every USB3 port, each with whether it is a USB3 port.
pub open spec fn enumeration_order_of(usb2_ports: Seq<u8>, usb3_ports: Seq<u8>) -> Seq<(usize, bool)> {
    Seq::new(usb2_ports.len(), |i: int| (usb2_ports[i] as usize, false)) + Seq::new(
        usb3_ports.len(),
        |i: int| (usb3_ports[i] as usize, true),
    )
}

/// The root ports in the order enumeration tries them: USB2 first, as the
/// boot HID path is best tested there.
pub fn enumeration_order(usb2_ports: &[u8], usb3_ports: &[u8]) -> (r: Vec<(usize, bool)>)
    ensures
        r@ == enumeration_order_of(usb2_ports@, usb3_ports@),
{
    let mut order: Vec<(usize, bool)> = Vec::new();
    let mut i: usize = 0;
    while i < usb2_ports.len()
        invariant
            i <= usb2_ports@.len(),
            order@ == Seq::new(i as nat, |k: int| (usb2_ports@[k] as usize, false)),
        decreases usb2_ports@.len() - i,
    {
        order.push((usb2_ports[i] as usize, false));
        proof {
            assert(order@ =~= Seq::new((i + 1) as nat, |k: int| (usb2_ports@[k] as usize, false)));
        }
        i = i + 1;
    }
    let ghost first = order@;
    let mut j: usize = 0;
    while j < usb3_ports.len()
        invariant
            j <= usb3_ports@.len(),
            first == Seq::new(usb2_ports@.len(), |k: int| (usb2_ports@[k] as usize, false)),
            order@ == first + Seq::new(j as nat, |k: int| (usb3_ports@[k] as usize, true)),
        decreases usb3_ports@.len() - j,
    {
        order.push((usb3_ports[j] as usize, true));
        proof {
            assert(order@ =~= first + Seq::new((j + 1) as nat, |k: int| (usb3_ports@[k] as usize, true)));
        }
        j = j + 1;
    }
    proof {
        assert(order@ =~= enumeration_order_of(usb2_ports@, usb3_ports@));
    }
    order
}

} // verus!
