//! The boot-protocol mouse announcement.

use vstd::prelude::*;
use crate::serial::LogPiece;

verus! {

/// Interface class of HID devices.
pub const USB_HID_CLASS: u8 = 0x03;

/// Interface subclass of boot-protocol devices.
pub const USB_HID_BOOT_SUBCLASS: u8 = 0x01;

/// Interface protocol of boot mice.
pub const USB_HID_MOUSE_PROTOCOL: u8 = 0x02;

/// The serial lines announcing a HID mouse on `interface`.
pub fn announce(interface: u8) -> (r: Vec<LogPiece>)
    ensures
        r@ == seq![
            LogPiece::Text("USB: =============================\n"),
            LogPiece::Text("USB: HID MOUSE DETECTED\n"),
            LogPiece::Text("USB: interface="),
            LogPiece::Hex(interface as u64),
            LogPiece::Text("\n"),
            LogPiece::Text("USB: =============================\n"),
        ],
{
    let mut pieces: Vec<LogPiece> = Vec::new();
    pieces.push(LogPiece::Text("USB: =============================\n"));
    pieces.push(LogPiece::Text("USB: HID MOUSE DETECTED\n"));
    pieces.push(LogPiece::Text("USB: interface="));
    pieces.push(LogPiece::Hex(interface as u64));
    pieces.push(LogPiece::Text("\n"));
    pieces.push(LogPiece::Text("USB: =============================\n"));
    proof {
        assert(pieces@ =~= seq![
            LogPiece::Text("USB: =============================\n"),
            LogPiece::Text("USB: HID MOUSE DETECTED\n"),
            LogPiece::Text("USB: interface="),
            LogPiece::Hex(interface as u64),
            LogPiece::Text("\n"),
            LogPiece::Text("USB: =============================\n"),
        ]);
    }
    pieces
}

} // verus!
