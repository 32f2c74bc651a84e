//! HID boot-keyboard usages, modifier bytes and input events.

use vstd::prelude::*;

verus! {

/// A key of a USB HID keyboard, named by its usage ID (HID usage page 7).
#[derive(Clone, Copy, Debug, PartialEq, Eq, Structural)]
pub enum Key {
    A,
    B,
    C,
    D,
    E,
    F,
    G,
    H,
    I,
    J,
    K,
    L,
    M,
    N,
    O,
    P,
    Q,
    R,
    S,
    T,
    U,
    V,
    W,
    X,
    Y,
    Z,
    Num1,
    Num2,
    Num3,
    Num4,
    Num5,
    Num6,
    Num7,
    Num8,
    Num9,
    Num0,
    Enter,
    Escape,
    Backspace,
    Tab,
    Space,
    Minus,
    Equal,
    LeftBracket,
    RightBracket,
    Backslash,
    Semicolon,
    Apostrophe,
    Grave,
    Comma,
    Dot,
    Slash,
    CapsLock,
    F1,
    F2,
    F3,
    F4,
    F5,
    F6,
    F7,
    F8,
    F9,
    F10,
    F11,
    F12,
    PrintScreen,
    ScrollLock,
    Pause,
    Insert,
    Home,
    PageUp,
    Delete,
    End,
    PageDown,
    RightArrow,
    LeftArrow,
    DownArrow,
    UpArrow,
    NumLock,
    LeftControl,
    LeftShift,
    LeftAlt,
    LeftGui,
    RightControl,
    RightShift,
    RightAlt,
    RightGui,
    Unknown(u8),
}

/// The usage IDs that name a key of `Key` other than `Unknown`.
pub open spec fn is_known_usage(usage: u8) -> bool {
    (0x04 <= usage && usage <= 0x31) || (0x33 <= usage && usage <= 0x53) || (0xE0 <= usage
        && usage <= 0xE7)
}

impl Key {
    /// The usage ID of each key.
    pub open spec fn usage_id(self) -> u8 {
        match self {
            Key::A => 0x04,
            Key::B => 0x05,
            Key::C => 0x06,
            Key::D => 0x07,
            Key::E => 0x08,
            Key::F => 0x09,
            Key::G => 0x0A,
            Key::H => 0x0B,
            Key::I => 0x0C,
            Key::J => 0x0D,
            Key::K => 0x0E,
            Key::L => 0x0F,
            Key::M => 0x10,
            Key::N => 0x11,
            Key::O => 0x12,
            Key::P => 0x13,
            Key::Q => 0x14,
            Key::R => 0x15,
            Key::S => 0x16,
            Key::T => 0x17,
            Key::U => 0x18,
            Key::V => 0x19,
            Key::W => 0x1A,
            Key::X => 0x1B,
            Key::Y => 0x1C,
            Key::Z => 0x1D,
            Key::Num1 => 0x1E,
            Key::Num2 => 0x1F,
            Key::Num3 => 0x20,
            Key::Num4 => 0x21,
            Key::Num5 => 0x22,
            Key::Num6 => 0x23,
            Key::Num7 => 0x24,
            Key::Num8 => 0x25,
            Key::Num9 => 0x26,
            Key::Num0 => 0x27,
            Key::Enter => 0x28,
            Key::Escape => 0x29,
            Key::Backspace => 0x2A,
            Key::Tab => 0x2B,
            Key::Space => 0x2C,
            Key::Minus => 0x2D,
            Key::Equal => 0x2E,
            Key::LeftBracket => 0x2F,
            Key::RightBracket => 0x30,
            Key::Backslash => 0x31,
            Key::Semicolon => 0x33,
            Key::Apostrophe => 0x34,
            Key::Grave => 0x35,
            Key::Comma => 0x36,
            Key::Dot => 0x37,
            Key::Slash => 0x38,
            Key::CapsLock => 0x39,
            Key::F1 => 0x3A,
            Key::F2 => 0x3B,
            Key::F3 => 0x3C,
            Key::F4 => 0x3D,
            Key::F5 => 0x3E,
            Key::F6 => 0x3F,
            Key::F7 => 0x40,
            Key::F8 => 0x41,
            Key::F9 => 0x42,
            Key::F10 => 0x43,
            Key::F11 => 0x44,
            Key::F12 => 0x45,
            Key::PrintScreen => 0x46,
            Key::ScrollLock => 0x47,
            Key::Pause => 0x48,
            Key::Insert => 0x49,
            Key::Home => 0x4A,
            Key::PageUp => 0x4B,
            Key::Delete => 0x4C,
            Key::End => 0x4D,
            Key::PageDown => 0x4E,
            Key::RightArrow => 0x4F,
            Key::LeftArrow => 0x50,
            Key::DownArrow => 0x51,
            Key::UpArrow => 0x52,
            Key::NumLock => 0x53,
            Key::LeftControl => 0xE0,
            Key::LeftShift => 0xE1,
            Key::LeftAlt => 0xE2,
            Key::LeftGui => 0xE3,
            Key::RightControl => 0xE4,
            Key::RightShift => 0xE5,
            Key::RightAlt => 0xE6,
            Key::RightGui => 0xE7,
            Key::Unknown(usage) => usage,
        }
    }

    /// A key is in canonical form unless it is `Unknown` with a usage that
    /// names another key.
    pub open spec fn is_canonical(self) -> bool {
        match self {
            Key::Unknown(usage) => !is_known_usage(usage),
            _ => true,
        }
    }

    /// The HID usage ID of the key.
    pub fn usage(self) -> (r: u8)
        ensures
            r == self.usage_id(),
    {
        match self {
            Key::A => 0x04,
            Key::B => 0x05,
            Key::C => 0x06,
            Key::D => 0x07,
            Key::E => 0x08,
            Key::F => 0x09,
            Key::G => 0x0A,
            Key::H => 0x0B,
            Key::I => 0x0C,
            Key::J => 0x0D,
            Key::K => 0x0E,
            Key::L => 0x0F,
            Key::M => 0x10,
            Key::N => 0x11,
            Key::O => 0x12,
            Key::P => 0x13,
            Key::Q => 0x14,
            Key::R => 0x15,
            Key::S => 0x16,
            Key::T => 0x17,
            Key::U => 0x18,
            Key::V => 0x19,
            Key::W => 0x1A,
            Key::X => 0x1B,
            Key::Y => 0x1C,
            Key::Z => 0x1D,
            Key::Num1 => 0x1E,
            Key::Num2 => 0x1F,
            Key::Num3 => 0x20,
            Key::Num4 => 0x21,
            Key::Num5 => 0x22,
            Key::Num6 => 0x23,
            Key::Num7 => 0x24,
            Key::Num8 => 0x25,
            Key::Num9 => 0x26,
            Key::Num0 => 0x27,
            Key::Enter => 0x28,
            Key::Escape => 0x29,
            Key::Backspace => 0x2A,
            Key::Tab => 0x2B,
            Key::Space => 0x2C,
            Key::Minus => 0x2D,
            Key::Equal => 0x2E,
            Key::LeftBracket => 0x2F,
            Key::RightBracket => 0x30,
            Key::Backslash => 0x31,
            Key::Semicolon => 0x33,
            Key::Apostrophe => 0x34,
            Key::Grave => 0x35,
            Key::Comma => 0x36,
            Key::Dot => 0x37,
            Key::Slash => 0x38,
            Key::CapsLock => 0x39,
            Key::F1 => 0x3A,
            Key::F2 => 0x3B,
            Key::F3 => 0x3C,
            Key::F4 => 0x3D,
            Key::F5 => 0x3E,
            Key::F6 => 0x3F,
            Key::F7 => 0x40,
            Key::F8 => 0x41,
            Key::F9 => 0x42,
            Key::F10 => 0x43,
            Key::F11 => 0x44,
            Key::F12 => 0x45,
            Key::PrintScreen => 0x46,
            Key::ScrollLock => 0x47,
            Key::Pause => 0x48,
            Key::Insert => 0x49,
            Key::Home => 0x4A,
            Key::PageUp => 0x4B,
            Key::Delete => 0x4C,
            Key::End => 0x4D,
            Key::PageDown => 0x4E,
            Key::RightArrow => 0x4F,
            Key::LeftArrow => 0x50,
            Key::DownArrow => 0x51,
            Key::UpArrow => 0x52,
            Key::NumLock => 0x53,
            Key::LeftControl => 0xE0,
            Key::LeftShift => 0xE1,
            Key::LeftAlt => 0xE2,
            Key::LeftGui => 0xE3,
            Key::RightControl => 0xE4,
            Key::RightShift => 0xE5,
            Key::RightAlt => 0xE6,
            Key::RightGui => 0xE7,
            Key::Unknown(usage) => usage,
        }
    }

    /// Every named key has a known usage, and two keys in canonical form
    /// with the same usage are the same key.
    pub proof fn lemma_usage_injective(a: Key, b: Key)
        ensures
            a !is Unknown ==> is_known_usage(a.usage_id()),
            (a.is_canonical() && b.is_canonical() && a.usage_id() == b.usage_id()) ==> a == b,
    {
    }
}

/// The state of the eight modifier keys of a boot keyboard report.
#[derive(Clone, Copy, Debug, PartialEq, Eq, Structural)]
pub struct Modifiers {
    pub left_ctrl: bool,
    pub left_shift: bool,
    pub left_alt: bool,
    pub left_gui: bool,
    pub right_ctrl: bool,
    pub right_shift: bool,
    pub right_alt: bool,
    pub right_gui: bool,
}

/// The modifier state that a report's modifier byte describes: bit 0 is
/// left control up to bit 7 right GUI.
pub open spec fn modifiers_of_byte(value: u8) -> Modifiers {
    Modifiers {
        left_ctrl: value & 0x01 != 0,
        left_shift: value & 0x02 != 0,
        left_alt: value & 0x04 != 0,
        left_gui: value & 0x08 != 0,
        right_ctrl: value & 0x10 != 0,
        right_shift: value & 0x20 != 0,
        right_alt: value & 0x40 != 0,
        right_gui: value & 0x80 != 0,
    }
}

/// The modifier byte that describes a modifier state.
pub open spec fn byte_of_modifiers(m: Modifiers) -> u8 {
    (if m.left_ctrl { 0x01u8 } else { 0u8 }) | (if m.left_shift { 0x02u8 } else { 0u8 }) | (
    if m.left_alt { 0x04u8 } else { 0u8 }) | (if m.left_gui { 0x08u8 } else { 0u8 }) | (
    if m.right_ctrl { 0x10u8 } else { 0u8 }) | (if m.right_shift { 0x20u8 } else { 0u8 }) | (
    if m.right_alt { 0x40u8 } else { 0u8 }) | (if m.right_gui { 0x80u8 } else { 0u8 })
}

impl Modifiers {
    /// No modifier pressed.
    pub fn empty() -> (r: Self)
        ensures
            r == modifiers_of_byte(0),
    {
        proof {
            let z = 0u8;
            assert(z & 0x01 == 0 && z & 0x02 == 0 && z & 0x04 == 0 && z & 0x08 == 0 && z & 0x10 == 0
                && z & 0x20 == 0 && z & 0x40 == 0 && z & 0x80 == 0) by (bit_vector)
                requires
                    z == 0,
            ;
        }
        Modifiers {
            left_ctrl: false,
            left_shift: false,
            left_alt: false,
            left_gui: false,
            right_ctrl: false,
            right_shift: false,
            right_alt: false,
            right_gui: false,
        }
    }

    /// Decodes a report's modifier byte.
    pub fn from_byte(value: u8) -> (r: Self)
        ensures
            r == modifiers_of_byte(value),
    {
        Modifiers {
            left_ctrl: value & 0x01 != 0,
            left_shift: value & 0x02 != 0,
            left_alt: value & 0x04 != 0,
            left_gui: value & 0x08 != 0,
            right_ctrl: value & 0x10 != 0,
            right_shift: value & 0x20 != 0,
            right_alt: value & 0x40 != 0,
            right_gui: value & 0x80 != 0,
        }
    }

    /// Encodes the modifier state as a report's modifier byte.
    pub fn bits(self) -> (r: u8)
        ensures
            r == byte_of_modifiers(self),
    {
        (if self.left_ctrl { 0x01u8 } else { 0u8 }) | (if self.left_shift { 0x02u8 } else { 0u8 }) | (
        if self.left_alt { 0x04u8 } else { 0u8 }) | (if self.left_gui { 0x08u8 } else { 0u8 }) | (
        if self.right_ctrl { 0x10u8 } else { 0u8 }) | (if self.right_shift { 0x20u8 } else { 0u8 }) | (
        if self.right_alt { 0x40u8 } else { 0u8 }) | (if self.right_gui { 0x80u8 } else { 0u8 })
    }

    /// Encoding and decoding the modifier byte are inverse to each other.
    pub proof fn lemma_bits_round_trip(value: u8, m: Modifiers)
        ensures
            byte_of_modifiers(modifiers_of_byte(value)) == value,
            modifiers_of_byte(byte_of_modifiers(m)) == m,
    {
        let (a, b, c, d, e, f, g, h) = (
            m.left_ctrl,
            m.left_shift,
            m.left_alt,
            m.left_gui,
            m.right_ctrl,
            m.right_shift,
            m.right_alt,
            m.right_gui,
        );
        assert(((if value & 0x01 != 0 { 0x01u8 } else { 0u8 }) | (if value & 0x02 != 0 { 0x02u8 } else { 0u8 }) | (
        if value & 0x04 != 0 { 0x04u8 } else { 0u8 }) | (if value & 0x08 != 0 { 0x08u8 } else { 0u8 }) | (
        if value & 0x10 != 0 { 0x10u8 } else { 0u8 }) | (if value & 0x20 != 0 { 0x20u8 } else { 0u8 }) | (
        if value & 0x40 != 0 { 0x40u8 } else { 0u8 }) | (if value & 0x80 != 0 { 0x80u8 } else { 0u8 })) == value)
            by (bit_vector);
        let x: u8 = (if a { 0x01u8 } else { 0u8 }) | (if b { 0x02u8 } else { 0u8 }) | (if c { 0x04u8 } else { 0u8 })
            | (if d { 0x08u8 } else { 0u8 }) | (if e { 0x10u8 } else { 0u8 }) | (if f { 0x20u8 } else { 0u8 })
            | (if g { 0x40u8 } else { 0u8 }) | (if h { 0x80u8 } else { 0u8 });
        assert((x & 0x01 != 0) == a && (x & 0x02 != 0) == b && (x & 0x04 != 0) == c && (x & 0x08 != 0) == d
            && (x & 0x10 != 0) == e && (x & 0x20 != 0) == f && (x & 0x40 != 0) == g && (x & 0x80 != 0) == h)
            by (bit_vector)
            requires
                x == (if a { 0x01u8 } else { 0u8 }) | (if b { 0x02u8 } else { 0u8 }) | (if c { 0x04u8 } else { 0u8 })
                    | (if d { 0x08u8 } else { 0u8 }) | (if e { 0x10u8 } else { 0u8 }) | (if f { 0x20u8 } else { 0u8 })
                    | (if g { 0x40u8 } else { 0u8 }) | (if h { 0x80u8 } else { 0u8 }),
        ;
    }
}

/// The five buttons of a boot mouse.
#[derive(Clone, Copy, Debug, PartialEq, Eq, Structural)]
pub enum MouseButton {
    Left,
    Right,
    Middle,
    Button4,
    Button5,
}

/// An input event of a boot keyboard or mouse.
#[derive(Clone, Copy, Debug, PartialEq, Eq, Structural)]
pub enum InputEvent {
    KeyDown { key: Key, modifiers: Modifiers },
    KeyUp { key: Key, modifiers: Modifiers },
    MouseMove { x: i8, y: i8 },
    MouseButtonDown(MouseButton),
    MouseButtonUp(MouseButton),
    MouseWheel { delta: i8 },
}

} // verus!
