//! Boot-protocol keyboard reports turned into key-down and key-up events.

use vstd::prelude::*;

use super::types::{is_known_usage, modifiers_of_byte, Key, Modifiers};

verus! {

/// A change of one key of a boot keyboard.
#[derive(Clone, Copy, Debug, PartialEq, Eq, Structural)]
pub enum KeyboardEvent {
    KeyDown { key: Key, modifiers: Modifiers },
    KeyUp { key: Key, modifiers: Modifiers },
}

/// What the previous report held: the six key usages and the modifier byte.
pub struct KeyboardState {
    previous_keys: [u8; 6],
    previous_modifiers: u8,
}

impl KeyboardState {
    /// The six key usages of the previous report.
    pub closed spec fn keys(&self) -> Seq<u8> {
        self.previous_keys@
    }

    /// The modifier byte of the previous report.
    pub closed spec fn modifier_byte(&self) -> u8 {
        self.previous_modifiers
    }

    /// A state in which no key and no modifier is held.
    pub fn new() -> (r: Self)
        ensures
            r.keys() == seq![0u8, 0u8, 0u8, 0u8, 0u8, 0u8],
            r.modifier_byte() == 0,
    {
        KeyboardState { previous_keys: [0u8; 6], previous_modifiers: 0 }
    }
}

/// The key in canonical form that a usage names.
pub open spec fn key_of_usage(usage: u8) -> Key {
    choose|k: Key| k.usage_id() == usage && k.is_canonical()
}

/// The modifier key of each bit of the modifier byte.
pub open spec fn modifier_key(bit: u8) -> Key {
    if bit == 0 {
        Key::LeftControl
    } else if bit == 1 {
        Key::LeftShift
    } else if bit == 2 {
        Key::LeftAlt
    } else if bit == 3 {
        Key::LeftGui
    } else if bit == 4 {
        Key::RightControl
    } else if bit == 5 {
        Key::RightShift
    } else if bit == 6 {
        Key::RightAlt
    } else {
        Key::RightGui
    }
}

/// Whether bit `bit` of `value` is set.
pub open spec fn bit_set(value: u8, bit: u8) -> bool {
    value & (1u8 << bit) != 0
}

/// The events of the first `n` modifier bits whose state differs between
/// the previous and the current modifier byte, lowest bit first.
pub open spec fn modifier_events(previous: u8, current: u8, n: u8) -> Seq<KeyboardEvent>
    decreases n,
{
    if n == 0 {
        seq![]
    } else {
        let bit = (n - 1) as u8;
        let rest = modifier_events(previous, current, bit);
        if bit_set(previous, bit) == bit_set(current, bit) {
            rest
        } else if bit_set(current, bit) {
            rest.push(KeyboardEvent::KeyDown { key: modifier_key(bit), modifiers: modifiers_of_byte(current) })
        } else {
            rest.push(KeyboardEvent::KeyUp { key: modifier_key(bit), modifiers: modifiers_of_byte(current) })
        }
    }
}

/// For the first `n` usages of `keys`: one event for each non-zero usage
/// that `others` lacks, a key-down when `down` and a key-up otherwise.
pub open spec fn key_events(keys: Seq<u8>, others: Seq<u8>, modifiers: Modifiers, down: bool, n: nat) -> Seq<
    KeyboardEvent,
>
    decreases n,
{
    if n == 0 {
        seq![]
    } else {
        let rest = key_events(keys, others, modifiers, down, (n - 1) as nat);
        let usage = keys[n - 1];
        if usage == 0 || others.contains(usage) {
            rest
        } else if down {
            rest.push(KeyboardEvent::KeyDown { key: key_of_usage(usage), modifiers })
        } else {
            rest.push(KeyboardEvent::KeyUp { key: key_of_usage(usage), modifiers })
        }
    }
}

/// The events of one report: modifier changes, then keys newly pressed in
/// report order, then keys released in the previous report's order.
pub open spec fn report_events(previous_keys: Seq<u8>, previous_modifiers: u8, report: Seq<u8>) -> Seq<
    KeyboardEvent,
> {
    let current = report.subrange(2, 8);
    let modifiers = modifiers_of_byte(report[0]);
    modifier_events(previous_modifiers, report[0], 8) + key_events(current, previous_keys, modifiers, true, 6)
        + key_events(previous_keys, current, modifiers, false, 6)
}

/// The key that a usage names.
pub fn usage_to_key(usage: u8) -> (r: Key)
    ensures
        r.usage_id() == usage,
        r.is_canonical(),
        r == key_of_usage(usage),
{
    let r = match usage {
        0x04 => Key::A,
        0x05 => Key::B,
        0x06 => Key::C,
        0x07 => Key::D,
        0x08 => Key::E,
        0x09 => Key::F,
        0x0A => Key::G,
        0x0B => Key::H,
        0x0C => Key::I,
        0x0D => Key::J,
        0x0E => Key::K,
        0x0F => Key::L,
        0x10 => Key::M,
        0x11 => Key::N,
        0x12 => Key::O,
        0x13 => Key::P,
        0x14 => Key::Q,
        0x15 => Key::R,
        0x16 => Key::S,
        0x17 => Key::T,
        0x18 => Key::U,
        0x19 => Key::V,
        0x1A => Key::W,
        0x1B => Key::X,
        0x1C => Key::Y,
        0x1D => Key::Z,
        0x1E => Key::Num1,
        0x1F => Key::Num2,
        0x20 => Key::Num3,
        0x21 => Key::Num4,
        0x22 => Key::Num5,
        0x23 => Key::Num6,
        0x24 => Key::Num7,
        0x25 => Key::Num8,
        0x26 => Key::Num9,
        0x27 => Key::Num0,
        0x28 => Key::Enter,
        0x29 => Key::Escape,
        0x2A => Key::Backspace,
        0x2B => Key::Tab,
        0x2C => Key::Space,
        0x2D => Key::Minus,
        0x2E => Key::Equal,
        0x2F => Key::LeftBracket,
        0x30 => Key::RightBracket,
        0x31 => Key::Backslash,
        0x33 => Key::Semicolon,
        0x34 => Key::Apostrophe,
        0x35 => Key::Grave,
        0x36 => Key::Comma,
        0x37 => Key::Dot,
        0x38 => Key::Slash,
        0x39 => Key::CapsLock,
        0x3A => Key::F1,
        0x3B => Key::F2,
        0x3C => Key::F3,
        0x3D => Key::F4,
        0x3E => Key::F5,
        0x3F => Key::F6,
        0x40 => Key::F7,
        0x41 => Key::F8,
        0x42 => Key::F9,
        0x43 => Key::F10,
        0x44 => Key::F11,
        0x45 => Key::F12,
        0x46 => Key::PrintScreen,
        0x47 => Key::ScrollLock,
        0x48 => Key::Pause,
        0x49 => Key::Insert,
        0x4A => Key::Home,
        0x4B => Key::PageUp,
        0x4C => Key::Delete,
        0x4D => Key::End,
        0x4E => Key::PageDown,
        0x4F => Key::RightArrow,
        0x50 => Key::LeftArrow,
        0x51 => Key::DownArrow,
        0x52 => Key::UpArrow,
        0x53 => Key::NumLock,
        0xE0 => Key::LeftControl,
        0xE1 => Key::LeftShift,
        0xE2 => Key::LeftAlt,
        0xE3 => Key::LeftGui,
        0xE4 => Key::RightControl,
        0xE5 => Key::RightShift,
        0xE6 => Key::RightAlt,
        0xE7 => Key::RightGui,
        _ => Key::Unknown(usage),
    };
    proof {
        let k = key_of_usage(usage);
        assert(r.usage_id() == usage && r.is_canonical());
        Key::lemma_usage_injective(k, r);
    }
    r
}

/// Whether `value` is one of the six usages.
fn contains(keys: &[u8; 6], value: u8) -> (r: bool)
    ensures
        r == keys@.contains(value),
{
    let mut i: usize = 0;
    while i < 6
        invariant
            0 <= i <= 6,
            keys@.len() == 6,
            forall|j: int| 0 <= j < i ==> keys@[j] != value,
        decreases 6 - i,
    {
        if keys[i] == value {
            proof {
                assert(keys@[i as int] == value);
            }
            return true;
        }
        i = i + 1;
    }
    false
}

/// Compares one boot keyboard report with the previous one and returns the
/// resulting events; the report then becomes the previous one.  A report
/// shorter than eight bytes gives no event and changes nothing.
pub fn parse_report(report: &[u8], state: &mut KeyboardState) -> (events: Vec<KeyboardEvent>)
    ensures
        report@.len() < 8 ==> events@ == Seq::<KeyboardEvent>::empty() && final(state).keys() == old(state).keys() && final(state).modifier_byte() == old(state).modifier_byte(),
        report@.len() >= 8 ==> events@ == report_events(old(state).keys(), old(state).modifier_byte(), report@)
            && final(state).keys() == report@.subrange(2, 8) && final(state).modifier_byte() == report@[0],
{
    let mut events: Vec<KeyboardEvent> = Vec::new();
    if report.len() < 8 {
        return events;
    }
    let modifiers = report[0];
    let current_keys: [u8; 6] = [report[2], report[3], report[4], report[5], report[6], report[7]];
    proof {
        assert(current_keys@ =~= report@.subrange(2, 8));
    }
    let previous_modifiers = state.previous_modifiers;
    let modifier_state = Modifiers::from_byte(modifiers);

    let mut bit: u8 = 0;
    while bit < 8
        invariant
            0 <= bit <= 8,
            events@ == modifier_events(previous_modifiers, modifiers, bit),
            modifier_state == modifiers_of_byte(modifiers),
        decreases 8 - bit,
    {
        let mask = 1u8 << bit;
        let was_pressed = previous_modifiers & mask != 0;
        let is_pressed = modifiers & mask != 0;
        if was_pressed != is_pressed {
            let key = if bit == 0 {
                Key::LeftControl
            } else if bit == 1 {
                Key::LeftShift
            } else if bit == 2 {
                Key::LeftAlt
            } else if bit == 3 {
                Key::LeftGui
            } else if bit == 4 {
                Key::RightControl
            } else if bit == 5 {
                Key::RightShift
            } else if bit == 6 {
                Key::RightAlt
            } else {
                Key::RightGui
            };
            if is_pressed {
                events.push(KeyboardEvent::KeyDown { key, modifiers: modifier_state });
            } else {
                events.push(KeyboardEvent::KeyUp { key, modifiers: modifier_state });
            }
        }
        bit = bit + 1;
    }

    let ghost head = events@;
    let mut i: usize = 0;
    while i < 6
        invariant
            0 <= i <= 6,
            current_keys@.len() == 6,
            state.previous_keys@.len() == 6,
            events@ == head + key_events(current_keys@, state.previous_keys@, modifier_state, true, i as nat),
        decreases 6 - i,
    {
        let usage = current_keys[i];
        if usage != 0 && !contains(&state.previous_keys, usage) {
            events.push(KeyboardEvent::KeyDown { key: usage_to_key(usage), modifiers: modifier_state });
        }
        proof {
            assert(current_keys@[i as int] == usage);
        }
        i = i + 1;
    }

    let ghost middle = events@;
    let mut i: usize = 0;
    while i < 6
        invariant
            0 <= i <= 6,
            current_keys@.len() == 6,
            state.previous_keys@.len() == 6,
            events@ == middle + key_events(state.previous_keys@, current_keys@, modifier_state, false, i as nat),
        decreases 6 - i,
    {
        let usage = state.previous_keys[i];
        if usage != 0 && !contains(&current_keys, usage) {
            events.push(KeyboardEvent::KeyUp { key: usage_to_key(usage), modifiers: modifier_state });
        }
        i = i + 1;
    }
    proof {
        assert(events@ =~= report_events(state.previous_keys@, previous_modifiers, report@));
    }
    state.previous_keys = current_keys;
    state.previous_modifiers = modifiers;
    events
}

} // verus!
