//! The kernel's keyboard and mouse input state: report processing, the
//! bounded event queues and the translation of keys to characters.

pub mod key;
pub mod keyboard;
pub mod mouse;
pub mod types;

use std::collections::VecDeque;

use vstd::prelude::*;

pub use key::Key;

verus! {

/// The modifier and lock state that accompanies key events.
#[derive(Clone, Copy, Debug, PartialEq, Eq, Structural)]
pub struct Modifiers {
    pub shift: bool,
    pub ctrl: bool,
    pub alt: bool,
    pub logo: bool,
    pub caps_lock: bool,
    pub num_lock: bool,
    pub scroll_lock: bool,
    pub left_shift: bool,
    pub right_shift: bool,
}

impl Modifiers {
    /// Nothing held and every lock off.
    pub open spec fn released() -> Modifiers {
        Modifiers {
            shift: false,
            ctrl: false,
            alt: false,
            logo: false,
            caps_lock: false,
            num_lock: false,
            scroll_lock: false,
            left_shift: false,
            right_shift: false,
        }
    }
}

/// The five buttons of a boot mouse.
#[derive(Clone, Copy, Debug, PartialEq, Eq, Structural)]
pub enum MouseButton {
    Left,
    Right,
    Middle,
    Button4,
    Button5,
}

/// An event of the keyboard or the mouse.  A movement carries the new
/// absolute cursor position.
#[derive(Clone, Copy, Debug, PartialEq, Eq, Structural)]
pub enum InputEvent {
    KeyDown { key: Key, modifiers: Modifiers },
    KeyUp { key: Key, modifiers: Modifiers },
    MouseMove { x: i32, y: i32 },
    MouseButtonDown(MouseButton),
    MouseButtonUp(MouseButton),
    MouseWheel { delta: i16 },
}

/// The most events that each queue keeps; the oldest event is dropped to
/// make room for a new one.
pub const EVENT_QUEUE_LIMIT: usize = 256;

/// The input subsystem's state: both event queues, the last keyboard report,
/// the mouse buttons and cursor, the modifiers and which devices reported.
pub struct InputState {
    keyboard_events: VecDeque<InputEvent>,
    mouse_events: VecDeque<InputEvent>,
    keyboard_state: [u8; 8],
    mouse_buttons: u8,
    mouse_position: (i32, i32),
    modifiers: Modifiers,
    keyboard_present: bool,
    mouse_present: bool,
}

impl InputState {
    pub closed spec fn keyboard_queue(&self) -> Seq<InputEvent> {
        self.keyboard_events@
    }

    pub closed spec fn mouse_queue(&self) -> Seq<InputEvent> {
        self.mouse_events@
    }

    /// The eight bytes of the last keyboard report (byte 1 always zero).
    pub closed spec fn last_report(&self) -> Seq<u8> {
        self.keyboard_state@
    }

    pub closed spec fn buttons(&self) -> u8 {
        self.mouse_buttons
    }

    pub closed spec fn position(&self) -> (i32, i32) {
        self.mouse_position
    }

    pub closed spec fn current_modifiers(&self) -> Modifiers {
        self.modifiers
    }

    pub closed spec fn keyboard_seen(&self) -> bool {
        self.keyboard_present
    }

    pub closed spec fn mouse_seen(&self) -> bool {
        self.mouse_present
    }

    /// An empty input state with the cursor at the origin.
    pub fn new() -> (r: Self)
        ensures
            r.keyboard_queue() == Seq::<InputEvent>::empty(),
            r.mouse_queue() == Seq::<InputEvent>::empty(),
            r.last_report() == Seq::new(8, |i: int| 0u8),
            r.buttons() == 0,
            r.position() == (0i32, 0i32),
            r.current_modifiers() == Modifiers::released(),
            !r.keyboard_seen(),
            !r.mouse_seen(),
    {
        let r = InputState {
            keyboard_events: VecDeque::new(),
            mouse_events: VecDeque::new(),
            keyboard_state: [0u8; 8],
            mouse_buttons: 0,
            mouse_position: (0, 0),
            modifiers: Modifiers {
                shift: false,
                ctrl: false,
                alt: false,
                logo: false,
                caps_lock: false,
                num_lock: false,
                scroll_lock: false,
                left_shift: false,
                right_shift: false,
            },
            keyboard_present: false,
            mouse_present: false,
        };
        proof {
            assert(r.keyboard_state@ =~= Seq::new(8, |i: int| 0u8));
        }
        r
    }
}

// ============================================================
// Bounded queues
// ============================================================

/// The queue after appending one event, dropping the oldest event when the
/// queue already holds the limit.
pub open spec fn push_bounded(queue: Seq<InputEvent>, event: InputEvent) -> Seq<InputEvent> {
    if queue.len() >= EVENT_QUEUE_LIMIT {
        queue.subrange(1, queue.len() as int).push(event)
    } else {
        queue.push(event)
    }
}

/// The queue after appending the events in order.
pub open spec fn push_all(queue: Seq<InputEvent>, events: Seq<InputEvent>) -> Seq<InputEvent>
    decreases events.len(),
{
    if events.len() == 0 {
        queue
    } else {
        push_bounded(push_all(queue, events.drop_last()), events.last())
    }
}

/// A queue within the limit stays within it, whatever is appended.
pub proof fn lemma_push_all_bounded(queue: Seq<InputEvent>, events: Seq<InputEvent>)
    requires
        queue.len() <= EVENT_QUEUE_LIMIT,
    ensures
        push_all(queue, events).len() <= EVENT_QUEUE_LIMIT,
    decreases events.len(),
{
    if events.len() > 0 {
        lemma_push_all_bounded(queue, events.drop_last());
    }
}

/// A bounded push keeps the queue in first-in, first-out order: the queue
/// within the limit gets the event at its end, its oldest event dropped
/// when it was full, and stays within the limit.
pub proof fn lemma_push_bounded_fifo(queue: Seq<InputEvent>, event: InputEvent)
    requires
        queue.len() <= EVENT_QUEUE_LIMIT,
    ensures
        push_bounded(queue, event) == (if queue.len() >= EVENT_QUEUE_LIMIT {
            queue.drop_first()
        } else {
            queue
        }).push(event),
        push_bounded(queue, event).len() <= EVENT_QUEUE_LIMIT,
        push_bounded(queue, event).last() == event,
{
    if queue.len() >= EVENT_QUEUE_LIMIT {
        assert(queue.subrange(1, queue.len() as int) =~= queue.drop_first());
    }
}

fn push_event(queue: &mut VecDeque<InputEvent>, event: InputEvent)
    ensures
        final(queue)@ == push_bounded(old(queue)@, event),
{
    if queue.len() >= EVENT_QUEUE_LIMIT {
        let _ = queue.pop_front();
    }
    queue.push_back(event);
}

/// Appends a keyboard event, dropping the oldest one when the queue is full.
pub fn push_keyboard_event(state: &mut InputState, event: InputEvent)
    ensures
        final(state).keyboard_queue() == push_bounded(old(state).keyboard_queue(), event),
        final(state).mouse_queue() == old(state).mouse_queue(),
        final(state).last_report() == old(state).last_report(),
        final(state).buttons() == old(state).buttons(),
        final(state).position() == old(state).position(),
        final(state).current_modifiers() == old(state).current_modifiers(),
        final(state).keyboard_seen() == old(state).keyboard_seen(),
        final(state).mouse_seen() == old(state).mouse_seen(),
{
    push_event(&mut state.keyboard_events, event);
}

/// Appends a mouse event, dropping the oldest one when the queue is full.
pub fn push_mouse_event(state: &mut InputState, event: InputEvent)
    ensures
        final(state).mouse_queue() == push_bounded(old(state).mouse_queue(), event),
        final(state).keyboard_queue() == old(state).keyboard_queue(),
        final(state).last_report() == old(state).last_report(),
        final(state).buttons() == old(state).buttons(),
        final(state).position() == old(state).position(),
        final(state).current_modifiers() == old(state).current_modifiers(),
        final(state).keyboard_seen() == old(state).keyboard_seen(),
        final(state).mouse_seen() == old(state).mouse_seen(),
{
    push_event(&mut state.mouse_events, event);
}

// ============================================================
// Initialization and presence
// ============================================================

/// The cursor coordinate halfway across a screen dimension.
pub open spec fn centre(size: usize) -> i32 {
    ((if size >= 1 { size - 1 } else { 0 }) / 2) as i32
}

/// Empties both queues, forgets the last reports, centres the cursor on a
/// screen of the given size and marks both devices absent.
pub fn reset_input_state(state: &mut InputState, screen_width: usize, screen_height: usize)
    ensures
        final(state).keyboard_queue() == Seq::<InputEvent>::empty(),
        final(state).mouse_queue() == Seq::<InputEvent>::empty(),
        final(state).last_report() == Seq::new(8, |i: int| 0u8),
        final(state).buttons() == 0,
        final(state).position() == (centre(screen_width), centre(screen_height)),
        final(state).current_modifiers() == Modifiers::released(),
        !final(state).keyboard_seen(),
        !final(state).mouse_seen(),
{
    state.keyboard_events.clear();
    state.mouse_events.clear();
    state.keyboard_state = [0u8; 8];
    state.mouse_buttons = 0;
    let cursor_x = (screen_width.saturating_sub(1) / 2) as i32;
    let cursor_y = (screen_height.saturating_sub(1) / 2) as i32;
    state.mouse_position = (cursor_x, cursor_y);
    state.modifiers = Modifiers {
        shift: false,
        ctrl: false,
        alt: false,
        logo: false,
        caps_lock: false,
        num_lock: false,
        scroll_lock: false,
        left_shift: false,
        right_shift: false,
    };
    state.keyboard_present = false;
    state.mouse_present = false;
    proof {
        assert(state.keyboard_state@ =~= Seq::new(8, |i: int| 0u8));
    }
}

/// Resets the input state for a screen of the given size.
pub fn init(state: &mut InputState, screen_width: usize, screen_height: usize)
    ensures
        final(state).keyboard_queue() == Seq::<InputEvent>::empty(),
        final(state).mouse_queue() == Seq::<InputEvent>::empty(),
        final(state).last_report() == Seq::new(8, |i: int| 0u8),
        final(state).buttons() == 0,
        final(state).position() == (centre(screen_width), centre(screen_height)),
        final(state).current_modifiers() == Modifiers::released(),
        !final(state).keyboard_seen(),
        !final(state).mouse_seen(),
{
    reset_input_state(state, screen_width, screen_height);
}

/// Records whether a keyboard is present.
pub fn set_keyboard_present(state: &mut InputState, present: bool)
    ensures
        final(state).keyboard_seen() == present,
        final(state).mouse_seen() == old(state).mouse_seen(),
        final(state).keyboard_queue() == old(state).keyboard_queue(),
        final(state).mouse_queue() == old(state).mouse_queue(),
        final(state).last_report() == old(state).last_report(),
        final(state).buttons() == old(state).buttons(),
        final(state).position() == old(state).position(),
        final(state).current_modifiers() == old(state).current_modifiers(),
{
    state.keyboard_present = present;
}

/// Records whether a mouse is present.
pub fn set_mouse_present(state: &mut InputState, present: bool)
    ensures
        final(state).mouse_seen() == present,
        final(state).keyboard_seen() == old(state).keyboard_seen(),
        final(state).keyboard_queue() == old(state).keyboard_queue(),
        final(state).mouse_queue() == old(state).mouse_queue(),
        final(state).last_report() == old(state).last_report(),
        final(state).buttons() == old(state).buttons(),
        final(state).position() == old(state).position(),
        final(state).current_modifiers() == old(state).current_modifiers(),
{
    state.mouse_present = present;
}

/// Whether a keyboard has been seen.
pub fn has_keyboard(state: &InputState) -> (r: bool)
    ensures
        r == state.keyboard_seen(),
{
    state.keyboard_present
}

/// Whether a mouse has been seen.
pub fn has_mouse(state: &InputState) -> (r: bool)
    ensures
        r == state.mouse_seen(),
{
    state.mouse_present
}

// ============================================================
// Event queues
// ============================================================

/// Takes the oldest keyboard event, if any.
pub fn poll_keyboard_event(state: &mut InputState) -> (r: Option<InputEvent>)
    ensures
        old(state).keyboard_queue().len() == 0 ==> r is None && final(state).keyboard_queue() == old(state).keyboard_queue(),
        old(state).keyboard_queue().len() > 0 ==> r == Some(old(state).keyboard_queue()[0])
            && final(state).keyboard_queue() == old(state).keyboard_queue().subrange(
            1,
            old(state).keyboard_queue().len() as int,
        ),
        final(state).mouse_queue() == old(state).mouse_queue(),
        final(state).last_report() == old(state).last_report(),
        final(state).buttons() == old(state).buttons(),
        final(state).position() == old(state).position(),
        final(state).current_modifiers() == old(state).current_modifiers(),
        final(state).keyboard_seen() == old(state).keyboard_seen(),
        final(state).mouse_seen() == old(state).mouse_seen(),
{
    state.keyboard_events.pop_front()
}

/// Takes the oldest mouse event, if any.
pub fn poll_mouse_event(state: &mut InputState) -> (r: Option<InputEvent>)
    ensures
        old(state).mouse_queue().len() == 0 ==> r is None && final(state).mouse_queue() == old(state).mouse_queue(),
        old(state).mouse_queue().len() > 0 ==> r == Some(old(state).mouse_queue()[0]) && final(state).mouse_queue() == old(state).mouse_queue().subrange(1, old(state).mouse_queue().len() as int),
        final(state).keyboard_queue() == old(state).keyboard_queue(),
        final(state).last_report() == old(state).last_report(),
        final(state).buttons() == old(state).buttons(),
        final(state).position() == old(state).position(),
        final(state).current_modifiers() == old(state).current_modifiers(),
        final(state).keyboard_seen() == old(state).keyboard_seen(),
        final(state).mouse_seen() == old(state).mouse_seen(),
{
    state.mouse_events.pop_front()
}

/// Takes the oldest keyboard event and, when it is a key press, returns the
/// key it produces; any other event gives `None`.
pub fn read_key(state: &mut InputState) -> (r: Option<Key>)
    ensures
        old(state).keyboard_queue().len() == 0 ==> r is None && final(state).keyboard_queue() == old(state).keyboard_queue(),
        old(state).keyboard_queue().len() > 0 ==> final(state).keyboard_queue() == old(state).keyboard_queue().subrange(1, old(state).keyboard_queue().len() as int) && r == (match old(state).keyboard_queue()[0] {
            InputEvent::KeyDown { key, modifiers } => Some(character_of(key, modifiers)),
            _ => None,
        }),
        final(state).mouse_queue() == old(state).mouse_queue(),
{
    let event = poll_keyboard_event(state);
    match event {
        Some(InputEvent::KeyDown { key, modifiers }) => key_to_character(key, modifiers),
        _ => None,
    }
}

// ============================================================
// Keyboard reports
// ============================================================

/// Whether `usage` occurs in `report`.
fn contains_usage(report: &[u8], usage: u8) -> (r: bool)
    ensures
        r == report@.contains(usage),
{
    let mut i: usize = 0;
    while i < report.len()
        invariant
            0 <= i <= report@.len(),
            forall|j: int| 0 <= j < i ==> report@[j] != usage,
        decreases report@.len() - i,
    {
        if report[i] == usage {
            proof {
                assert(report@[i as int] == usage);
            }
            return true;
        }
        i = i + 1;
    }
    false
}

/// The key that a keyboard usage names, for the keys the console knows.
pub open spec fn key_of_usage(usage: u8) -> Option<Key> {
    match usage {
        0x04 => Some(Key::A),
        0x05 => Some(Key::B),
        0x06 => Some(Key::C),
        0x07 => Some(Key::D),
        0x08 => Some(Key::E),
        0x09 => Some(Key::F),
        0x0A => Some(Key::G),
        0x0B => Some(Key::H),
        0x0C => Some(Key::I),
        0x0D => Some(Key::J),
        0x0E => Some(Key::K),
        0x0F => Some(Key::L),
        0x10 => Some(Key::M),
        0x11 => Some(Key::N),
        0x12 => Some(Key::O),
        0x13 => Some(Key::P),
        0x14 => Some(Key::Q),
        0x15 => Some(Key::R),
        0x16 => Some(Key::S),
        0x17 => Some(Key::T),
        0x18 => Some(Key::U),
        0x19 => Some(Key::V),
        0x1A => Some(Key::W),
        0x1B => Some(Key::X),
        0x1C => Some(Key::Y),
        0x1D => Some(Key::Z),
        0x1E => Some(Key::Num1),
        0x1F => Some(Key::Num2),
        0x20 => Some(Key::Num3),
        0x21 => Some(Key::Num4),
        0x22 => Some(Key::Num5),
        0x23 => Some(Key::Num6),
        0x24 => Some(Key::Num7),
        0x25 => Some(Key::Num8),
        0x26 => Some(Key::Num9),
        0x27 => Some(Key::Num0),
        0x28 => Some(Key::Enter),
        0x29 => Some(Key::Escape),
        0x2A => Some(Key::Backspace),
        0x2B => Some(Key::Tab),
        0x2C => Some(Key::Space),
        0x2D => Some(Key::Minus),
        0x2E => Some(Key::Equal),
        0x2F => Some(Key::LeftBracket),
        0x30 => Some(Key::RightBracket),
        0x31 => Some(Key::Backslash),
        0x33 => Some(Key::Semicolon),
        0x34 => Some(Key::Apostrophe),
        0x35 => Some(Key::Grave),
        0x36 => Some(Key::Comma),
        0x37 => Some(Key::Dot),
        0x38 => Some(Key::Slash),
        0x4F => Some(Key::Right),
        0x50 => Some(Key::Left),
        0x51 => Some(Key::Down),
        0x52 => Some(Key::Up),
        _ => None,
    }
}

/// The console key that stands for a key of the HID usage table, if the
/// console has one: the same key under the console's name.
pub open spec fn console_key(key: types::Key) -> Option<Key> {
    match key {
        types::Key::A => Some(Key::A),
        types::Key::B => Some(Key::B),
        types::Key::C => Some(Key::C),
        types::Key::D => Some(Key::D),
        types::Key::E => Some(Key::E),
        types::Key::F => Some(Key::F),
        types::Key::G => Some(Key::G),
        types::Key::H => Some(Key::H),
        types::Key::I => Some(Key::I),
        types::Key::J => Some(Key::J),
        types::Key::K => Some(Key::K),
        types::Key::L => Some(Key::L),
        types::Key::M => Some(Key::M),
        types::Key::N => Some(Key::N),
        types::Key::O => Some(Key::O),
        types::Key::P => Some(Key::P),
        types::Key::Q => Some(Key::Q),
        types::Key::R => Some(Key::R),
        types::Key::S => Some(Key::S),
        types::Key::T => Some(Key::T),
        types::Key::U => Some(Key::U),
        types::Key::V => Some(Key::V),
        types::Key::W => Some(Key::W),
        types::Key::X => Some(Key::X),
        types::Key::Y => Some(Key::Y),
        types::Key::Z => Some(Key::Z),
        types::Key::Num0 => Some(Key::Num0),
        types::Key::Num1 => Some(Key::Num1),
        types::Key::Num2 => Some(Key::Num2),
        types::Key::Num3 => Some(Key::Num3),
        types::Key::Num4 => Some(Key::Num4),
        types::Key::Num5 => Some(Key::Num5),
        types::Key::Num6 => Some(Key::Num6),
        types::Key::Num7 => Some(Key::Num7),
        types::Key::Num8 => Some(Key::Num8),
        types::Key::Num9 => Some(Key::Num9),
        types::Key::Enter => Some(Key::Enter),
        types::Key::Escape => Some(Key::Escape),
        types::Key::Backspace => Some(Key::Backspace),
        types::Key::Tab => Some(Key::Tab),
        types::Key::Space => Some(Key::Space),
        types::Key::Minus => Some(Key::Minus),
        types::Key::Equal => Some(Key::Equal),
        types::Key::LeftBracket => Some(Key::LeftBracket),
        types::Key::RightBracket => Some(Key::RightBracket),
        types::Key::Backslash => Some(Key::Backslash),
        types::Key::Semicolon => Some(Key::Semicolon),
        types::Key::Apostrophe => Some(Key::Apostrophe),
        types::Key::Grave => Some(Key::Grave),
        types::Key::Comma => Some(Key::Comma),
        types::Key::Dot => Some(Key::Dot),
        types::Key::Slash => Some(Key::Slash),
        types::Key::RightArrow => Some(Key::Right),
        types::Key::LeftArrow => Some(Key::Left),
        types::Key::DownArrow => Some(Key::Down),
        types::Key::UpArrow => Some(Key::Up),
        _ => None,
    }
}

/// The console's key map agrees with the HID usage table: the usage ID
/// that the table gives any key names that key's console key (and names
/// none when the console has no such key).  Every usage is the ID of
/// exactly one key in canonical form, so this fixes the map on every
/// usage.
pub proof fn lemma_key_of_usage_follows_usage_table(key: types::Key)
    requires
        key.is_canonical(),
    ensures
        key_of_usage(key.usage_id()) == console_key(key),
{
}

/// Every usage is the usage ID of a key in canonical form: a named key,
/// or `Unknown` of a usage that names none.
pub proof fn lemma_every_usage_has_a_key(usage: u8)
    ensures
        exists|key: types::Key| #[trigger] key.usage_id() == usage && key.is_canonical(),
{
    if !types::is_known_usage(usage) {
        assert(types::Key::Unknown(usage).usage_id() == usage);
    } else {
        let key = choose_named_key(usage);
        assert(key.usage_id() == usage);
    }
}

/// The named key with a known usage ID.
proof fn choose_named_key(usage: u8) -> (key: types::Key)
    requires
        types::is_known_usage(usage),
    ensures
        key.usage_id() == usage,
        key !is Unknown,
{
    let all = seq![types::Key::A, types::Key::B, types::Key::C, types::Key::D, types::Key::E, types::Key::F, types::Key::G, types::Key::H, types::Key::I, types::Key::J, types::Key::K, types::Key::L, types::Key::M, types::Key::N, types::Key::O, types::Key::P, types::Key::Q, types::Key::R, types::Key::S, types::Key::T, types::Key::U, types::Key::V, types::Key::W, types::Key::X, types::Key::Y, types::Key::Z, types::Key::Num1, types::Key::Num2, types::Key::Num3, types::Key::Num4, types::Key::Num5, types::Key::Num6, types::Key::Num7, types::Key::Num8, types::Key::Num9, types::Key::Num0, types::Key::Enter, types::Key::Escape, types::Key::Backspace, types::Key::Tab, types::Key::Space, types::Key::Minus, types::Key::Equal, types::Key::LeftBracket, types::Key::RightBracket, types::Key::Backslash, types::Key::Semicolon, types::Key::Apostrophe, types::Key::Grave, types::Key::Comma, types::Key::Dot, types::Key::Slash, types::Key::CapsLock, types::Key::F1, types::Key::F2, types::Key::F3, types::Key::F4, types::Key::F5, types::Key::F6, types::Key::F7, types::Key::F8, types::Key::F9, types::Key::F10, types::Key::F11, types::Key::F12, types::Key::PrintScreen, types::Key::ScrollLock, types::Key::Pause, types::Key::Insert, types::Key::Home, types::Key::PageUp, types::Key::Delete, types::Key::End, types::Key::PageDown, types::Key::RightArrow, types::Key::LeftArrow, types::Key::DownArrow, types::Key::UpArrow, types::Key::NumLock, types::Key::LeftControl, types::Key::LeftShift, types::Key::LeftAlt, types::Key::LeftGui, types::Key::RightControl, types::Key::RightShift, types::Key::RightAlt, types::Key::RightGui];
    assert forall|i: int| 0 <= i < all.len() implies (#[trigger] all[i]).usage_id() != 0 by {}
    let k = if 0x04 <= usage <= 0x31 {
        usage - 0x04
    } else if 0x33 <= usage <= 0x53 {
        usage - 0x05
    } else {
        usage - 0xE0 + 0x4F
    };
    all[k]
}

/// A letter key types its letter: usage `u` of A to Z gives the `u - 4`th
/// letter of the alphabet, upper case when exactly one of shift and caps
/// lock is on; the digit row gives `1` to `9` and then `0`, or their
/// shifted symbols under shift.
pub proof fn lemma_usage_characters(usage: u8, modifiers: Modifiers)
    ensures
        0x04 <= usage <= 0x1D ==> key_of_usage(usage) is Some && character_of(key_of_usage(usage)->0, modifiers)
            == Key::Character(
            ((if modifiers.shift ^ modifiers.caps_lock {
                'A'
            } else {
                'a'
            }) as u32 + (usage - 0x04)) as char,
        ),
        0x1E <= usage <= 0x26 && !modifiers.shift ==> key_of_usage(usage) is Some && character_of(
            key_of_usage(usage)->0,
            modifiers,
        ) == Key::Character(('1' as u32 + (usage - 0x1E)) as char),
        usage == 0x27 && !modifiers.shift ==> key_of_usage(usage) is Some && character_of(key_of_usage(usage)->0, modifiers)
            == Key::Character('0'),
{
}

/// The key that a keyboard usage names; `None` for the keys the console
/// does not use.
fn usage_to_key(usage: u8) -> (r: Option<Key>)
    ensures
        r == key_of_usage(usage),
{
    match usage {
        0x04 => Some(Key::A),
        0x05 => Some(Key::B),
        0x06 => Some(Key::C),
        0x07 => Some(Key::D),
        0x08 => Some(Key::E),
        0x09 => Some(Key::F),
        0x0A => Some(Key::G),
        0x0B => Some(Key::H),
        0x0C => Some(Key::I),
        0x0D => Some(Key::J),
        0x0E => Some(Key::K),
        0x0F => Some(Key::L),
        0x10 => Some(Key::M),
        0x11 => Some(Key::N),
        0x12 => Some(Key::O),
        0x13 => Some(Key::P),
        0x14 => Some(Key::Q),
        0x15 => Some(Key::R),
        0x16 => Some(Key::S),
        0x17 => Some(Key::T),
        0x18 => Some(Key::U),
        0x19 => Some(Key::V),
        0x1A => Some(Key::W),
        0x1B => Some(Key::X),
        0x1C => Some(Key::Y),
        0x1D => Some(Key::Z),
        0x1E => Some(Key::Num1),
        0x1F => Some(Key::Num2),
        0x20 => Some(Key::Num3),
        0x21 => Some(Key::Num4),
        0x22 => Some(Key::Num5),
        0x23 => Some(Key::Num6),
        0x24 => Some(Key::Num7),
        0x25 => Some(Key::Num8),
        0x26 => Some(Key::Num9),
        0x27 => Some(Key::Num0),
        0x28 => Some(Key::Enter),
        0x29 => Some(Key::Escape),
        0x2A => Some(Key::Backspace),
        0x2B => Some(Key::Tab),
        0x2C => Some(Key::Space),
        0x2D => Some(Key::Minus),
        0x2E => Some(Key::Equal),
        0x2F => Some(Key::LeftBracket),
        0x30 => Some(Key::RightBracket),
        0x31 => Some(Key::Backslash),
        0x33 => Some(Key::Semicolon),
        0x34 => Some(Key::Apostrophe),
        0x35 => Some(Key::Grave),
        0x36 => Some(Key::Comma),
        0x37 => Some(Key::Dot),
        0x38 => Some(Key::Slash),
        0x4F => Some(Key::Right),
        0x50 => Some(Key::Left),
        0x51 => Some(Key::Down),
        0x52 => Some(Key::Up),
        _ => None,
    }
}

/// The key that a physical key produces under the given modifiers: letters
/// are upper case when exactly one of shift and caps lock is on, digits and
/// punctuation take their shifted symbol under shift, and every other key
/// stays as it is.
pub open spec fn character_of(key: Key, modifiers: Modifiers) -> Key {
    let shift = modifiers.shift;
    let caps = modifiers.caps_lock;
    match key {
        Key::A => Key::Character(if shift ^ caps { 'A' } else { 'a' }),
        Key::B => Key::Character(if shift ^ caps { 'B' } else { 'b' }),
        Key::C => Key::Character(if shift ^ caps { 'C' } else { 'c' }),
        Key::D => Key::Character(if shift ^ caps { 'D' } else { 'd' }),
        Key::E => Key::Character(if shift ^ caps { 'E' } else { 'e' }),
        Key::F => Key::Character(if shift ^ caps { 'F' } else { 'f' }),
        Key::G => Key::Character(if shift ^ caps { 'G' } else { 'g' }),
        Key::H => Key::Character(if shift ^ caps { 'H' } else { 'h' }),
        Key::I => Key::Character(if shift ^ caps { 'I' } else { 'i' }),
        Key::J => Key::Character(if shift ^ caps { 'J' } else { 'j' }),
        Key::K => Key::Character(if shift ^ caps { 'K' } else { 'k' }),
        Key::L => Key::Character(if shift ^ caps { 'L' } else { 'l' }),
        Key::M => Key::Character(if shift ^ caps { 'M' } else { 'm' }),
        Key::N => Key::Character(if shift ^ caps { 'N' } else { 'n' }),
        Key::O => Key::Character(if shift ^ caps { 'O' } else { 'o' }),
        Key::P => Key::Character(if shift ^ caps { 'P' } else { 'p' }),
        Key::Q => Key::Character(if shift ^ caps { 'Q' } else { 'q' }),
        Key::R => Key::Character(if shift ^ caps { 'R' } else { 'r' }),
        Key::S => Key::Character(if shift ^ caps { 'S' } else { 's' }),
        Key::T => Key::Character(if shift ^ caps { 'T' } else { 't' }),
        Key::U => Key::Character(if shift ^ caps { 'U' } else { 'u' }),
        Key::V => Key::Character(if shift ^ caps { 'V' } else { 'v' }),
        Key::W => Key::Character(if shift ^ caps { 'W' } else { 'w' }),
        Key::X => Key::Character(if shift ^ caps { 'X' } else { 'x' }),
        Key::Y => Key::Character(if shift ^ caps { 'Y' } else { 'y' }),
        Key::Z => Key::Character(if shift ^ caps { 'Z' } else { 'z' }),
        Key::Num1 => Key::Character(if shift { '!' } else { '1' }),
        Key::Num2 => Key::Character(if shift { '@' } else { '2' }),
        Key::Num3 => Key::Character(if shift { '#' } else { '3' }),
        Key::Num4 => Key::Character(if shift { '$' } else { '4' }),
        Key::Num5 => Key::Character(if shift { '%' } else { '5' }),
        Key::Num6 => Key::Character(if shift { '^' } else { '6' }),
        Key::Num7 => Key::Character(if shift { '&' } else { '7' }),
        Key::Num8 => Key::Character(if shift { '*' } else { '8' }),
        Key::Num9 => Key::Character(if shift { '(' } else { '9' }),
        Key::Num0 => Key::Character(if shift { ')' } else { '0' }),
        Key::Minus => Key::Character(if shift { '_' } else { '-' }),
        Key::Equal => Key::Character(if shift { '+' } else { '=' }),
        Key::LeftBracket => Key::Character(if shift { '{' } else { '[' }),
        Key::RightBracket => Key::Character(if shift { '}' } else { ']' }),
        Key::Backslash => Key::Character(if shift { '|' } else { '\\' }),
        Key::Semicolon => Key::Character(if shift { ':' } else { ';' }),
        Key::Apostrophe => Key::Character(if shift { '"' } else { '\'' }),
        Key::Grave => Key::Character(if shift { '~' } else { '`' }),
        Key::Comma => Key::Character(if shift { '<' } else { ',' }),
        Key::Dot => Key::Character(if shift { '>' } else { '.' }),
        Key::Slash => Key::Character(if shift { '?' } else { '/' }),
        _ => key,
    }
}

/// Translates a physical key into the key it produces; always `Some`.
fn key_to_character(key: Key, modifiers: Modifiers) -> (r: Option<Key>)
    ensures
        r == Some(character_of(key, modifiers)),
{
    let shift = modifiers.shift;
    let caps = modifiers.caps_lock;
    Some(
        match key {
        Key::A => Key::Character(if shift ^ caps { 'A' } else { 'a' }),
        Key::B => Key::Character(if shift ^ caps { 'B' } else { 'b' }),
        Key::C => Key::Character(if shift ^ caps { 'C' } else { 'c' }),
        Key::D => Key::Character(if shift ^ caps { 'D' } else { 'd' }),
        Key::E => Key::Character(if shift ^ caps { 'E' } else { 'e' }),
        Key::F => Key::Character(if shift ^ caps { 'F' } else { 'f' }),
        Key::G => Key::Character(if shift ^ caps { 'G' } else { 'g' }),
        Key::H => Key::Character(if shift ^ caps { 'H' } else { 'h' }),
        Key::I => Key::Character(if shift ^ caps { 'I' } else { 'i' }),
        Key::J => Key::Character(if shift ^ caps { 'J' } else { 'j' }),
        Key::K => Key::Character(if shift ^ caps { 'K' } else { 'k' }),
        Key::L => Key::Character(if shift ^ caps { 'L' } else { 'l' }),
        Key::M => Key::Character(if shift ^ caps { 'M' } else { 'm' }),
        Key::N => Key::Character(if shift ^ caps { 'N' } else { 'n' }),
        Key::O => Key::Character(if shift ^ caps { 'O' } else { 'o' }),
        Key::P => Key::Character(if shift ^ caps { 'P' } else { 'p' }),
        Key::Q => Key::Character(if shift ^ caps { 'Q' } else { 'q' }),
        Key::R => Key::Character(if shift ^ caps { 'R' } else { 'r' }),
        Key::S => Key::Character(if shift ^ caps { 'S' } else { 's' }),
        Key::T => Key::Character(if shift ^ caps { 'T' } else { 't' }),
        Key::U => Key::Character(if shift ^ caps { 'U' } else { 'u' }),
        Key::V => Key::Character(if shift ^ caps { 'V' } else { 'v' }),
        Key::W => Key::Character(if shift ^ caps { 'W' } else { 'w' }),
        Key::X => Key::Character(if shift ^ caps { 'X' } else { 'x' }),
        Key::Y => Key::Character(if shift ^ caps { 'Y' } else { 'y' }),
        Key::Z => Key::Character(if shift ^ caps { 'Z' } else { 'z' }),
        Key::Num1 => Key::Character(if shift { '!' } else { '1' }),
        Key::Num2 => Key::Character(if shift { '@' } else { '2' }),
        Key::Num3 => Key::Character(if shift { '#' } else { '3' }),
        Key::Num4 => Key::Character(if shift { '$' } else { '4' }),
        Key::Num5 => Key::Character(if shift { '%' } else { '5' }),
        Key::Num6 => Key::Character(if shift { '^' } else { '6' }),
        Key::Num7 => Key::Character(if shift { '&' } else { '7' }),
        Key::Num8 => Key::Character(if shift { '*' } else { '8' }),
        Key::Num9 => Key::Character(if shift { '(' } else { '9' }),
        Key::Num0 => Key::Character(if shift { ')' } else { '0' }),
        Key::Minus => Key::Character(if shift { '_' } else { '-' }),
        Key::Equal => Key::Character(if shift { '+' } else { '=' }),
        Key::LeftBracket => Key::Character(if shift { '{' } else { '[' }),
        Key::RightBracket => Key::Character(if shift { '}' } else { ']' }),
        Key::Backslash => Key::Character(if shift { '|' } else { '\\' }),
        Key::Semicolon => Key::Character(if shift { ':' } else { ';' }),
        Key::Apostrophe => Key::Character(if shift { '"' } else { '\'' }),
        Key::Grave => Key::Character(if shift { '~' } else { '`' }),
        Key::Comma => Key::Character(if shift { '<' } else { ',' }),
        Key::Dot => Key::Character(if shift { '>' } else { '.' }),
        Key::Slash => Key::Character(if shift { '?' } else { '/' }),
            _ => key,
        },
    )
}

/// The eight bytes kept of a keyboard report: the modifier byte, a zero,
/// and up to six key usages, zero-filled.
pub open spec fn kept_report(report: Seq<u8>) -> Seq<u8> {
    Seq::new(
        8,
        |i: int|
            if i == 0 {
                report[0]
            } else if 2 <= i && i < report.len() && i < 8 {
                report[i]
            } else {
                0u8
            },
    )
}

/// How often `usage` occurs among the first `n` of `keys`.
pub open spec fn count_usage(keys: Seq<u8>, usage: u8, n: nat) -> nat
    decreases n,
{
    if n == 0 {
        0
    } else {
        count_usage(keys, usage, (n - 1) as nat) + if keys[n - 1] == usage {
            1nat
        } else {
            0nat
        }
    }
}

/// Whether a lock key toggles: it is newly present, an odd number of times.
pub open spec fn lock_toggles(current: Seq<u8>, previous: Seq<u8>, usage: u8) -> bool {
    !previous.contains(usage) && count_usage(current, usage, 6) % 2 == 1
}

/// The modifier state after a keyboard report whose six keys are `current`
/// (the previous six being `previous`) and whose modifier byte is `bits`.
pub open spec fn next_modifiers(old: Modifiers, bits: u8, current: Seq<u8>, previous: Seq<u8>) -> Modifiers {
    Modifiers {
        left_shift: bits & 0x02 != 0,
        right_shift: bits & 0x20 != 0,
        shift: bits & 0x02 != 0 || bits & 0x20 != 0,
        ctrl: bits & 0x11 != 0,
        alt: bits & 0x44 != 0,
        logo: bits & 0x88 != 0,
        caps_lock: old.caps_lock != lock_toggles(current, previous, 0x39),
        num_lock: old.num_lock != lock_toggles(current, previous, 0x53),
        scroll_lock: old.scroll_lock != lock_toggles(current, previous, 0x47),
    }
}

/// For the first `n` of `keys`: one event for each usage other than 0 and 1
/// that `others` lacks and that names a known key, a key-down when `down`
/// and a key-up otherwise.
pub open spec fn key_changes(keys: Seq<u8>, others: Seq<u8>, modifiers: Modifiers, down: bool, n: nat) -> Seq<
    InputEvent,
>
    decreases n,
{
    if n == 0 {
        seq![]
    } else {
        let rest = key_changes(keys, others, modifiers, down, (n - 1) as nat);
        let usage = keys[n - 1];
        if usage == 0 || usage == 1 || others.contains(usage) || key_of_usage(usage) is None {
            rest
        } else if down {
            rest.push(InputEvent::KeyDown { key: key_of_usage(usage)->0, modifiers })
        } else {
            rest.push(InputEvent::KeyUp { key: key_of_usage(usage)->0, modifiers })
        }
    }
}

/// The events of a keyboard report: presses in report order, then releases
/// in the previous report's order.
pub open spec fn keyboard_report_events(current: Seq<u8>, previous: Seq<u8>, modifiers: Modifiers) -> Seq<
    InputEvent,
> {
    key_changes(current, previous, modifiers, true, 6) + key_changes(previous, current, modifiers, false, 6)
}

/// Appending two runs of events one after the other is appending their
/// concatenation.
pub proof fn lemma_push_all_append(queue: Seq<InputEvent>, a: Seq<InputEvent>, b: Seq<InputEvent>)
    ensures
        push_all(push_all(queue, a), b) == push_all(queue, a + b),
    decreases b.len(),
{
    if b.len() == 0 {
        assert(a + b =~= a);
    } else {
        lemma_push_all_append(queue, a, b.drop_last());
        assert((a + b).drop_last() =~= a + b.drop_last());
        assert((a + b).last() == b.last());
    }
}

/// The eight bytes kept of a report of at least two bytes.
fn kept_keys(report: &[u8]) -> (current: [u8; 8])
    requires
        report@.len() >= 2,
    ensures
        current@ == kept_report(report@),
{
    let mut current = [0u8; 8];
    current[0] = report[0];
    let key_count = if report.len() - 2 < 6 { report.len() - 2 } else { 6 };
    let mut index: usize = 0;
    while index < key_count
        invariant
            0 <= index <= key_count,
            key_count <= 6,
            key_count == (if report@.len() - 2 < 6 { report@.len() - 2 } else { 6 }),
            report@.len() >= 2,
            current@.len() == 8,
            current@[0] == report@[0],
            current@[1] == 0,
            forall|i: int| 2 <= i < 2 + index ==> current@[i] == report@[i],
            forall|i: int| 2 + index <= i < 8 ==> current@[i] == 0,
        decreases key_count - index,
    {
        current[index + 2] = report[index + 2];
        index = index + 1;
    }
    proof {
        assert(current@ =~= kept_report(report@));
    }
    current
}

/// How often `usage` occurs among the six keys.
fn count_key(keys: &[u8; 6], usage: u8) -> (r: usize)
    ensures
        r == count_usage(keys@, usage, 6),
{
    let mut count: usize = 0;
    let mut index: usize = 0;
    while index < 6
        invariant
            0 <= index <= 6,
            keys@.len() == 6,
            count == count_usage(keys@, usage, index as nat),
            count <= index,
        decreases 6 - index,
    {
        if keys[index] == usage {
            count = count + 1;
        }
        index = index + 1;
    }
    count
}

/// The modifier state after a report with modifier byte `bits`.
fn updated_modifiers(old: Modifiers, bits: u8, current: &[u8; 6], previous: &[u8; 6]) -> (r: Modifiers)
    ensures
        r == next_modifiers(old, bits, current@, previous@),
{
    let mut modifiers = old;
    modifiers.left_shift = (bits & 0x02) != 0;
    modifiers.right_shift = (bits & 0x20) != 0;
    modifiers.shift = modifiers.left_shift || modifiers.right_shift;
    modifiers.ctrl = (bits & 0x11) != 0;
    modifiers.alt = (bits & 0x44) != 0;
    modifiers.logo = (bits & 0x88) != 0;
    if !contains_usage(previous.as_slice(), 0x39) && count_key(current, 0x39) % 2 == 1 {
        modifiers.caps_lock = !modifiers.caps_lock;
    }
    if !contains_usage(previous.as_slice(), 0x53) && count_key(current, 0x53) % 2 == 1 {
        modifiers.num_lock = !modifiers.num_lock;
    }
    if !contains_usage(previous.as_slice(), 0x47) && count_key(current, 0x47) % 2 == 1 {
        modifiers.scroll_lock = !modifiers.scroll_lock;
    }
    modifiers
}

/// Queues one event for each key of `keys` that `others` lacks.
fn push_key_changes(state: &mut InputState, keys: &[u8; 6], others: &[u8; 6], modifiers: Modifiers, down: bool)
    ensures
        final(state).keyboard_queue() == push_all(
            old(state).keyboard_queue(),
            key_changes(keys@, others@, modifiers, down, 6),
        ),
        final(state).mouse_queue() == old(state).mouse_queue(),
        final(state).last_report() == old(state).last_report(),
        final(state).buttons() == old(state).buttons(),
        final(state).position() == old(state).position(),
        final(state).current_modifiers() == old(state).current_modifiers(),
        final(state).keyboard_seen() == old(state).keyboard_seen(),
        final(state).mouse_seen() == old(state).mouse_seen(),
{
    let ghost start = state.keyboard_queue();
    let mut index: usize = 0;
    while index < 6
        invariant
            0 <= index <= 6,
            keys@.len() == 6,
            others@.len() == 6,
            state.keyboard_queue() == push_all(start, key_changes(keys@, others@, modifiers, down, index as nat)),
            state.mouse_queue() == old(state).mouse_queue(),
            state.last_report() == old(state).last_report(),
            state.buttons() == old(state).buttons(),
            state.position() == old(state).position(),
            state.current_modifiers() == old(state).current_modifiers(),
            state.keyboard_seen() == old(state).keyboard_seen(),
            state.mouse_seen() == old(state).mouse_seen(),
        decreases 6 - index,
    {
        let usage = keys[index];
        let ghost before = key_changes(keys@, others@, modifiers, down, index as nat);
        if usage != 0 && usage != 1 && !contains_usage(others.as_slice(), usage) {
            match usage_to_key(usage) {
                Some(key) => {
                    let event = if down {
                        InputEvent::KeyDown { key, modifiers }
                    } else {
                        InputEvent::KeyUp { key, modifiers }
                    };
                    push_keyboard_event(state, event);
                    proof {
                        assert(key_changes(keys@, others@, modifiers, down, (index + 1) as nat) == before.push(
                            event,
                        ));
                        assert(before.push(event).drop_last() =~= before);
                    }
                },
                None => {},
            }
        }
        index = index + 1;
    }
}

/// Processes one boot keyboard report: updates the modifiers and lock keys,
/// queues the key presses and releases against the previous report, and
/// keeps the report.  A report shorter than two bytes changes nothing.
pub fn process_keyboard_report(state: &mut InputState, report: &[u8])
    requires
        old(state).last_report().len() == 8,
    ensures
        report@.len() < 2 ==> *final(state) == *old(state),
        report@.len() >= 2 ==> ({
            let current = kept_report(report@).subrange(2, 8);
            let previous = old(state).last_report().subrange(2, 8);
            let modifiers = next_modifiers(old(state).current_modifiers(), report@[0], current, previous);
            &&& final(state).keyboard_seen()
            &&& final(state).current_modifiers() == modifiers
            &&& final(state).last_report() == kept_report(report@)
            &&& final(state).keyboard_queue() == push_all(
                old(state).keyboard_queue(),
                keyboard_report_events(current, previous, modifiers),
            )
            &&& final(state).mouse_queue() == old(state).mouse_queue()
            &&& final(state).buttons() == old(state).buttons()
            &&& final(state).position() == old(state).position()
            &&& final(state).mouse_seen() == old(state).mouse_seen()
        }),
{
    if report.len() < 2 {
        return;
    }
    state.keyboard_present = true;
    let current = kept_keys(report);
    let previous = state.keyboard_state;
    let previous_keys: [u8; 6] = [previous[2], previous[3], previous[4], previous[5], previous[6], previous[7]];
    let current_keys: [u8; 6] = [current[2], current[3], current[4], current[5], current[6], current[7]];
    proof {
        assert(previous_keys@ =~= previous@.subrange(2, 8));
        assert(current_keys@ =~= current@.subrange(2, 8));
    }
    let modifiers = updated_modifiers(state.modifiers, report[0], &current_keys, &previous_keys);
    state.modifiers = modifiers;
    let ghost start = state.keyboard_queue();
    push_key_changes(state, &current_keys, &previous_keys, modifiers, true);
    push_key_changes(state, &previous_keys, &current_keys, modifiers, false);
    proof {
        lemma_push_all_append(
            start,
            key_changes(current_keys@, previous_keys@, modifiers, true, 6),
            key_changes(previous_keys@, current_keys@, modifiers, false, 6),
        );
    }
    state.keyboard_state = current;
}

// ============================================================
// Mouse reports
// ============================================================

/// `a + b`, saturated at the bounds of `i32`.
pub open spec fn saturating_add_i32(a: i32, b: i32) -> i32 {
    if a + b > i32::MAX {
        i32::MAX
    } else if a + b < i32::MIN {
        i32::MIN
    } else {
        (a + b) as i32
    }
}

/// The cursor coordinate after moving by `delta` on an axis of `size`
/// pixels: kept within 0 and the last pixel, and 0 on an axis of at most
/// one pixel.
pub open spec fn moved_axis(position: i32, delta: i32, size: usize) -> i32 {
    let max = (if size >= 1 { size - 1 } else { 0 }) as i32;
    let next = saturating_add_i32(position, delta);
    if max <= 0 {
        0
    } else if next < 0 {
        0
    } else if next > max {
        max
    } else {
        next
    }
}

fn moved_axis_exec(position: i32, delta: i32, size: usize) -> (r: i32)
    ensures
        r == moved_axis(position, delta, size),
{
    let max = size.saturating_sub(1) as i32;
    let wide = position as i64 + delta as i64;
    let next = if wide > i32::MAX as i64 {
        i32::MAX
    } else if wide < i32::MIN as i64 {
        i32::MIN
    } else {
        wide as i32
    };
    if max <= 0 {
        0
    } else if next < 0 {
        0
    } else if next > max {
        max
    } else {
        next
    }
}

/// The button of each of the five low bits of a mouse report's button byte.
pub open spec fn mouse_button_of_bit(bit: u8) -> MouseButton {
    if bit == 0 {
        MouseButton::Left
    } else if bit == 1 {
        MouseButton::Right
    } else if bit == 2 {
        MouseButton::Middle
    } else if bit == 3 {
        MouseButton::Button4
    } else {
        MouseButton::Button5
    }
}

/// The button events of the first `n` of the five button bits, lowest bit
/// first: a press for each bit newly set, a release for each bit newly
/// clear.
pub open spec fn mouse_button_changes(previous: u8, current: u8, n: u8) -> Seq<InputEvent>
    decreases n,
{
    if n == 0 {
        seq![]
    } else {
        let bit = (n - 1) as u8;
        let rest = mouse_button_changes(previous, current, bit);
        let mask = 1u8 << bit;
        let was_down = previous & mask != 0;
        let is_down = current & mask != 0;
        if !was_down && is_down {
            rest.push(InputEvent::MouseButtonDown(mouse_button_of_bit(bit)))
        } else if was_down && !is_down {
            rest.push(InputEvent::MouseButtonUp(mouse_button_of_bit(bit)))
        } else {
            rest
        }
    }
}

/// The events of a mouse report of at least three bytes, given the cursor
/// position it produced: the movement, the button changes, then the wheel.
pub open spec fn mouse_report_events(previous_buttons: u8, position: (i32, i32), report: Seq<u8>) -> Seq<
    InputEvent,
> {
    let dx = report[1] as i8;
    let dy = report[2] as i8;
    let moves = if dx != 0 || dy != 0 {
        seq![InputEvent::MouseMove { x: position.0, y: position.1 }]
    } else {
        seq![]
    };
    let wheels = if report.len() >= 4 && report[3] as i8 != 0 {
        seq![InputEvent::MouseWheel { delta: report[3] as i8 as i16 }]
    } else {
        seq![]
    };
    moves + mouse_button_changes(previous_buttons, report[0] & 0x1F, 5) + wheels
}

/// The cursor position after a mouse report on a screen of the given size.
pub open spec fn mouse_report_position(position: (i32, i32), report: Seq<u8>, width: usize, height: usize) -> (
    i32,
    i32,
) {
    let dx = report[1] as i8;
    let dy = report[2] as i8;
    if dx != 0 || dy != 0 {
        (moved_axis(position.0, dx as i32, width), moved_axis(position.1, dy as i32, height))
    } else {
        position
    }
}

/// Appending a single event is a bounded push.
proof fn lemma_push_all_single(queue: Seq<InputEvent>, event: InputEvent)
    ensures
        push_all(queue, seq![event]) == push_bounded(queue, event),
        push_all(queue, Seq::<InputEvent>::empty()) == queue,
{
    assert(seq![event].drop_last() =~= Seq::<InputEvent>::empty());
    assert(seq![event].last() == event);
    assert(push_all(queue, Seq::<InputEvent>::empty()) == queue);
    assert(push_all(queue, seq![event]) == push_bounded(push_all(queue, seq![event].drop_last()), event));
}

/// Queues the press and release events of the five buttons.
fn push_button_changes(state: &mut InputState, previous: u8, buttons: u8)
    ensures
        final(state).mouse_queue() == push_all(old(state).mouse_queue(), mouse_button_changes(previous, buttons, 5)),
        final(state).keyboard_queue() == old(state).keyboard_queue(),
        final(state).last_report() == old(state).last_report(),
        final(state).buttons() == old(state).buttons(),
        final(state).position() == old(state).position(),
        final(state).current_modifiers() == old(state).current_modifiers(),
        final(state).keyboard_seen() == old(state).keyboard_seen(),
        final(state).mouse_seen() == old(state).mouse_seen(),
{
    let ghost start = state.mouse_queue();
    let mut bit: u8 = 0;
    while bit < 5
        invariant
            0 <= bit <= 5,
            state.mouse_queue() == push_all(start, mouse_button_changes(previous, buttons, bit)),
            state.keyboard_queue() == old(state).keyboard_queue(),
            state.last_report() == old(state).last_report(),
            state.buttons() == old(state).buttons(),
            state.position() == old(state).position(),
            state.current_modifiers() == old(state).current_modifiers(),
            state.keyboard_seen() == old(state).keyboard_seen(),
            state.mouse_seen() == old(state).mouse_seen(),
        decreases 5 - bit,
    {
        let mask = 1u8 << bit;
        let was_down = (previous & mask) != 0;
        let is_down = (buttons & mask) != 0;
        let button = if bit == 0 {
            MouseButton::Left
        } else if bit == 1 {
            MouseButton::Right
        } else if bit == 2 {
            MouseButton::Middle
        } else if bit == 3 {
            MouseButton::Button4
        } else {
            MouseButton::Button5
        };
        let ghost before = mouse_button_changes(previous, buttons, bit);
        if !was_down && is_down {
            push_mouse_event(state, InputEvent::MouseButtonDown(button));
            proof {
                assert(before.push(InputEvent::MouseButtonDown(button)).drop_last() =~= before);
            }
        } else if was_down && !is_down {
            push_mouse_event(state, InputEvent::MouseButtonUp(button));
            proof {
                assert(before.push(InputEvent::MouseButtonUp(button)).drop_last() =~= before);
            }
        }
        bit = bit + 1;
    }
}

/// Processes one boot mouse report on a screen of the given size: moves the
/// cursor within the screen, queues the movement, the button changes and the
/// wheel, and keeps the button byte.  A report shorter than three bytes
/// changes nothing.
pub fn process_mouse_report(state: &mut InputState, report: &[u8], screen_width: usize, screen_height: usize)
    ensures
        report@.len() < 3 ==> *final(state) == *old(state),
        report@.len() >= 3 ==> ({
            let position = mouse_report_position(old(state).position(), report@, screen_width, screen_height);
            &&& final(state).mouse_seen()
            &&& final(state).position() == position
            &&& final(state).buttons() == report@[0] & 0x1F
            &&& final(state).mouse_queue() == push_all(
                old(state).mouse_queue(),
                mouse_report_events(old(state).buttons(), position, report@),
            )
            &&& final(state).keyboard_queue() == old(state).keyboard_queue()
            &&& final(state).last_report() == old(state).last_report()
            &&& final(state).current_modifiers() == old(state).current_modifiers()
            &&& final(state).keyboard_seen() == old(state).keyboard_seen()
        }),
{
    if report.len() < 3 {
        return;
    }
    state.mouse_present = true;
    let buttons = report[0] & 0x1F;
    let previous = state.mouse_buttons;
    let dx = report[1] as i8;
    let dy = report[2] as i8;
    let ghost start = state.mouse_queue();
    let ghost position = mouse_report_position(state.position(), report@, screen_width, screen_height);
    let ghost moves: Seq<InputEvent> = if dx != 0 || dy != 0 {
        seq![InputEvent::MouseMove { x: position.0, y: position.1 }]
    } else {
        seq![]
    };
    if dx != 0 || dy != 0 {
        let x = moved_axis_exec(state.mouse_position.0, dx as i32, screen_width);
        let y = moved_axis_exec(state.mouse_position.1, dy as i32, screen_height);
        state.mouse_position = (x, y);
        push_mouse_event(state, InputEvent::MouseMove { x, y });
    }
    proof {
        lemma_push_all_single(start, InputEvent::MouseMove { x: position.0, y: position.1 });
    }
    let ghost after_moves = state.mouse_queue();
    push_button_changes(state, previous, buttons);
    proof {
        lemma_push_all_append(start, moves, mouse_button_changes(previous, buttons, 5));
    }
    let ghost body = moves + mouse_button_changes(previous, buttons, 5);
    let ghost after_body = state.mouse_queue();
    let ghost wheels: Seq<InputEvent> = if report@.len() >= 4 && report@[3] as i8 != 0 {
        seq![InputEvent::MouseWheel { delta: report@[3] as i8 as i16 }]
    } else {
        seq![]
    };
    if report.len() >= 4 {
        let wheel = report[3] as i8 as i16;
        if wheel != 0 {
            push_mouse_event(state, InputEvent::MouseWheel { delta: wheel });
        }
    }
    proof {
        lemma_push_all_single(after_body, InputEvent::MouseWheel { delta: report@[3] as i8 as i16 });
        lemma_push_all_append(start, body, wheels);
        assert(mouse_report_events(previous, position, report@) =~= body + wheels);
    }
    state.mouse_buttons = buttons;
}

} // verus!
