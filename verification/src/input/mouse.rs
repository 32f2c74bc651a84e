//! Boot-protocol mouse reports turned into movement, wheel and button events.

use vstd::prelude::*;

use super::MouseButton;

verus! {

/// One change reported by a boot mouse.
#[derive(Clone, Copy, Debug, PartialEq, Eq, Structural)]
pub enum MouseEvent {
    Move { x: i8, y: i8 },
    ButtonDown(MouseButton),
    ButtonUp(MouseButton),
    Wheel(i8),
}

/// The button byte of the previous report.
pub struct MouseState {
    previous_buttons: u8,
}

impl MouseState {
    /// The button byte of the previous report.
    pub closed spec fn buttons(&self) -> u8 {
        self.previous_buttons
    }

    /// A state in which no button is held.
    pub fn new() -> (r: Self)
        ensures
            r.buttons() == 0,
    {
        MouseState { previous_buttons: 0 }
    }
}

/// The button of each of the five low bits of the button byte.
pub open spec fn button_of_bit(bit: u8) -> MouseButton {
    if bit == 0 {
        MouseButton::Left
    } else if bit == 1 {
        MouseButton::Right
    } else if bit == 2 {
        MouseButton::Middle
    } else if bit == 3 {
        MouseButton::Button4
    } else {
        MouseButton::Button5
    }
}

/// The events of the first `n` button bits that differ between the previous
/// and the current button byte, lowest bit first.
pub open spec fn button_events(previous: u8, current: u8, n: u8) -> Seq<MouseEvent>
    decreases n,
{
    if n == 0 {
        seq![]
    } else {
        let bit = (n - 1) as u8;
        let rest = button_events(previous, current, bit);
        let mask = 1u8 << bit;
        if (previous ^ current) & mask == 0 {
            rest
        } else if current & mask != 0 {
            rest.push(MouseEvent::ButtonDown(button_of_bit(bit)))
        } else {
            rest.push(MouseEvent::ButtonUp(button_of_bit(bit)))
        }
    }
}

/// The events of one report of at least four bytes: a movement when either
/// delta is non-zero, a wheel event when the wheel moved, then the button
/// changes.
pub open spec fn report_events(previous: u8, report: Seq<u8>) -> Seq<MouseEvent> {
    let x = report[1] as i8;
    let y = report[2] as i8;
    let wheel = report[3] as i8;
    let moves = if x != 0 || y != 0 {
        seq![MouseEvent::Move { x, y }]
    } else {
        seq![]
    };
    let wheels = if wheel != 0 {
        seq![MouseEvent::Wheel(wheel)]
    } else {
        seq![]
    };
    moves + wheels + button_events(previous, report[0], 5)
}

/// A report has at most seven events.
proof fn lemma_report_events_len(previous: u8, report: Seq<u8>)
    requires
        report.len() >= 4,
    ensures
        report_events(previous, report).len() <= 7,
{
    assert forall|n: u8| n <= 5 implies #[trigger] button_events(previous, report[0], n).len() <= n by {
        lemma_button_events_len(previous, report[0], n);
    }
    assert(button_events(previous, report[0], 5).len() <= 5);
}

proof fn lemma_button_events_len(previous: u8, current: u8, n: u8)
    ensures
        button_events(previous, current, n).len() <= n,
    decreases n,
{
    if n > 0 {
        lemma_button_events_len(previous, current, (n - 1) as u8);
    }
}

/// Returns the events of one boot mouse report and remembers its button
/// byte.  A report shorter than four bytes gives no event and changes
/// nothing.
pub fn parse_report(report: &[u8], state: &mut MouseState) -> (events: Vec<MouseEvent>)
    ensures
        report@.len() < 4 ==> events@ == Seq::<MouseEvent>::empty() && final(state).buttons() == old(state).buttons(),
        report@.len() >= 4 ==> events@ == report_events(old(state).buttons(), report@) && final(state).buttons() == report@[0],
{
    let mut events: Vec<MouseEvent> = Vec::new();
    if report.len() < 4 {
        return events;
    }
    let buttons = report[0];
    let x = report[1] as i8;
    let y = report[2] as i8;
    let wheel = report[3] as i8;
    if x != 0 || y != 0 {
        events.push(MouseEvent::Move { x, y });
    }
    if wheel != 0 {
        events.push(MouseEvent::Wheel(wheel));
    }
    let previous = state.previous_buttons;
    let changed = previous ^ buttons;
    let ghost head = events@;
    let mut bit: u8 = 0;
    while bit < 5
        invariant
            0 <= bit <= 5,
            changed == previous ^ buttons,
            events@ == head + button_events(previous, buttons, bit),
        decreases 5 - bit,
    {
        let mask = 1u8 << bit;
        if changed & mask != 0 {
            let button = if bit == 0 {
                MouseButton::Left
            } else if bit == 1 {
                MouseButton::Right
            } else if bit == 2 {
                MouseButton::Middle
            } else if bit == 3 {
                MouseButton::Button4
            } else {
                MouseButton::Button5
            };
            if buttons & mask != 0 {
                events.push(MouseEvent::ButtonDown(button));
            } else {
                events.push(MouseEvent::ButtonUp(button));
            }
        }
        bit = bit + 1;
    }
    proof {
        assert(events@ =~= report_events(previous, report@));
    }
    state.previous_buttons = buttons;
    events
}

/// The events of one report in a fixed array of seven slots, in order,
/// with the unused slots `None`.
pub fn apply_report(report: &[u8], state: &mut MouseState) -> (slots: [Option<MouseEvent>; 7])
    ensures
        report@.len() < 4 ==> forall|i: int| 0 <= i < 7 ==> slots@[i] is None,
        report@.len() < 4 ==> final(state).buttons() == old(state).buttons(),
        report@.len() >= 4 ==> final(state).buttons() == report@[0] && forall|i: int|
            0 <= i < 7 ==> slots@[i] == (if i < report_events(old(state).buttons(), report@).len() {
                Some(report_events(old(state).buttons(), report@)[i])
            } else {
                None
            }),
{
    let ghost previous = state.buttons();
    let events = parse_report(report, state);
    proof {
        if report@.len() >= 4 {
            lemma_report_events_len(previous, report@);
        }
    }
    let mut slots: [Option<MouseEvent>; 7] = [None, None, None, None, None, None, None];
    let mut index: usize = 0;
    while index < events.len()
        invariant
            0 <= index <= events@.len(),
            events@.len() <= 7,
            slots@.len() == 7,
            forall|i: int| 0 <= i < index ==> slots@[i] == Some(events@[i]),
            forall|i: int| index <= i < 7 ==> slots@[i] is None,
        decreases events@.len() - index,
    {
        slots[index] = Some(events[index]);
        index = index + 1;
    }
    slots
}

} // verus!
