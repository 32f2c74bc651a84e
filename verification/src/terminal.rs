//! The kernel terminal: its input line, the commands it knows and their
//! replies, how keys edit it, and the layout of its screen.

use vstd::prelude::*;
use crate::graphics::buffer::GraphicsStorage;
use crate::graphics::color::Color;
use crate::graphics::draw::{draw_rect, rect_drawn, TextItem};
use crate::graphics::ui::{panel_bounds, panel_bounds_of};
use crate::input::key::Key;

verus! {

/// Longest input line.
pub const MAX_INPUT: usize = 40;

/// Longest reply.
pub const MAX_MESSAGE: usize = 64;

/// The bytes of "help".
pub open spec fn help_text() -> Seq<u8> {
    seq![0x68u8, 0x65u8, 0x6Cu8, 0x70u8]
}

/// The bytes of "clear".
pub open spec fn clear_text() -> Seq<u8> {
    seq![0x63u8, 0x6Cu8, 0x65u8, 0x61u8, 0x72u8]
}

/// The bytes of "hello".
pub open spec fn hello_text() -> Seq<u8> {
    seq![0x68u8, 0x65u8, 0x6Cu8, 0x6Cu8, 0x6Fu8]
}

/// The bytes of "version".
pub open spec fn version_text() -> Seq<u8> {
    seq![0x76u8, 0x65u8, 0x72u8, 0x73u8, 0x69u8, 0x6Fu8, 0x6Eu8]
}

/// The bytes of "COMMANDS: HELP CLEAR HELLO VERSION".
pub open spec fn help_reply_text() -> Seq<u8> {
    seq![0x43u8, 0x4Fu8, 0x4Du8, 0x4Du8, 0x41u8, 0x4Eu8, 0x44u8, 0x53u8, 0x3Au8, 0x20u8, 0x48u8, 0x45u8, 0x4Cu8, 0x50u8, 0x20u8, 0x43u8, 0x4Cu8, 0x45u8, 0x41u8, 0x52u8, 0x20u8, 0x48u8, 0x45u8, 0x4Cu8, 0x4Cu8, 0x4Fu8, 0x20u8, 0x56u8, 0x45u8, 0x52u8, 0x53u8, 0x49u8, 0x4Fu8, 0x4Eu8]
}

/// The bytes of "HELLO FROM RUSTY".
pub open spec fn hello_reply_text() -> Seq<u8> {
    seq![0x48u8, 0x45u8, 0x4Cu8, 0x4Cu8, 0x4Fu8, 0x20u8, 0x46u8, 0x52u8, 0x4Fu8, 0x4Du8, 0x20u8, 0x52u8, 0x55u8, 0x53u8, 0x54u8, 0x59u8]
}

/// The bytes of "RUSTY 0.1.0 KERNEL".
pub open spec fn version_reply_text() -> Seq<u8> {
    seq![0x52u8, 0x55u8, 0x53u8, 0x54u8, 0x59u8, 0x20u8, 0x30u8, 0x2Eu8, 0x31u8, 0x2Eu8, 0x30u8, 0x20u8, 0x4Bu8, 0x45u8, 0x52u8, 0x4Eu8, 0x45u8, 0x4Cu8]
}

/// The bytes of "UNKNOWN COMMAND".
pub open spec fn unknown_reply_text() -> Seq<u8> {
    seq![0x55u8, 0x4Eu8, 0x4Bu8, 0x4Eu8, 0x4Fu8, 0x57u8, 0x4Eu8, 0x20u8, 0x43u8, 0x4Fu8, 0x4Du8, 0x4Du8, 0x41u8, 0x4Eu8, 0x44u8]
}

fn help_bytes() -> (r: Vec<u8>)
    ensures
        r@ == help_text(),
{
    let r: Vec<u8> = vec![0x68u8, 0x65u8, 0x6Cu8, 0x70u8];
    proof {
        assert(r@ =~= help_text());
    }
    r
}

fn clear_bytes() -> (r: Vec<u8>)
    ensures
        r@ == clear_text(),
{
    let r: Vec<u8> = vec![0x63u8, 0x6Cu8, 0x65u8, 0x61u8, 0x72u8];
    proof {
        assert(r@ =~= clear_text());
    }
    r
}

fn hello_bytes() -> (r: Vec<u8>)
    ensures
        r@ == hello_text(),
{
    let r: Vec<u8> = vec![0x68u8, 0x65u8, 0x6Cu8, 0x6Cu8, 0x6Fu8];
    proof {
        assert(r@ =~= hello_text());
    }
    r
}

fn version_bytes() -> (r: Vec<u8>)
    ensures
        r@ == version_text(),
{
    let r: Vec<u8> = vec![0x76u8, 0x65u8, 0x72u8, 0x73u8, 0x69u8, 0x6Fu8, 0x6Eu8];
    proof {
        assert(r@ =~= version_text());
    }
    r
}

fn help_reply_bytes() -> (r: Vec<u8>)
    ensures
        r@ == help_reply_text(),
{
    let r: Vec<u8> = vec![0x43u8, 0x4Fu8, 0x4Du8, 0x4Du8, 0x41u8, 0x4Eu8, 0x44u8, 0x53u8, 0x3Au8, 0x20u8, 0x48u8, 0x45u8, 0x4Cu8, 0x50u8, 0x20u8, 0x43u8, 0x4Cu8, 0x45u8, 0x41u8, 0x52u8, 0x20u8, 0x48u8, 0x45u8, 0x4Cu8, 0x4Cu8, 0x4Fu8, 0x20u8, 0x56u8, 0x45u8, 0x52u8, 0x53u8, 0x49u8, 0x4Fu8, 0x4Eu8];
    proof {
        assert(r@ =~= help_reply_text());
    }
    r
}

fn hello_reply_bytes() -> (r: Vec<u8>)
    ensures
        r@ == hello_reply_text(),
{
    let r: Vec<u8> = vec![0x48u8, 0x45u8, 0x4Cu8, 0x4Cu8, 0x4Fu8, 0x20u8, 0x46u8, 0x52u8, 0x4Fu8, 0x4Du8, 0x20u8, 0x52u8, 0x55u8, 0x53u8, 0x54u8, 0x59u8];
    proof {
        assert(r@ =~= hello_reply_text());
    }
    r
}

fn version_reply_bytes() -> (r: Vec<u8>)
    ensures
        r@ == version_reply_text(),
{
    let r: Vec<u8> = vec![0x52u8, 0x55u8, 0x53u8, 0x54u8, 0x59u8, 0x20u8, 0x30u8, 0x2Eu8, 0x31u8, 0x2Eu8, 0x30u8, 0x20u8, 0x4Bu8, 0x45u8, 0x52u8, 0x4Eu8, 0x45u8, 0x4Cu8];
    proof {
        assert(r@ =~= version_reply_text());
    }
    r
}

fn unknown_reply_bytes() -> (r: Vec<u8>)
    ensures
        r@ == unknown_reply_text(),
{
    let r: Vec<u8> = vec![0x55u8, 0x4Eu8, 0x4Bu8, 0x4Eu8, 0x4Fu8, 0x57u8, 0x4Eu8, 0x20u8, 0x43u8, 0x4Fu8, 0x4Du8, 0x4Du8, 0x41u8, 0x4Eu8, 0x44u8];
    proof {
        assert(r@ =~= unknown_reply_text());
    }
    r
}

/// The reply to command line `command`: None for "clear" and an empty
/// line (nothing is shown), the command's text for "help", "hello" and
/// "version", and "UNKNOWN COMMAND" otherwise.
pub open spec fn reply_of(command: Seq<u8>) -> Option<Seq<u8>> {
    if command == help_text() {
        Some(help_reply_text())
    } else if command == clear_text() {
        None
    } else if command == hello_text() {
        Some(hello_reply_text())
    } else if command == version_text() {
        Some(version_reply_text())
    } else if command.len() == 0 {
        None
    } else {
        Some(unknown_reply_text())
    }
}

/// Whether the first `length` input bytes are exactly `command`.
pub fn equals(input_buffer: &[u8], length: usize, command: &[u8]) -> (r: bool)
    requires
        length <= input_buffer@.len(),
    ensures
        r == (input_buffer@.take(length as int) == command@),
{
    if length != command.len() {
        proof {
            assert(input_buffer@.take(length as int).len() != command@.len());
        }
        return false;
    }
    let mut i: usize = 0;
    while i < length
        invariant
            i <= length,
            length == command@.len(),
            length <= input_buffer@.len(),
            forall|k: int| 0 <= k < i ==> input_buffer@[k] == command@[k],
        decreases length - i,
    {
        if input_buffer[i] != command[i] {
            proof {
                assert(input_buffer@.take(length as int)[i as int] != command@[i as int]);
            }
            return false;
        }
        i = i + 1;
    }
    proof {
        assert(input_buffer@.take(length as int) =~= command@);
    }
    true
}

/// Runs the command in the first `length` input bytes. With a reply, the
/// message buffer becomes the reply padded with zeros and its length is
/// returned; without one, 0 is returned and the buffer is left alone.
pub fn execute_command(input_buffer: &[u8], length: usize, message: &mut Vec<u8>) -> (r: usize)
    requires
        length <= input_buffer@.len(),
        old(message)@.len() == MAX_MESSAGE,
    ensures
        match reply_of(input_buffer@.take(length as int)) {
            Some(text) => r == text.len() && final(message)@ == text + Seq::new(
                (MAX_MESSAGE - text.len()) as nat,
                |i: int| 0u8,
            ),
            None => r == 0 && final(message)@ == old(message)@,
        },
{
    let ghost command = input_buffer@.take(length as int);
    let reply = if equals(input_buffer, length, help_bytes().as_slice()) {
        help_reply_bytes()
    } else if equals(input_buffer, length, clear_bytes().as_slice()) {
        return 0;
    } else if equals(input_buffer, length, hello_bytes().as_slice()) {
        hello_reply_bytes()
    } else if equals(input_buffer, length, version_bytes().as_slice()) {
        version_reply_bytes()
    } else if length == 0 {
        return 0;
    } else {
        unknown_reply_bytes()
    };
    let copy_length = if reply.len() < MAX_MESSAGE {
        reply.len()
    } else {
        MAX_MESSAGE
    };
    let mut i: usize = 0;
    while i < MAX_MESSAGE
        invariant
            i <= MAX_MESSAGE,
            copy_length == reply@.len(),
            copy_length <= MAX_MESSAGE,
            message@.len() == MAX_MESSAGE,
            forall|k: int| 0 <= k < i ==> message@[k] == if k < copy_length {
                reply@[k]
            } else {
                0u8
            },
        decreases MAX_MESSAGE - i,
    {
        if i < copy_length {
            message.set(i, reply[i]);
        } else {
            message.set(i, 0);
        }
        i = i + 1;
    }
    proof {
        assert(message@ =~= reply@ + Seq::new((MAX_MESSAGE - reply@.len()) as nat, |i: int| 0u8));
    }
    copy_length
}

/// The terminal's state: the input line with its length and the reply
/// shown with its length.
pub struct Terminal {
    pub input: Vec<u8>,
    pub length: usize,
    pub message: Vec<u8>,
    pub message_length: usize,
}

/// What the terminal's loop does after a key.
#[derive(Clone, Copy, Debug, PartialEq, Eq, Structural)]
pub enum TerminalAction {
    Exit,
    Redraw,
    Ignore,
}

impl Terminal {
    /// Buffers of their fixed sizes, lengths within them.
    pub open spec fn wf(&self) -> bool {
        &&& self.input@.len() == MAX_INPUT
        &&& self.length <= MAX_INPUT
        &&& self.message@.len() == MAX_MESSAGE
        &&& self.message_length <= MAX_MESSAGE
    }

    /// Every input byte past the line is zero.
    pub open spec fn clean(&self) -> bool {
        forall|i: int| self.length <= i < self.input@.len() ==> #[trigger] self.input@[i] == 0u8
    }

    /// An empty terminal.
    pub fn new() -> (r: Self)
        ensures
            r.wf(),
            r.clean(),
            r.length == 0,
            r.message_length == 0,
            r.input@ == Seq::new(MAX_INPUT as nat, |i: int| 0u8),
            r.message@ == Seq::new(MAX_MESSAGE as nat, |i: int| 0u8),
    {
        let mut input: Vec<u8> = Vec::new();
        let mut i: usize = 0;
        while i < MAX_INPUT
            invariant
                i <= MAX_INPUT,
                input@ == Seq::new(i as nat, |k: int| 0u8),
            decreases MAX_INPUT - i,
        {
            input.push(0);
            proof {
                assert(input@ =~= Seq::new((i + 1) as nat, |k: int| 0u8));
            }
            i = i + 1;
        }
        let mut message: Vec<u8> = Vec::new();
        let mut j: usize = 0;
        while j < MAX_MESSAGE
            invariant
                j <= MAX_MESSAGE,
                message@ == Seq::new(j as nat, |k: int| 0u8),
            decreases MAX_MESSAGE - j,
        {
            message.push(0);
            proof {
                assert(message@ =~= Seq::new((j + 1) as nat, |k: int| 0u8));
            }
            j = j + 1;
        }
        Terminal { input, length: 0, message, message_length: 0 }
    }

    /// The input line typed so far.
    pub open spec fn line(&self) -> Seq<u8> {
        self.input@.take(self.length as int)
    }

    /// Handles one key: Escape leaves the terminal; Backspace drops the
    /// last character; Enter runs the line and clears it; a character is
    /// added while there is room (as its low byte); every edit redraws;
    /// other keys are ignored.
    pub fn handle_key(&mut self, key: Key) -> (r: TerminalAction)
        requires
            old(self).wf(),
        ensures
            final(self).wf(),
            (final(self).input@, final(self).length) == edited(old(self).input@, old(self).length, key),
            old(self).clean() ==> final(self).clean(),
            match key {
                Key::Escape => r == TerminalAction::Exit && *final(self) == *old(self),
                Key::Backspace => r == TerminalAction::Redraw && (if old(self).length > 0 {
                    final(self).length == old(self).length - 1 && final(self).input@ == old(self).input@.update(
                        old(self).length - 1,
                        0,
                    )
                } else {
                    final(self).length == 0 && final(self).input@ == old(self).input@
                }) && final(self).message@ == old(self).message@ && final(self).message_length
                    == old(self).message_length,
                Key::Enter => r == TerminalAction::Redraw && final(self).length == 0 && final(self).input@
                    == Seq::new(MAX_INPUT as nat, |i: int| 0u8) && match reply_of(old(self).line()) {
                    Some(text) => final(self).message_length == text.len() && final(self).message@ == text
                        + Seq::new((MAX_MESSAGE - text.len()) as nat, |i: int| 0u8),
                    None => final(self).message_length == 0 && final(self).message@ == old(self).message@,
                },
                Key::Character(c) => r == TerminalAction::Redraw && (if old(self).length < MAX_INPUT {
                    final(self).length == old(self).length + 1 && final(self).input@ == old(self).input@.update(
                        old(self).length as int,
                        ((c as u32) & 0xFF) as u8,
                    )
                } else {
                    final(self).length == old(self).length && final(self).input@ == old(self).input@
                }) && final(self).message@ == old(self).message@ && final(self).message_length
                    == old(self).message_length,
                _ => r == TerminalAction::Ignore && *final(self) == *old(self),
            },
    {
        match key {
            Key::Escape => {
                return TerminalAction::Exit;
            },
            Key::Backspace => {
                if self.length > 0 {
                    self.length = self.length - 1;
                    self.input.set(self.length, 0);
                }
                TerminalAction::Redraw
            },
            Key::Enter => {
                let n = execute_command(self.input.as_slice(), self.length, &mut self.message);
                self.message_length = n;
                self.length = 0;
                let ghost message_after = self.message@;
                let mut i: usize = 0;
                while i < MAX_INPUT
                    invariant
                        i <= MAX_INPUT,
                        self.input@.len() == MAX_INPUT,
                        self.length == 0,
                        self.message_length == n,
                        self.message@ == message_after,
                        forall|k: int| 0 <= k < i ==> self.input@[k] == 0u8,
                    decreases MAX_INPUT - i,
                {
                    self.input.set(i, 0);
                    i = i + 1;
                }
                proof {
                    assert(self.input@ =~= Seq::new(MAX_INPUT as nat, |i: int| 0u8));
                }
                TerminalAction::Redraw
            },
            Key::Character(c) => {
                if self.length < MAX_INPUT {
                    let byte = ((c as u32) & 0xFF) as u8;
                    self.input.set(self.length, byte);
                    self.length = self.length + 1;
                }
                TerminalAction::Redraw
            },
            _ => TerminalAction::Ignore,
        }
    }
}

/// The input buffer and line length after `key`: Backspace clears the
/// last byte of the line, a character is stored after the line while
/// there is room, Enter clears the buffer, other keys change nothing.
pub open spec fn edited(input: Seq<u8>, length: usize, key: Key) -> (Seq<u8>, usize) {
    match key {
        Key::Backspace => if length > 0 {
            (input.update(length - 1, 0u8), (length - 1) as usize)
        } else {
            (input, length)
        },
        Key::Character(c) => if length < MAX_INPUT {
            (input.update(length as int, ((c as u32) & 0xFF) as u8), (length + 1) as usize)
        } else {
            (input, length)
        },
        Key::Enter => (Seq::new(MAX_INPUT as nat, |i: int| 0u8), 0usize),
        _ => (input, length),
    }
}

/// Backspace right after typing a character gives back the input as it
/// was, when there was room and the byte after the line was clear (as it
/// always is: see `Terminal::clean`).
pub proof fn lemma_backspace_undoes_typing(input: Seq<u8>, length: usize, c: char)
    requires
        length < MAX_INPUT,
        length < input.len(),
        input[length as int] == 0u8,
    ensures
        ({
            let typed = edited(input, length, Key::Character(c));
            edited(typed.0, typed.1, Key::Backspace) == (input, length)
        }),
{
    let typed = edited(input, length, Key::Character(c));
    assert(typed.0.update(length as int, 0u8) =~= input);
}

/// Where the dynamic texts of the terminal screen go: the input line,
/// and the reply when there is one.
#[derive(Clone, Copy, Debug)]
pub struct TerminalTexts {
    pub input_x: usize,
    pub input_y: usize,
    pub message: Option<(usize, usize)>,
}

/// The terminal screen's fixed texts for a panel at (`x`, `y`) of height
/// `h`: title, shell name, hint, prompt and footer.
pub open spec fn terminal_labels(x: int, y: int, h: int) -> Seq<(int, int, usize)> {
    seq![
        (x + 16, y + 28, 2usize),
        (x + 16, y + 97, 1usize),
        (x + 16, y + 127, 1usize),
        (x + 16, y + 165, 1usize),
        (x + 16, y + (if h >= 34 { h - 34 } else { 0 }), 1usize),
    ]
}

/// The words and colours of the terminal's fixed labels, in the order of
/// `terminal_labels`: the title, the shell's name, the hint, the prompt
/// and the way back.
pub open spec fn terminal_label_styles() -> Seq<(Seq<char>, Color)> {
    seq![
        ("RUSTY TERMINAL"@, Color { r: 245, g: 248, b: 255, a: 255 }),
        ("RUSTY SHELL"@, Color { r: 100, g: 255, b: 145, a: 255 }),
        ("TYPE HELP FOR COMMANDS"@, Color { r: 150, g: 165, b: 185, a: 255 }),
        ("Terminal >"@, Color { r: 80, g: 225, b: 255, a: 255 }),
        ("ESC BACK"@, Color { r: 150, g: 165, b: 185, a: 255 }),
    ]
}

/// Draws the terminal screen over the base picture: the divider under
/// the title and the cursor block after the input (which is
/// `input_text_width` pixels wide in the font). Returns the fixed texts
/// for the font renderer and where the input and reply go.
pub fn redraw(storage: &mut GraphicsStorage, terminal: &Terminal, input_text_width: usize) -> (r: (Vec<TextItem>, TerminalTexts))
    requires
        old(storage).wf(),
        terminal.wf(),
        old(storage).state matches Some(b) ==> b.width * 3 <= usize::MAX && b.height * 3 <= usize::MAX
            && panel_bounds_of(b.width as int, b.height as int).0 + 120 + input_text_width <= usize::MAX,
    ensures
        final(storage).wf(),
        match old(storage).state {
            Some(b) => {
                let (px, py, pw, ph) = panel_bounds_of(b.width as int, b.height as int);
                let divider = rect_drawn(b.base@, b.geometry(), px + 16, py + 73, if pw >= 32 { pw - 32 } else { 0 }, 1, Color { r: 55, g: 70, b: 95, a: 255 });
                &&& final(storage).state matches Some(n) && n.base == b.base && n.geometry() == b.geometry()
                    && n.frame@ == rect_drawn(divider, b.geometry(), px + 120 + input_text_width, py + 164, 12, 17, Color { r: 100, g: 255, b: 145, a: 255 })
                &&& r.0@.len() == 5
                &&& forall|i: int| 0 <= i < 5 ==> (#[trigger] r.0@[i]).x == terminal_labels(px, py, ph)[i].0
                    && r.0@[i].y == terminal_labels(px, py, ph)[i].1 && r.0@[i].scale == terminal_labels(px, py, ph)[i].2
                    && r.0@[i].text@ == terminal_label_styles()[i].0 && r.0@[i].color == terminal_label_styles()[i].1
                &&& r.1.input_x == px + 120 && r.1.input_y == py + 165
                &&& r.1.message == (if terminal.message_length > 0 { Some(((px + 16) as usize, (py + 205) as usize)) } else { None })
            },
            None => final(storage).state is None && r.0@.len() == 0,
        },
{
    if storage.state.is_none() {
        return (Vec::new(), TerminalTexts { input_x: 0, input_y: 0, message: None });
    }
    let width = crate::graphics::buffer::width(storage);
    let height = crate::graphics::buffer::height(storage);
    let (panel_x, panel_y, panel_width, panel_height) = panel_bounds(width, height);
    crate::graphics::buffer::begin_frame(storage);
    let mut texts: Vec<TextItem> = Vec::new();
    texts.push(TextItem { x: panel_x + 16, y: panel_y + 28, text: "RUSTY TERMINAL", color: Color::white(), scale: 2 });
    draw_rect(storage, panel_x + 16, panel_y + 73, panel_width.saturating_sub(32), 1, Color::border());
    texts.push(TextItem { x: panel_x + 16, y: panel_y + 97, text: "RUSTY SHELL", color: Color::green(), scale: 1 });
    texts.push(
        TextItem { x: panel_x + 16, y: panel_y + 127, text: "TYPE HELP FOR COMMANDS", color: Color::text_dim(), scale: 1 },
    );
    let prompt_y = panel_y + 165;
    texts.push(TextItem { x: panel_x + 16, y: prompt_y, text: "Terminal >", color: Color::cyan(), scale: 1 });
    let cursor_x = panel_x + 120 + input_text_width;
    draw_rect(storage, cursor_x, prompt_y - 1, 12, 17, Color::green());
    let message = if terminal.message_length > 0 {
        Some((panel_x + 16, panel_y + 205))
    } else {
        None
    };
    texts.push(
        TextItem { x: panel_x + 16, y: panel_y + panel_height.saturating_sub(34), text: "ESC BACK", color: Color::text_dim(), scale: 1 },
    );
    (texts, TerminalTexts { input_x: panel_x + 120, input_y: prompt_y, message })
}

} // verus!
