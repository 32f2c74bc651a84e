//! The launcher: which program runs, the menu selection and how keys move
//! it, and the menu screen's layout.

use vstd::prelude::*;
use crate::graphics::buffer::GraphicsStorage;
use crate::graphics::color::Color;
use crate::graphics::draw::{draw_rect, rect_drawn, TextItem};
use crate::graphics::ui::{panel_bounds, panel_bounds_of};
use crate::input::key::Key;

verus! {

/// The programs the kernel shows.
#[derive(Clone, Copy, Debug, PartialEq, Eq, Structural)]
pub enum Program {
    Launcher,
    Terminal,
}

/// Entries in the menu: terminal, files, settings.
pub const PROGRAM_COUNT: usize = 3;

/// The launcher's state: the program on screen and the menu entry
/// selected.
#[derive(Clone, Copy, Debug)]
pub struct Launcher {
    pub current: Program,
    pub selected: usize,
}

/// What the launcher's loop does after a key.
#[derive(Clone, Copy, Debug, PartialEq, Eq, Structural)]
pub enum LauncherAction {
    Ignore,
    Redraw,
    OpenTerminal,
}

/// The selected entry after `key`: Up and Down move within the three
/// entries, other keys keep it.
pub open spec fn selection_after(selected: usize, key: Key) -> usize {
    match key {
        Key::Up => if selected > 0 {
            (selected - 1) as usize
        } else {
            selected
        },
        Key::Down => if selected < 2 {
            (selected + 1) as usize
        } else {
            selected
        },
        _ => selected,
    }
}

/// Up undoes Down, and Down undoes Up, wherever the first move happens.
pub proof fn lemma_up_and_down_undo_each_other(selected: usize)
    requires
        selected < PROGRAM_COUNT,
    ensures
        selected < 2 ==> selection_after(selection_after(selected, Key::Down), Key::Up) == selected,
        selected > 0 ==> selection_after(selection_after(selected, Key::Up), Key::Down) == selected,
{
}

impl Launcher {
    /// The menu on screen with the first entry selected.
    pub fn new() -> (r: Self)
        ensures
            r.current == Program::Launcher,
            r.selected == 0,
    {
        Launcher { current: Program::Launcher, selected: 0 }
    }

    /// Handles a key in the menu: Up and Down move the selection within
    /// the entries (redrawing when it moves), Enter on the terminal entry
    /// opens it (the others do nothing yet), other keys are ignored.
    pub fn handle_key(&mut self, key: Key) -> (r: LauncherAction)
        requires
            old(self).current == Program::Launcher,
            old(self).selected < PROGRAM_COUNT,
        ensures
            final(self).selected < PROGRAM_COUNT,
            final(self).selected == selection_after(old(self).selected, key),
            match key {
                Key::Up => if old(self).selected > 0 {
                    r == LauncherAction::Redraw && final(self).selected == old(self).selected - 1
                        && final(self).current == Program::Launcher
                } else {
                    r == LauncherAction::Ignore && *final(self) == *old(self)
                },
                Key::Down => if old(self).selected < 2 {
                    r == LauncherAction::Redraw && final(self).selected == old(self).selected + 1
                        && final(self).current == Program::Launcher
                } else {
                    r == LauncherAction::Ignore && *final(self) == *old(self)
                },
                Key::Enter => if old(self).selected == 0 {
                    r == LauncherAction::OpenTerminal && final(self).current == Program::Terminal
                        && final(self).selected == 0
                } else {
                    r == LauncherAction::Ignore && *final(self) == *old(self)
                },
                _ => r == LauncherAction::Ignore && *final(self) == *old(self),
            },
    {
        match key {
            Key::Up => {
                if self.selected > 0 {
                    self.selected = self.selected - 1;
                    return LauncherAction::Redraw;
                }
                LauncherAction::Ignore
            },
            Key::Down => {
                if self.selected < 2 {
                    self.selected = self.selected + 1;
                    return LauncherAction::Redraw;
                }
                LauncherAction::Ignore
            },
            Key::Enter => {
                if self.selected == 0 {
                    self.current = Program::Terminal;
                    return LauncherAction::OpenTerminal;
                }
                LauncherAction::Ignore
            },
            _ => LauncherAction::Ignore,
        }
    }

    /// The terminal returned: the menu is back, with its selection.
    pub fn terminal_closed(&mut self)
        ensures
            final(self).current == Program::Launcher,
            final(self).selected == old(self).selected,
    {
        self.current = Program::Launcher;
    }
}

/// `frame` with a menu entry at (`x`, `y`) highlighted when `active`: a
/// light bar behind it and a green marker at its left.
pub open spec fn program_drawn(
    frame: Seq<u8>,
    b: crate::graphics::buffer::Geometry,
    x: int,
    y: int,
    active: bool,
) -> Seq<u8> {
    if active {
        let bx = if x >= 6 {
            x - 6
        } else {
            0
        };
        let by = if y >= 4 {
            y - 4
        } else {
            0
        };
        rect_drawn(
            rect_drawn(frame, b, bx, by, 210, 25, Color { r: 30, g: 37, b: 50, a: 255 }),
            b,
            bx,
            by,
            3,
            25,
            Color { r: 100, g: 255, b: 145, a: 255 },
        )
    } else {
        frame
    }
}

/// The texts of a menu entry: a ">" marker when active, and its name,
/// white when active, dim otherwise.
pub open spec fn program_texts(x: usize, y: usize, name: &'static str, active: bool) -> Seq<TextItem> {
    let label = TextItem {
        x: (x + 20) as usize,
        y,
        text: name,
        color: if active {
            Color { r: 245, g: 248, b: 255, a: 255 }
        } else {
            Color { r: 150, g: 165, b: 185, a: 255 }
        },
        scale: 1,
    };
    if active {
        seq![TextItem { x, y, text: ">", color: Color { r: 100, g: 255, b: 145, a: 255 }, scale: 1 }, label]
    } else {
        seq![label]
    }
}

/// Draws the highlight of menu entry `index` at (`x`, `y`) when it is the
/// selected one, and returns its texts.
pub fn draw_program(storage: &mut GraphicsStorage, x: usize, y: usize, name: &'static str, index: usize, selected: usize) -> (r:
    Vec<TextItem>)
    requires
        old(storage).wf(),
        x + 20 <= usize::MAX,
    ensures
        final(storage).wf(),
        r@ == program_texts(x, y, name, index == selected),
        match old(storage).state {
            Some(b) => final(storage).state matches Some(n) && n.base == b.base && n.geometry() == b.geometry()
                && n.frame@ == program_drawn(b.frame@, b.geometry(), x as int, y as int, index == selected),
            None => final(storage).state is None,
        },
{
    let active = index == selected;
    let mut texts: Vec<TextItem> = Vec::new();
    if active {
        draw_rect(storage, x.saturating_sub(6), y.saturating_sub(4), 210, 25, Color::panel_light());
        draw_rect(storage, x.saturating_sub(6), y.saturating_sub(4), 3, 25, Color::green());
        texts.push(TextItem { x, y, text: ">", color: Color::green(), scale: 1 });
    }
    let color = if active {
        Color::white()
    } else {
        Color::text_dim()
    };
    texts.push(TextItem { x: x + 20, y, text: name, color, scale: 1 });
    proof {
        assert(texts@ =~= program_texts(x, y, name, active));
    }
    texts
}

/// The menu's fixed texts for a panel at (`x`, `y`) of height `h`: the
/// USB and keyboard status, title, greeting and footer.
pub open spec fn launcher_texts(x: int, y: int, h: int, usb_initialized: bool, keyboard_detected: bool) -> Seq<TextItem> {
    let green = Color { r: 100, g: 255, b: 145, a: 255 };
    let dim = Color { r: 150, g: 165, b: 185, a: 255 };
    seq![
        TextItem {
            x: (x + 16) as usize,
            y: (y + 10) as usize,
            text: if usb_initialized {
                "USB: INITIALIZED"
            } else {
                "USB: FAILED"
            },
            color: if usb_initialized {
                green
            } else {
                dim
            },
            scale: 1,
        },
        TextItem {
            x: (x + 16) as usize,
            y: (y + 28) as usize,
            text: if keyboard_detected {
                "KEYBOARD: DETECTED"
            } else {
                "KEYBOARD: NOT FOUND"
            },
            color: if keyboard_detected {
                green
            } else {
                dim
            },
            scale: 1,
        },
        TextItem {
            x: (x + 16) as usize,
            y: (y + 55) as usize,
            text: "RUSTY OS",
            color: Color { r: 245, g: 248, b: 255, a: 255 },
            scale: 2,
        },
        TextItem { x: (x + 16) as usize, y: (y + 100) as usize, text: "WELCOME", color: dim, scale: 1 },
    ]
}

/// Draws the menu screen over the base picture (divider and the selected
/// entry's highlight) and returns every text for the font renderer:
/// status, title, greeting, the three entries and the footer.
pub fn draw_launcher(storage: &mut GraphicsStorage, selected: usize, usb_initialized: bool, keyboard_detected: bool) -> (r:
    Vec<TextItem>)
    requires
        old(storage).wf(),
        old(storage).state matches Some(b) ==> b.width * 3 <= usize::MAX && b.height * 3 <= usize::MAX,
    ensures
        final(storage).wf(),
        match old(storage).state {
            Some(b) => {
                let (px, py, pw, ph) = panel_bounds_of(b.width as int, b.height as int);
                let geo = b.geometry();
                let divider = rect_drawn(
                    b.base@,
                    geo,
                    px + 16,
                    py + 120,
                    if pw >= 32 {
                        pw - 32
                    } else {
                        0
                    },
                    1,
                    Color { r: 55, g: 70, b: 95, a: 255 },
                );
                let entries = program_drawn(
                    program_drawn(
                        program_drawn(divider, geo, px + 16, py + 140, selected == 0),
                        geo,
                        px + 16,
                        py + 176,
                        selected == 1,
                    ),
                    geo,
                    px + 16,
                    py + 212,
                    selected == 2,
                );
                &&& final(storage).state matches Some(n) && n.base == b.base && n.geometry() == geo && n.frame@
                    == entries
                &&& r@ == launcher_texts(px, py, ph, usb_initialized, keyboard_detected) + program_texts(
                    (px + 16) as usize,
                    (py + 140) as usize,
                    "TERMINAL",
                    selected == 0,
                ) + program_texts((px + 16) as usize, (py + 176) as usize, "FILES", selected == 1) + program_texts(
                    (px + 16) as usize,
                    (py + 212) as usize,
                    "SETTINGS",
                    selected == 2,
                ) + seq![
                    TextItem {
                        x: (px + 16) as usize,
                        y: (py + (if ph >= 34 {
                            ph - 34
                        } else {
                            0
                        })) as usize,
                        text: "UP DOWN NAVIGATE   ENTER OPEN",
                        color: Color { r: 150, g: 165, b: 185, a: 255 },
                        scale: 1,
                    },
                ]
            },
            None => final(storage).state is None && r@.len() == 0,
        },
{
    if storage.state.is_none() {
        return Vec::new();
    }
    let width = crate::graphics::buffer::width(storage);
    let height = crate::graphics::buffer::height(storage);
    let (panel_x, panel_y, panel_width, panel_height) = panel_bounds(width, height);
    crate::graphics::buffer::begin_frame(storage);
    let status_x = panel_x + 16;
    let status_y = panel_y + 10;
    let mut texts: Vec<TextItem> = Vec::new();
    if usb_initialized {
        texts.push(TextItem { x: status_x, y: status_y, text: "USB: INITIALIZED", color: Color::green(), scale: 1 });
    } else {
        texts.push(TextItem { x: status_x, y: status_y, text: "USB: FAILED", color: Color::text_dim(), scale: 1 });
    }
    if keyboard_detected {
        texts.push(
            TextItem { x: status_x, y: status_y + 18, text: "KEYBOARD: DETECTED", color: Color::green(), scale: 1 },
        );
    } else {
        texts.push(
            TextItem { x: status_x, y: status_y + 18, text: "KEYBOARD: NOT FOUND", color: Color::text_dim(), scale: 1 },
        );
    }
    texts.push(TextItem { x: panel_x + 16, y: panel_y + 55, text: "RUSTY OS", color: Color::white(), scale: 2 });
    texts.push(TextItem { x: panel_x + 16, y: panel_y + 100, text: "WELCOME", color: Color::text_dim(), scale: 1 });
    draw_rect(storage, panel_x + 16, panel_y + 120, panel_width.saturating_sub(32), 1, Color::border());
    let ghost fixed = texts@;
    let first = draw_program(storage, panel_x + 16, panel_y + 140, "TERMINAL", 0, selected);
    let second = draw_program(storage, panel_x + 16, panel_y + 176, "FILES", 1, selected);
    let third = draw_program(storage, panel_x + 16, panel_y + 212, "SETTINGS", 2, selected);
    let mut all = texts;
    append_texts(&mut all, &first);
    append_texts(&mut all, &second);
    append_texts(&mut all, &third);
    all.push(
        TextItem {
            x: panel_x + 16,
            y: panel_y + panel_height.saturating_sub(34),
            text: "UP DOWN NAVIGATE   ENTER OPEN",
            color: Color::text_dim(),
            scale: 1,
        },
    );
    proof {
        let (px, py, pw, ph) = panel_bounds_of(width as int, height as int);
        assert(fixed =~= launcher_texts(px, py, ph, usb_initialized, keyboard_detected));
    }
    all
}

/// Appends `more` to `texts`.
fn append_texts(texts: &mut Vec<TextItem>, more: &Vec<TextItem>)
    ensures
        final(texts)@ == old(texts)@ + more@,
{
    let mut i: usize = 0;
    while i < more.len()
        invariant
            i <= more@.len(),
            texts@ == old(texts)@ + more@.take(i as int),
        decreases more@.len() - i,
    {
        texts.push(more[i]);
        proof {
            assert(texts@ =~= old(texts)@ + more@.take(i + 1));
        }
        i = i + 1;
    }
    proof {
        assert(more@.take(i as int) =~= more@);
    }
}

} // verus!
