//! The boot screen: a centred window with one status row per boot step,
//! each with an indicator, a progress bar and its message.

use vstd::prelude::*;

use crate::graphics::draw::TextItem;
use crate::graphics::Color;
use crate::wm::compositor::{background, composite, windows_in_draw_order};
use crate::wm::window::pixel_at;
use crate::wm::Compositor;

verus! {

/// Width of the boot window.
pub const BOOT_WINDOW_WIDTH: usize = 420;

/// Height of the boot window.
pub const BOOT_WINDOW_HEIGHT: usize = 240;

/// Height of the boot window's header bar.
pub const BOOT_HEADER_HEIGHT: usize = 32;

/// Colour of the header bar.
pub const BOOT_HEADER_COLOR: u32 = 0xFF31_3244;

/// Colour of the window body.
pub const BOOT_BODY_COLOR: u32 = 0xFF1E_1E2E;

/// Colour of an empty progress track.
pub const BOOT_TRACK_COLOR: u32 = 0xFF45_475A;

/// Number of boot steps, one status row each.
pub const BOOT_STEPS: usize = 4;

/// Status colour: done.
pub const STATUS_OK: u32 = 0xFFA6_E3A1;

/// Status colour: failed.
pub const STATUS_ERROR: u32 = 0xFFF3_8BA8;

/// Status colour: a device is ready.
pub const STATUS_READY: u32 = 0xFF89_B4FA;

/// Status colour: a device is missing.
pub const STATUS_WARNING: u32 = 0xFFF9_E2AF;

/// Status colour: in progress.
pub const STATUS_BUSY: u32 = 0xFFCB_A6F7;

/// A point of the boot sequence that the screen reports.
#[derive(Clone, Copy, Debug, PartialEq, Eq, Structural)]
pub enum BootStage {
    CoreReady,
    ControllerMissing,
    ControllerReady,
    KeyboardReady,
    KeyboardMissing,
    Finalizing,
    Complete,
}

/// The status row, colour and message that report a stage.
pub open spec fn stage_status_of(stage: BootStage) -> (usize, u32, &'static str) {
    match stage {
        BootStage::CoreReady => (0, STATUS_OK, "Task 1/4: Core Systems (GDT/IDT/Mem) OK"),
        BootStage::ControllerMissing => (1, STATUS_ERROR, "Task 2/4: ERROR - xHCI controller not found!"),
        BootStage::ControllerReady => (1, STATUS_OK, "Task 2/4: xHCI Controller Initialized"),
        BootStage::KeyboardReady => (2, STATUS_READY, "Task 3/4: USB Keyboard Detected & Ready"),
        BootStage::KeyboardMissing => (2, STATUS_WARNING, "Task 3/4: Warning - USB Keyboard not found"),
        BootStage::Finalizing => (3, STATUS_BUSY, "Task 4/4: Finalizing..."),
        BootStage::Complete => (3, STATUS_OK, "Task 4/4: Boot Sequence Complete!"),
    }
}

/// The status row, colour and message that report a stage.
pub fn stage_status(stage: BootStage) -> (r: (usize, u32, &'static str))
    ensures
        r == stage_status_of(stage),
        r.0 < BOOT_STEPS,
{
    match stage {
        BootStage::CoreReady => (0, STATUS_OK, "Task 1/4: Core Systems (GDT/IDT/Mem) OK"),
        BootStage::ControllerMissing => (1, STATUS_ERROR, "Task 2/4: ERROR - xHCI controller not found!"),
        BootStage::ControllerReady => (1, STATUS_OK, "Task 2/4: xHCI Controller Initialized"),
        BootStage::KeyboardReady => (2, STATUS_READY, "Task 3/4: USB Keyboard Detected & Ready"),
        BootStage::KeyboardMissing => (2, STATUS_WARNING, "Task 3/4: Warning - USB Keyboard not found"),
        BootStage::Finalizing => (3, STATUS_BUSY, "Task 4/4: Finalizing..."),
        BootStage::Complete => (3, STATUS_OK, "Task 4/4: Boot Sequence Complete!"),
    }
}

/// The coordinate that centres `size` pixels on a `screen` pixels long
/// axis: half the difference, rounded towards zero.
pub open spec fn centred(screen: usize, size: usize) -> i32 {
    let d = screen - size;
    (if d >= 0 {
        d / 2
    } else {
        -((-d) / 2)
    }) as i32
}

fn centred_exec(screen: usize, size: usize) -> (r: i32)
    requires
        screen <= i32::MAX,
        size <= BOOT_WINDOW_WIDTH,
    ensures
        r == centred(screen, size),
{
    let d: i64 = screen as i64 - size as i64;
    if d >= 0 {
        (d / 2) as i32
    } else {
        (-((-d) / 2)) as i32
    }
}

/// The top of status row `step`.
pub open spec fn status_row(step: int) -> int {
    50 + step * 45
}

/// A boot window pixel after status row `step` is redrawn in `color`:
/// the progress bar (85 pixels per step done), its track, the cleared
/// message line and the indicator, each over what is below it.
pub open spec fn status_pixel(p: u32, x: int, y: int, step: int, color: u32) -> u32 {
    let row = status_row(step);
    if 45 <= x < 45 + 85 + step * 85 && row + 22 <= y < row + 26 {
        color
    } else if 45 <= x < 385 && row + 22 <= y < row + 26 {
        BOOT_TRACK_COLOR
    } else if 45 <= x < 395 && row <= y < row + 20 {
        BOOT_BODY_COLOR
    } else if 20 <= x < 34 && row <= y < row + 14 {
        color
    } else {
        p
    }
}

/// The text lines of the first `n` status rows: each non-empty message
/// in white at the top of its row.
pub open spec fn status_texts(messages: Seq<&'static str>, n: int) -> Seq<TextItem>
    decreases n,
{
    if n <= 0 {
        Seq::empty()
    } else {
        status_texts(messages, n - 1) + if messages[n - 1]@.len() == 0 {
            Seq::empty()
        } else {
            seq![
                TextItem {
                    x: 45,
                    y: status_row(n - 1) as usize,
                    text: messages[n - 1],
                    color: Color { r: 245, g: 248, b: 255, a: 255 },
                    scale: 1,
                },
            ]
        }
    }
}

/// The screen was composed from the windows `wm` now holds.
pub open spec fn composed(wm: Compositor) -> bool {
    wm.backbuffer@ == composite(
        background(wm.screen_width as int, wm.screen_height as int),
        wm.screen_width as int,
        windows_in_draw_order(wm.windows@),
    )
}

/// The boot screen: its window, if it has one, and the message of each
/// status row so far (empty before the row is first reported).
pub struct BootScreen {
    pub window: Option<u64>,
    pub messages: Vec<&'static str>,
}

impl BootScreen {
    /// One message per status row.
    pub open spec fn wf(&self) -> bool {
        self.messages@.len() == BOOT_STEPS
    }

    fn empty_messages() -> (r: Vec<&'static str>)
        ensures
            r@ == seq!["", "", "", ""],
    {
        let mut messages: Vec<&'static str> = Vec::new();
        messages.push("");
        messages.push("");
        messages.push("");
        messages.push("");
        proof {
            assert(messages@ =~= seq!["", "", "", ""]);
        }
        messages
    }

    /// A boot screen without a window: status updates only record their
    /// messages.
    pub fn without_window() -> (r: Self)
        ensures
            r.wf(),
            r.window is None,
            r.messages@ == seq!["", "", "", ""],
    {
        BootScreen { window: None, messages: Self::empty_messages() }
    }

    /// Opens the boot window centred on the screen, header bar above the
    /// body, and composes the screen.
    pub fn open(wm: &mut Compositor) -> (r: Self)
        requires
            old(wm).wf(),
            old(wm).screen_width <= i32::MAX,
            old(wm).screen_height <= i32::MAX,
        ensures
            r.wf(),
            r.window == Some(old(wm).next_id()),
            r.messages@ == seq!["", "", "", ""],
            final(wm).wf(),
            final(wm).window_table() == old(wm).window_table().insert(
                old(wm).next_id(),
                final(wm).window_table()[old(wm).next_id()],
            ),
            ({
                let w = final(wm).window_table()[old(wm).next_id()];
                &&& w.x == centred(old(wm).screen_width, BOOT_WINDOW_WIDTH)
                &&& w.y == centred(old(wm).screen_height, BOOT_WINDOW_HEIGHT)
                &&& w.width == BOOT_WINDOW_WIDTH
                &&& w.height == BOOT_WINDOW_HEIGHT
                &&& w.z_index == old(wm).next_z()
                &&& forall|x: int, y: int|
                    w.contains(x, y) ==> #[trigger] pixel_at(w.pixels@, w.width as int, x, y) == if y
                        < BOOT_HEADER_HEIGHT {
                        BOOT_HEADER_COLOR
                    } else {
                        BOOT_BODY_COLOR
                    }
            }),
            composed(*final(wm)),
            final(wm).screen_width == old(wm).screen_width,
            final(wm).screen_height == old(wm).screen_height,
            final(wm).pointer() == old(wm).pointer(),
    {
        let x = centred_exec(wm.screen_width, BOOT_WINDOW_WIDTH);
        let y = centred_exec(wm.screen_height, BOOT_WINDOW_HEIGHT);
        let id = wm.create_window(x, y, BOOT_WINDOW_WIDTH, BOOT_WINDOW_HEIGHT);
        let ghost created = wm.window_table()[id];
        proof {
            assert(wm.window_table().contains_key(id));
        }
        wm.fill_window_rect(id, 0, 0, BOOT_WINDOW_WIDTH, BOOT_HEADER_HEIGHT, BOOT_HEADER_COLOR);
        let ghost headed = wm.window_table()[id];
        wm.fill_window_rect(
            id,
            0,
            BOOT_HEADER_HEIGHT,
            BOOT_WINDOW_WIDTH,
            BOOT_WINDOW_HEIGHT - BOOT_HEADER_HEIGHT,
            BOOT_BODY_COLOR,
        );
        let ghost table = wm.window_table();
        wm.draw();
        proof {
            let w = table[id];
            assert(table =~= old(wm).window_table().insert(id, w));
            assert forall|px: int, py: int| w.contains(px, py) implies #[trigger] pixel_at(
                w.pixels@,
                w.width as int,
                px,
                py,
            ) == if py < BOOT_HEADER_HEIGHT {
                BOOT_HEADER_COLOR
            } else {
                BOOT_BODY_COLOR
            } by {
                assert(pixel_at(headed.pixels@, headed.width as int, px, py) == if py < BOOT_HEADER_HEIGHT {
                    BOOT_HEADER_COLOR
                } else {
                    pixel_at(created.pixels@, created.width as int, px, py)
                });
            }
        }
        BootScreen { window: Some(id), messages: Self::empty_messages() }
    }

    /// Records `message` for status row `step` and, when the screen has a
    /// window, redraws that row in `color` and returns the message lines to
    /// draw into the window before the screen is composed again (none when
    /// the window is gone).  Without a window nothing is drawn and `None`
    /// comes back.
    pub fn update_status(&mut self, wm: &mut Compositor, step: usize, color: u32, message: &'static str) -> (r:
        Option<Vec<TextItem>>)
        requires
            old(self).wf(),
            old(wm).wf(),
            step < BOOT_STEPS,
        ensures
            final(self).wf(),
            final(self).window == old(self).window,
            final(self).messages@ == old(self).messages@.update(step as int, message),
            final(wm).wf(),
            final(wm).screen_width == old(wm).screen_width,
            final(wm).screen_height == old(wm).screen_height,
            final(wm).backbuffer == old(wm).backbuffer,
            final(wm).hardware_framebuffer == old(wm).hardware_framebuffer,
            final(wm).pointer() == old(wm).pointer(),
            final(wm).cursor_drawn() == old(wm).cursor_drawn(),
            final(wm).next_id() == old(wm).next_id(),
            final(wm).next_z() == old(wm).next_z(),
            match old(self).window {
                None => r is None && final(wm).window_table() == old(wm).window_table(),
                Some(id) => {
                    &&& r is Some
                    &&& old(wm).window_table().contains_key(id) ==> {
                        let before = old(wm).window_table()[id];
                        let after = final(wm).window_table()[id];
                        &&& r.unwrap()@ == status_texts(final(self).messages@, BOOT_STEPS as int)
                        &&& final(wm).window_table() == old(wm).window_table().insert(id, after)
                        &&& after.wf()
                        &&& after.same_frame(before)
                        &&& forall|x: int, y: int|
                            before.contains(x, y) ==> #[trigger] pixel_at(after.pixels@, before.width as int, x, y)
                                == status_pixel(
                                pixel_at(before.pixels@, before.width as int, x, y),
                                x,
                                y,
                                step as int,
                                color,
                            )
                    }
                    &&& !old(wm).window_table().contains_key(id) ==> r.unwrap()@.len() == 0
                        && final(wm).window_table() == old(wm).window_table()
                },
            },
    {
        self.messages.set(step, message);
        let id = match self.window {
            None => {
                return None;
            },
            Some(id) => id,
        };
        let row = 50 + step * 45;
        if !wm.fill_window_rect(id, 20, row, 14, 14, color) {
            return Some(Vec::new());
        }
        let ghost w0 = old(wm).window_table()[id];
        let ghost w1 = wm.window_table()[id];
        wm.fill_window_rect(id, 45, row, 350, 20, BOOT_BODY_COLOR);
        let ghost w2 = wm.window_table()[id];
        wm.fill_window_rect(id, 45, row + 22, 340, 4, BOOT_TRACK_COLOR);
        let ghost w3 = wm.window_table()[id];
        wm.fill_window_rect(id, 45, row + 22, 85 + step * 85, 4, color);
        let ghost w4 = wm.window_table()[id];
        proof {
            assert(wm.window_table() =~= old(wm).window_table().insert(id, w4));
            assert forall|x: int, y: int| w0.contains(x, y) implies #[trigger] pixel_at(
                w4.pixels@,
                w0.width as int,
                x,
                y,
            ) == status_pixel(pixel_at(w0.pixels@, w0.width as int, x, y), x, y, step as int, color) by {
                assert(pixel_at(w1.pixels@, w0.width as int, x, y) == pixel_at(w1.pixels@, w1.width as int, x, y));
                assert(pixel_at(w2.pixels@, w1.width as int, x, y) == pixel_at(w2.pixels@, w2.width as int, x, y));
                assert(pixel_at(w3.pixels@, w2.width as int, x, y) == pixel_at(w3.pixels@, w3.width as int, x, y));
            }
        }
        let mut texts: Vec<TextItem> = Vec::new();
        let mut i: usize = 0;
        while i < BOOT_STEPS
            invariant
                i <= BOOT_STEPS,
                self.messages@.len() == BOOT_STEPS,
                texts@ == status_texts(self.messages@, i as int),
            decreases BOOT_STEPS - i,
        {
            let message = self.messages[i];
            if !message.is_empty() {
                texts.push(TextItem { x: 45, y: 50 + i * 45, text: message, color: Color::white(), scale: 1 });
            }
            proof {
                assert(texts@ =~= status_texts(self.messages@, i + 1));
            }
            i = i + 1;
        }
        Some(texts)
    }

    /// Closes the boot window, if there is one, and composes the screen
    /// again.
    pub fn close(&self, wm: &mut Compositor)
        requires
            old(wm).wf(),
        ensures
            final(wm).wf(),
            match self.window {
                None => *final(wm) == *old(wm),
                Some(id) => final(wm).window_table() == old(wm).window_table().remove(id) && composed(*final(wm)),
            },
            final(wm).screen_width == old(wm).screen_width,
            final(wm).screen_height == old(wm).screen_height,
            final(wm).pointer() == old(wm).pointer(),
    {
        match self.window {
            None => {},
            Some(id) => {
                wm.destroy_window(id);
                wm.draw();
            },
        }
    }
}

} // verus!
