use rusty::boot::{
    stage_status, BootScreen, BootStage, BOOT_BODY_COLOR, BOOT_HEADER_COLOR, BOOT_TRACK_COLOR, STATUS_ERROR, STATUS_OK,
};
use rusty::graphics::color::Color;
use rusty::graphics::draw::GlyphRaster;
use rusty::syscall::{syscall_draw_string, syscall_draw_string_text, SyscallFrame};
use rusty::wm::compositor::Compositor;
use rusty::wm::window::{TextGlyph, Window, WINDOW_BACKGROUND};

fn bar(advance: i32) -> TextGlyph {
    TextGlyph::Shape {
        raster: GlyphRaster { offset_x: 0, offset_y: 0, width: 2, height: 1, coverage: vec![255, 0] },
        advance,
    }
}

fn colour() -> Color {
    Color { r: 0x10, g: 0x20, b: 0x30, a: 255 }
}

const INK: u32 = 0xFF10_2030;

fn at(window: &Window, x: usize, y: usize) -> u32 {
    window.pixels[y * window.width + x]
}

#[test]
fn window_strings_follow_the_pen() {
    let mut window = Window::new(1, 0, 0, 8, 8, 0);
    let glyphs = vec![bar(3), bar(3), TextGlyph::LineBreak, TextGlyph::Blank { advance: 2 }, bar(3)];
    window.draw_string(1, 2, &glyphs, 1, 4, colour(), 1);
    // Line top 2, ascent 1: shapes sit on row 3, at x = 1 and x = 4.
    assert_eq!(at(&window, 1, 3), INK);
    assert_eq!(at(&window, 2, 3), WINDOW_BACKGROUND);
    assert_eq!(at(&window, 4, 3), INK);
    // The next line starts at x = 1, four rows lower; the blank moves the pen by 2.
    assert_eq!(at(&window, 1, 7), WINDOW_BACKGROUND);
    assert_eq!(at(&window, 3, 7), INK);
}

#[test]
fn window_strings_stop_at_the_edges() {
    let mut window = Window::new(1, 0, 0, 8, 8, 0);
    // The pen passes the right edge after the first shape.
    window.draw_string(0, 0, &[bar(10), bar(1)], 0, 4, colour(), 1);
    assert_eq!(at(&window, 0, 0), INK);
    assert_eq!(window.pixels.iter().filter(|p| **p == INK).count(), 1);

    let mut window = Window::new(1, 0, 0, 8, 8, 0);
    // The second line would start below the window.
    window.draw_string(0, 0, &[TextGlyph::LineBreak, TextGlyph::LineBreak, bar(1)], 0, 4, colour(), 1);
    assert!(window.pixels.iter().all(|p| *p == WINDOW_BACKGROUND));

    let mut window = Window::new(1, 0, 0, 8, 8, 0);
    // A carriage return goes back to the line start.
    window.draw_string(2, 0, &[TextGlyph::Blank { advance: 3 }, TextGlyph::CarriageReturn, bar(1)], 0, 4, colour(), 1);
    assert_eq!(at(&window, 2, 0), INK);
    assert_eq!(at(&window, 5, 0), WINDOW_BACKGROUND);
}

#[test]
fn window_strings_need_a_scale() {
    let mut window = Window::new(1, 0, 0, 8, 8, 0);
    window.draw_string(0, 0, &[bar(1)], 0, 4, colour(), 0);
    assert!(window.pixels.iter().all(|p| *p == WINDOW_BACKGROUND));
}

fn frame(window: u64) -> SyscallFrame {
    SyscallFrame {
        rax: 8, rbx: 0, rcx: 0, rdx: 1, rsi: 2, rdi: window, rbp: 0, r8: 0, r9: 1, r10: 0, r11: 0, r12: 0, r13: 0,
        r14: 0, r15: 0,
    }
}

#[test]
fn draw_string_syscall_draws_in_white() {
    let mut wm = Compositor::init(64, 64);
    let id = wm.create_window(0, 0, 16, 16);
    let mut manager = Some(wm);
    assert_eq!(syscall_draw_string(&mut manager, &frame(id), Some(&[bar(1)][..]), 0, 4), 1);
    let wm = manager.as_ref().unwrap();
    let window = &wm.windows[0];
    assert_eq!(at(window, 2, 1), 0xFFF5_F8FF);
    assert_eq!(syscall_draw_string(&mut manager, &frame(id), None, 0, 4), 0);
    assert_eq!(syscall_draw_string(&mut manager, &frame(id + 1), Some(&[bar(1)][..]), 0, 4), 0);
    let mut none: Option<Compositor> = None;
    assert_eq!(syscall_draw_string(&mut none, &frame(id), Some(&[bar(1)][..]), 0, 4), 0);
}

#[test]
fn draw_string_text_must_be_utf8() {
    assert_eq!(syscall_draw_string_text(Some(&b"hi"[..])), Some("hi"));
    assert_eq!(syscall_draw_string_text(Some(&[0xFFu8, 0x41][..])), None);
    assert_eq!(syscall_draw_string_text(None), None);
}

#[test]
fn boot_window_is_centred() {
    let mut wm = Compositor::init(800, 600);
    let screen = BootScreen::open(&mut wm);
    assert_eq!(screen.window, Some(1));
    let window = &wm.windows[0];
    assert_eq!((window.x, window.y, window.width, window.height), (190, 180, 420, 240));
    assert_eq!(at(window, 0, 0), BOOT_HEADER_COLOR);
    assert_eq!(at(window, 419, 31), BOOT_HEADER_COLOR);
    assert_eq!(at(window, 0, 32), BOOT_BODY_COLOR);
    assert!(screen.messages.iter().all(|m| m.is_empty()));

    // On a screen smaller than the window the offset rounds towards zero.
    let mut small = Compositor::init(401, 201);
    BootScreen::open(&mut small);
    assert_eq!((small.windows[0].x, small.windows[0].y), (-9, -19));
}

#[test]
fn boot_status_rows_are_drawn() {
    let mut wm = Compositor::init(800, 600);
    let mut screen = BootScreen::open(&mut wm);
    let (step, color, message) = stage_status(BootStage::CoreReady);
    assert_eq!((step, color), (0, STATUS_OK));
    let texts = screen.update_status(&mut wm, step, color, message).unwrap();
    assert_eq!(texts.len(), 1);
    assert_eq!((texts[0].x, texts[0].y, texts[0].text), (45, 50, "Task 1/4: Core Systems (GDT/IDT/Mem) OK"));

    let (step, color, message) = stage_status(BootStage::ControllerMissing);
    assert_eq!((step, color, message), (1, STATUS_ERROR, "Task 2/4: ERROR - xHCI controller not found!"));
    let texts = screen.update_status(&mut wm, step, color, message).unwrap();
    assert_eq!(texts.len(), 2);
    assert_eq!(texts[1].y, 95);
    let window = &wm.windows[0];
    // Indicator, progress bar (170 pixels for the second row), track and cleared line.
    assert_eq!(at(window, 20, 95), STATUS_ERROR);
    assert_eq!(at(window, 214, 117), STATUS_ERROR);
    assert_eq!(at(window, 215, 117), BOOT_TRACK_COLOR);
    assert_eq!(at(window, 50, 95), BOOT_BODY_COLOR);
    assert_eq!(at(window, 19, 95), BOOT_BODY_COLOR);

    screen.close(&mut wm);
    assert!(wm.windows.is_empty());
}

#[test]
fn boot_screen_without_window_only_records() {
    let mut wm = Compositor::init(100, 100);
    let mut screen = BootScreen::without_window();
    assert!(screen.update_status(&mut wm, 3, STATUS_OK, "done").is_none());
    assert_eq!(screen.messages[3], "done");
    assert!(wm.windows.is_empty());
}
