use rusty::graphics::buffer::{begin_frame, height, init, is_initialized, present, width, GraphicsStorage, PixelFormat};
use rusty::graphics::color::Color;
use rusty::graphics::draw::{
    clear_screen, draw_border, draw_char, draw_pixel, draw_pixel_alpha, draw_progress_bar, draw_rect, draw_status_dot,
    GlyphRaster,
};
use rusty::graphics::ui::{build_base, panel_bounds};
use rusty::input::key::Key;
use rusty::launcher::{draw_launcher, draw_program, Launcher, LauncherAction, Program};
use rusty::serial::LogPiece;
use rusty::terminal::{equals, execute_command, redraw, Terminal, TerminalAction, MAX_MESSAGE};
use rusty::usb::devices::{parse_keyboard_report, parse_mouse_report};
use rusty::usb::init::{is_initialized as usb_ready, service_usb, UsbStatus};
use rusty::usb::mouse::announce;
use rusty::wasm::{host_write, run_demo};

fn storage(w: usize, h: usize, format: PixelFormat, bpp: usize) -> GraphicsStorage {
    let mut s = GraphicsStorage::new();
    init(&mut s, w, h, w, bpp, format).unwrap();
    s
}

fn frame(s: &GraphicsStorage) -> &Vec<u8> {
    &s.state.as_ref().unwrap().frame
}

#[test]
fn init_checks_the_geometry() {
    let mut s = GraphicsStorage::new();
    assert!(!is_initialized(&s));
    assert_eq!(width(&s), 0);
    assert_eq!(init(&mut s, 10, 5, 8, 4, PixelFormat::Rgb), Err("Rusty: framebuffer stride is smaller than its width"));
    assert_eq!(init(&mut s, 4, usize::MAX, 4, 4, PixelFormat::Rgb), Err("Rusty: framebuffer size overflow"));
    assert_eq!(init(&mut s, 4, 3, 4, 4, PixelFormat::Bgr), Ok(()));
    assert!(is_initialized(&s));
    assert_eq!((width(&s), height(&s)), (4, 3));
    assert_eq!(frame(&s).len(), 48);
}

#[test]
fn rectangles_are_clipped_and_ordered_by_format() {
    let mut s = storage(4, 3, PixelFormat::Bgr, 4);
    draw_rect(&mut s, 2, 1, 10, 10, Color { r: 1, g: 2, b: 3, a: 255 });
    let f = frame(&s);
    // Pixel (2,1) and (3,2) painted in BGR order, byte 3 untouched.
    assert_eq!(&f[(1 * 4 + 2) * 4..(1 * 4 + 2) * 4 + 4], &[3, 2, 1, 0]);
    assert_eq!(&f[(2 * 4 + 3) * 4..(2 * 4 + 3) * 4 + 4], &[3, 2, 1, 0]);
    // Pixel (1,1) untouched.
    assert_eq!(&f[(1 * 4 + 1) * 4..(1 * 4 + 1) * 4 + 4], &[0, 0, 0, 0]);
    let before = f.clone();
    draw_rect(&mut s, 4, 0, 2, 2, Color { r: 9, g: 9, b: 9, a: 255 });
    assert_eq!(frame(&s), &before);
}

#[test]
fn pixels_and_clear() {
    let mut s = storage(3, 2, PixelFormat::U8, 1);
    draw_pixel(&mut s, 1, 1, Color { r: 7, g: 8, b: 9, a: 255 });
    assert_eq!(frame(&s), &vec![0, 0, 0, 0, 7, 0]);
    clear_screen(&mut s, Color { r: 5, g: 0, b: 0, a: 255 });
    assert_eq!(frame(&s), &vec![5; 6]);
}

#[test]
fn border_progress_and_dot() {
    let mut s = storage(6, 4, PixelFormat::U8, 1);
    draw_border(&mut s, 0, 0, 6, 4, Color { r: 1, g: 0, b: 0, a: 255 });
    assert_eq!(frame(&s), &vec![1, 1, 1, 1, 1, 1, 1, 0, 0, 0, 0, 1, 1, 0, 0, 0, 0, 1, 1, 1, 1, 1, 1, 1]);
    let mut p = storage(6, 4, PixelFormat::U8, 1);
    draw_progress_bar(&mut p, 0, 0, 6, 4, 50, Color { r: 9, g: 0, b: 0, a: 255 });
    // Border 55, inside two of four columns filled.
    assert_eq!(&frame(&p)[6..12], &[55, 9, 9, 0, 0, 55]);
    let mut d = storage(6, 6, PixelFormat::U8, 1);
    draw_status_dot(&mut d, 0, 0, Color { r: 3, g: 0, b: 0, a: 255 });
    assert_eq!(frame(&d).iter().filter(|b| **b == 3).count(), 25);
}

#[test]
fn alpha_blending() {
    let mut s = storage(1, 1, PixelFormat::Rgb, 3);
    draw_pixel_alpha(&mut s, 0, 0, Color { r: 255, g: 0, b: 100, a: 255 });
    assert_eq!(frame(&s), &vec![255, 0, 100]);
    draw_pixel_alpha(&mut s, 0, 0, Color { r: 0, g: 255, b: 100, a: 51 });
    assert_eq!(frame(&s), &vec![204, 51, 100]);
    draw_pixel_alpha(&mut s, 0, 0, Color { r: 0, g: 0, b: 0, a: 0 });
    assert_eq!(frame(&s), &vec![204, 51, 100]);
}

#[test]
fn characters_blend_their_coverage() {
    let mut s = storage(4, 4, PixelFormat::U8, 1);
    let glyph = GlyphRaster { offset_x: 0, offset_y: -2, width: 2, height: 1, coverage: vec![255, 0] };
    draw_char(&mut s, 1, 0, &glyph, 3, Color { r: 200, g: 0, b: 0, a: 255 }, 1);
    assert_eq!(frame(&s)[1 * 4 + 1], 200);
    assert_eq!(frame(&s)[1 * 4 + 2], 0);
    let before = frame(&s).clone();
    draw_char(&mut s, 1, 0, &glyph, 3, Color { r: 100, g: 0, b: 0, a: 255 }, 0);
    assert_eq!(frame(&s), &before);
}

#[test]
fn the_base_picture_and_frames() {
    let mut s = storage(200, 200, PixelFormat::Rgb, 3);
    build_base(&mut s);
    let b = s.state.as_ref().unwrap();
    assert_eq!(b.base, b.frame);
    // Row 0 is a scanline outside the panel.
    assert_eq!(&b.base[0..3], &[20, 25, 40]);
    // Row 1 is gradient: t = 255 / 199 = 1.
    assert_eq!(&b.base[200 * 3..200 * 3 + 3], &[7, 9, 18]);
    let (px, py, pw, ph) = panel_bounds(200, 200);
    assert_eq!((px, py, pw, ph), (25, 25, 150, 150));
    // Inside the panel body.
    let offset = ((py + 50) * 200 + px + 50) * 3;
    assert_eq!(&b.base[offset..offset + 3], &[20, 25, 35]);
    draw_rect(&mut s, 0, 0, 1, 1, Color { r: 1, g: 1, b: 1, a: 255 });
    begin_frame(&mut s);
    let b = s.state.as_ref().unwrap();
    assert_eq!(b.base, b.frame);
    assert_eq!(present(&s, 6), b.frame[0..6].to_vec());
}

#[test]
fn terminal_commands() {
    let mut line = [0u8; 40];
    line[..4].copy_from_slice(b"help");
    assert!(equals(&line, 4, b"help"));
    assert!(!equals(&line, 3, b"help"));
    let mut message = vec![0u8; MAX_MESSAGE];
    assert_eq!(execute_command(&line, 4, &mut message), 34);
    assert_eq!(&message[..34], b"COMMANDS: HELP CLEAR HELLO VERSION");
    assert!(message[34..].iter().all(|b| *b == 0));
    assert_eq!(execute_command(b"clear", 5, &mut message), 0);
    assert_eq!(&message[..4], b"COMM");
    assert_eq!(execute_command(b"version", 7, &mut message), 18);
    assert_eq!(&message[..18], b"RUSTY 0.1.0 KERNEL");
    assert_eq!(execute_command(b"dance", 5, &mut message), 15);
    assert_eq!(&message[..15], b"UNKNOWN COMMAND");
    assert_eq!(execute_command(b"", 0, &mut message), 0);
}

#[test]
fn terminal_keys() {
    let mut t = Terminal::new();
    for c in "hello".chars() {
        assert_eq!(t.handle_key(Key::Character(c)), TerminalAction::Redraw);
    }
    assert_eq!(t.length, 5);
    assert_eq!(t.handle_key(Key::Backspace), TerminalAction::Redraw);
    assert_eq!(t.handle_key(Key::Character('o')), TerminalAction::Redraw);
    assert_eq!(t.handle_key(Key::Enter), TerminalAction::Redraw);
    assert_eq!(t.length, 0);
    assert_eq!(&t.message[..t.message_length], b"HELLO FROM RUSTY");
    assert_eq!(t.handle_key(Key::Up), TerminalAction::Ignore);
    assert_eq!(t.handle_key(Key::Escape), TerminalAction::Exit);
    for _ in 0..50 {
        t.handle_key(Key::Character('x'));
    }
    assert_eq!(t.length, 40);
}

#[test]
fn terminal_screen() {
    let mut s = storage(400, 400, PixelFormat::U8, 1);
    let mut t = Terminal::new();
    let (texts, places) = redraw(&mut s, &t, 0);
    assert_eq!(texts.len(), 5);
    assert_eq!(texts[0].text, "RUSTY TERMINAL");
    let labels: Vec<(&str, Color, usize)> = texts.iter().map(|t| (t.text, t.color, t.scale)).collect();
    assert_eq!(
        labels,
        vec![
            ("RUSTY TERMINAL", Color::white(), 2),
            ("RUSTY SHELL", Color::green(), 1),
            ("TYPE HELP FOR COMMANDS", Color::text_dim(), 1),
            ("Terminal >", Color::cyan(), 1),
            ("ESC BACK", Color::text_dim(), 1),
        ]
    );
    assert_eq!((places.input_x, places.input_y), (50 + 120, 50 + 165));
    assert!(places.message.is_none());
    t.handle_key(Key::Character('x'));
    t.handle_key(Key::Enter);
    let (_, places) = redraw(&mut s, &t, 24);
    assert_eq!(places.message, Some((66, 255)));
    // The cursor block starts after the input.
    let f = frame(&s);
    assert_eq!(f[(50 + 164) * 400 + 50 + 120 + 24], 100);
}

#[test]
fn launcher_menu() {
    let mut l = Launcher::new();
    assert_eq!(l.handle_key(Key::Up), LauncherAction::Ignore);
    assert_eq!(l.handle_key(Key::Down), LauncherAction::Redraw);
    assert_eq!(l.handle_key(Key::Down), LauncherAction::Redraw);
    assert_eq!(l.handle_key(Key::Down), LauncherAction::Ignore);
    assert_eq!(l.selected, 2);
    assert_eq!(l.handle_key(Key::Enter), LauncherAction::Ignore);
    l.handle_key(Key::Up);
    l.handle_key(Key::Up);
    assert_eq!(l.handle_key(Key::Enter), LauncherAction::OpenTerminal);
    assert_eq!(l.current, Program::Terminal);
    l.terminal_closed();
    assert_eq!(l.current, Program::Launcher);
}

#[test]
fn launcher_screen() {
    let mut s = storage(400, 400, PixelFormat::U8, 1);
    let texts = draw_launcher(&mut s, 1, true, false);
    let names: Vec<&str> = texts.iter().map(|t| t.text).collect();
    assert_eq!(
        names,
        vec![
            "USB: INITIALIZED",
            "KEYBOARD: NOT FOUND",
            "RUSTY OS",
            "WELCOME",
            "TERMINAL",
            ">",
            "FILES",
            "SETTINGS",
            "UP DOWN NAVIGATE   ENTER OPEN"
        ]
    );
    let item = draw_program(&mut s, 100, 100, "FILES", 0, 1);
    assert_eq!(item.len(), 1);
    assert_eq!(item[0].x, 120);
}

#[test]
fn usb_report_logs() {
    let log = parse_keyboard_report(&[0x02, 0, 0x04, 0, 0x05]);
    assert_eq!(log.len(), 9);
    assert!(matches!(log[1], LogPiece::Hex(2)));
    assert!(matches!(log[4], LogPiece::Hex(4)));
    assert!(matches!(log[7], LogPiece::Hex(5)));
    assert!(matches!(parse_keyboard_report(&[1])[..], [LogPiece::Text("USB KEYBOARD: invalid report\n")]));
    let mouse = parse_mouse_report(&[1, 0xFF, 2]);
    assert!(matches!(mouse[3], LogPiece::Hex(0xFFFF_FFFF_FFFF_FFFF)));
    assert!(matches!(mouse[5], LogPiece::Hex(2)));
    assert_eq!(parse_mouse_report(&[1, 2]).len(), 1);
    assert!(matches!(announce(3)[3], LogPiece::Hex(3)));
    let status = UsbStatus::new();
    assert!(!usb_ready(&status));
    assert!(!service_usb(&status));
}

#[test]
fn wasm_host_write() {
    let memory = b"Hello from WASM!\n\xFF";
    assert_eq!(host_write(0, 17, Some(&memory[..])), Ok(b"Hello from WASM!\n".to_vec()));
    assert_eq!(host_write(-1, 3, Some(&memory[..])), Err("wasm: invalid write arguments\n"));
    assert_eq!(host_write(0, 3, None), Err("wasm: module has no exported memory\n"));
    assert_eq!(host_write(10, 10, Some(&memory[..])), Err("wasm: write outside linear memory\n"));
    assert_eq!(host_write(17, 1, Some(&memory[..])), Err("wasm: invalid UTF-8\n"));
    assert_eq!(run_demo(true).len(), 3);
    assert!(matches!(run_demo(false)[2], LogPiece::Text("wasm: runtime returned an error\n")));
}

#[test]
fn backspace_undoes_typing() {
    let mut t = Terminal::new();
    t.handle_key(Key::Character('l'));
    let input = t.input.clone();
    let length = t.length;
    t.handle_key(Key::Character('s'));
    assert_eq!(t.length, length + 1);
    t.handle_key(Key::Backspace);
    assert_eq!(t.input, input);
    assert_eq!(t.length, length);
    assert!(t.input[t.length..].iter().all(|b| *b == 0));
}

#[test]
fn up_and_down_undo_each_other() {
    let mut l = Launcher::new();
    assert_eq!(l.handle_key(Key::Down), LauncherAction::Redraw);
    assert_eq!(l.handle_key(Key::Up), LauncherAction::Redraw);
    assert_eq!(l.selected, 0);
    l.handle_key(Key::Down);
    l.handle_key(Key::Down);
    assert_eq!(l.handle_key(Key::Down), LauncherAction::Ignore);
    l.handle_key(Key::Up);
    l.handle_key(Key::Down);
    assert_eq!(l.selected, 2);
}
