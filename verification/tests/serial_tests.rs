use rusty::serial::{
    append_screen_log_bounded, begin_screen_log_render, continue_screen_log_render, disable_screen_logging,
    enable_screen_logging, end_screen_log_render, hex_text, port_bytes, render_screen_log_inner, screen_log_height,
    screen_log_layout, screen_log_width, total_wrapped_lines, wrapped_line_count, write_hex, write_str, write_usize,
    ScreenLog, NO_WINDOW, SCREEN_LOG_MAX,
};
use rusty::wm::compositor::Compositor;

#[test]
fn hex_text_is_prefixed_and_upper_case() {
    assert_eq!(hex_text(0x1234_ABCD), b"0x000000001234ABCD".to_vec());
    assert_eq!(hex_text(u64::MAX), b"0xFFFFFFFFFFFFFFFF".to_vec());
    assert_eq!(hex_text(0), b"0x0000000000000000".to_vec());
}

#[test]
fn port_bytes_put_carriage_return_before_line_feed() {
    assert_eq!(port_bytes(b"a\nb\n"), b"a\r\nb\r\n".to_vec());
    assert_eq!(port_bytes(b""), Vec::<u8>::new());
}

#[test]
fn small_append_keeps_everything() {
    let mut log = b"first\n".to_vec();
    append_screen_log_bounded(&mut log, b"second\n");
    assert_eq!(log, b"first\nsecond\n".to_vec());
}

#[test]
fn append_never_exceeds_the_bound_and_ends_with_the_text() {
    let mut log = Vec::new();
    let line = b"0123456789abcdef0123456789abcdef0123456789abcdef0123456789abcde\n";
    for _ in 0..1000 {
        append_screen_log_bounded(&mut log, line);
        assert!(log.len() <= SCREEN_LOG_MAX);
        assert!(log.ends_with(line));
    }
    // The oldest text went first, at a line start.
    assert_eq!(log[0], b'0');
}

#[test]
fn oversized_text_keeps_only_its_newest_part() {
    let mut log = b"old".to_vec();
    let mut text = Vec::new();
    for i in 0..(SCREEN_LOG_MAX + 100) {
        text.push(if i % 50 == 49 { b'\n' } else { b'x' });
    }
    append_screen_log_bounded(&mut log, &text);
    assert!(log.len() <= SCREEN_LOG_MAX);
    assert!(text.ends_with(&log));
}

#[test]
fn write_str_mirrors_only_while_logging() {
    let mut log = ScreenLog::new();
    let bytes = write_str(&mut log, b"hi\n");
    assert_eq!(bytes, b"hi\r\n".to_vec());
    assert!(log.text.is_none());
    log.logging = true;
    log.window = 7;
    let _ = write_str(&mut log, b"hi\n");
    assert_eq!(log.text.as_deref(), Some(&b"hi\n"[..]));
    assert!(log.dirty);
}

#[test]
fn write_hex_and_usize_mirror_the_digits() {
    let mut log = ScreenLog::new();
    log.logging = true;
    log.window = 1;
    let digits = write_hex(&mut log, 0xFF);
    assert_eq!(digits, b"0x00000000000000FF".to_vec());
    let more = write_usize(&mut log, 16);
    assert_eq!(more, b"0x0000000000000010".to_vec());
    assert_eq!(log.text.as_deref(), Some(&b"0x00000000000000FF0x0000000000000010"[..]));
}

#[test]
fn disabling_forgets_the_log() {
    let mut log = ScreenLog::new();
    log.logging = true;
    log.window = 3;
    log.text = Some(b"x".to_vec());
    disable_screen_logging(&mut log);
    assert!(!log.logging);
    assert_eq!(log.window, NO_WINDOW);
    assert!(log.text.is_none());
}

#[test]
fn enabling_creates_the_window_and_first_line() {
    let mut wm = Compositor::init(800, 600);
    let mut log = ScreenLog::new();
    assert!(enable_screen_logging(&mut log, &mut wm, 800, 600));
    assert!(log.logging);
    assert_eq!(log.text.as_deref(), Some(&b"Rusty serial screen logging enabled\n"[..]));
    let window = wm.windows.iter().find(|w| w.id == log.window).unwrap();
    assert_eq!((window.x, window.y, window.width, window.height), (32, 32, 736, 536));
    assert_eq!(window.title(), "Rusty Serial Log");
}

#[test]
fn enabling_on_a_tiny_screen_does_nothing() {
    let mut wm = Compositor::init(60, 60);
    let mut log = ScreenLog::new();
    assert!(!enable_screen_logging(&mut log, &mut wm, 60, 60));
    assert!(!log.logging);
    assert!(wm.windows.is_empty());
}

#[test]
fn render_runs_at_most_twice_and_never_nests() {
    let mut log = ScreenLog::new();
    log.dirty = true;
    assert!(begin_screen_log_render(&mut log));
    assert!(!log.dirty);
    assert!(!begin_screen_log_render(&mut log));
    log.dirty = true;
    assert!(continue_screen_log_render(&mut log, 0));
    log.dirty = true;
    assert!(!continue_screen_log_render(&mut log, 1));
    end_screen_log_render(&mut log);
    assert!(!log.rendering);
}

#[test]
fn screen_log_geometry() {
    assert_eq!(screen_log_width(800), 736);
    assert_eq!(screen_log_height(40), 0);
}

#[test]
fn wrapped_line_counts() {
    assert_eq!(wrapped_line_count(b"", 10), 1);
    assert_eq!(wrapped_line_count(b"\r\r", 10), 1);
    assert_eq!(wrapped_line_count(b"abcdefghij", 10), 1);
    assert_eq!(wrapped_line_count(b"abcdefghijk", 10), 2);
    // Multi-byte characters count once.
    assert_eq!(wrapped_line_count("ééé".as_bytes(), 2), 2);
    assert_eq!(wrapped_line_count(b"abc", 0), 3);
}

#[test]
fn total_wrapped_lines_ignores_the_final_line_feed() {
    assert_eq!(total_wrapped_lines(b"one\ntwo\n", 10), 2);
    assert_eq!(total_wrapped_lines(b"one\ntwo", 10), 2);
    assert_eq!(total_wrapped_lines(b"", 10), 1);
    assert_eq!(total_wrapped_lines(b"abcdefghijkl\n", 5), 3);
}

#[test]
fn layout_of_a_screen() {
    let layout = screen_log_layout(800, 600).unwrap();
    assert_eq!(layout.max_chars, (800 - 64 - 24) / 12);
    assert_eq!(layout.max_lines, (600 - 64 - 24) / 20);
    assert_eq!(layout.text_height, 600 - 64 - 24);
    assert!(screen_log_layout(80, 80).is_none());
}

#[test]
fn render_shows_the_newest_lines() {
    // A 200 by 148 screen leaves 9 characters and 3 lines.
    let layout = screen_log_layout(200, 148).unwrap();
    assert_eq!((layout.max_chars, layout.max_lines), (9, 3));
    let log = b"a\nb\nc\nd\n";
    let draws = render_screen_log_inner(log, 200, 148).unwrap();
    let shown: Vec<(usize, &[u8])> = draws.iter().map(|d| (d.y, &log[d.start..d.end])).collect();
    assert_eq!(shown, vec![(12, &b"b"[..]), (32, &b"c"[..]), (52, &b"d"[..])]);
}

#[test]
fn render_wraps_long_lines() {
    let log = b"abcdefghijklmnop";
    let draws = render_screen_log_inner(log, 200, 148).unwrap();
    let shown: Vec<&[u8]> = draws.iter().map(|d| &log[d.start..d.end]).collect();
    assert_eq!(shown, vec![&b"abcdefghi"[..], &b"jklmnop"[..]]);
}
