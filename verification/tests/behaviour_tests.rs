use rusty::ax_sync::{can_release, LockMode, RW_WRITER_BIT};
use rusty::elf::{elf_error_log, ElfError};
use rusty::input::{poll_keyboard_event, push_keyboard_event, InputEvent, InputState, EVENT_QUEUE_LIMIT};
use rusty::serial::{append_screen_log_bounded, render_wrapped_line, LogPiece, RenderCursor, TextDraw, SCREEN_LOG_MAX};
use rusty::syscall::{syscall_draw_rect, syscall_draw_string_text, SyscallFrame};
use rusty::usb::hid::{HidDeviceKind, HidEndpointCandidate, HidEnumeration, HidManager, HidRequest, HidStage};
use rusty::usb::xhci::regs::{CapabilityRegisters, XhciRegs};
use rusty::wasm::host_write;
use rusty::wm::compositor::Compositor;
use rusty::wm::window::{Window, WINDOW_BACKGROUND};
use rusty::xhci_pci::{
    interrupt_setup_step, InterruptAction, InterruptSetupStage, XhciInterruptMode, XhciPciDevice,
};

fn rect_frame(window: u64, x: u64, y: u64, width: u64, height: u64, color: u64) -> SyscallFrame {
    SyscallFrame {
        rax: 9, rbx: 0, rcx: 0, rdx: y, rsi: x, rdi: window, rbp: 0, r8: height, r9: color, r10: width, r11: 0,
        r12: 0, r13: 0, r14: 0, r15: 0,
    }
}

fn pixel(window: &Window, x: usize, y: usize) -> u32 {
    window.pixels[y * window.width + x]
}

#[test]
fn draw_rect_syscall_draws_only_the_outline() {
    let mut wm = Compositor::init(64, 64);
    let id = wm.create_window(0, 0, 10, 10);
    let mut manager = Some(wm);
    assert_eq!(syscall_draw_rect(&mut manager, &rect_frame(id, 2, 3, 4, 5, 0xFF00_FF00)), 1);
    let window = &manager.as_ref().unwrap().windows[0];
    for y in 0..10 {
        for x in 0..10 {
            let inside = (2..6).contains(&x) && (3..8).contains(&y);
            let edge = inside && (x == 2 || x == 5 || y == 3 || y == 7);
            let expected = if edge { 0xFF00_FF00 } else { WINDOW_BACKGROUND };
            assert_eq!(pixel(window, x, y), expected, "pixel ({}, {})", x, y);
        }
    }
}

#[test]
fn draw_rect_syscall_refuses_bad_frames() {
    let mut wm = Compositor::init(64, 64);
    let id = wm.create_window(0, 0, 10, 10);
    let mut manager = Some(wm);
    assert_eq!(syscall_draw_rect(&mut manager, &rect_frame(id, 0, 0, 0, 5, 1)), 0);
    assert_eq!(syscall_draw_rect(&mut manager, &rect_frame(id + 1, 0, 0, 3, 3, 1)), 0);
    assert!(manager.as_ref().unwrap().windows[0].pixels.iter().all(|p| *p == WINDOW_BACKGROUND));
    // A rectangle that runs off the window is clipped to it.
    assert_eq!(syscall_draw_rect(&mut manager, &rect_frame(id, 8, 8, 100, 100, 7)), 1);
    let window = &manager.as_ref().unwrap().windows[0];
    assert_eq!(pixel(window, 8, 8), 7);
    assert_eq!(pixel(window, 9, 8), 7);
    assert_eq!(pixel(window, 9, 9), WINDOW_BACKGROUND);
    assert_eq!(pixel(window, 8, 9), 7);
}

#[test]
fn non_ascii_titles_round_trip() {
    let mut window = Window::new(1, 0, 0, 4, 4, 0);
    window.set_title("Fenêtre ✓");
    assert_eq!(window.title(), "Fenêtre ✓");
    window.title = vec![0x41, 0xC3];
    assert_eq!(window.title(), "");
}

#[test]
fn utf8_checks_accept_every_valid_text() {
    assert_eq!(syscall_draw_string_text(Some("é".as_bytes())), Some("é"));
    assert_eq!(syscall_draw_string_text(Some(&[0xC3u8][..])), None);
    let memory = "grüße\n".as_bytes().to_vec();
    assert_eq!(host_write(0, memory.len() as i32, Some(&memory[..])), Ok(memory.clone()));
    assert_eq!(host_write(2, 1, Some(&memory[..])), Err("wasm: invalid UTF-8\n"));
}

#[test]
fn screen_log_stays_utf8_after_cuts() {
    let mut log: Vec<u8> = Vec::new();
    let line = "ü ".repeat(700) + "\n";
    for _ in 0..30 {
        append_screen_log_bounded(&mut log, line.as_bytes());
        assert!(log.len() <= SCREEN_LOG_MAX);
        assert!(std::str::from_utf8(&log).is_ok());
    }
    let long = "€".repeat(SCREEN_LOG_MAX);
    append_screen_log_bounded(&mut log, long.as_bytes());
    assert!(log.len() <= SCREEN_LOG_MAX);
    assert!(std::str::from_utf8(&log).is_ok());
}

#[test]
fn wrapped_line_reports_lines_rendered() {
    let log = b"abcdefghij";
    let mut draws: Vec<TextDraw> = Vec::new();
    let mut cursor = RenderCursor { skip: 1, remaining: 10, line_y: 0 };
    // Four-character pieces: "abcd" is skipped, "efgh" and "ij" are drawn.
    assert_eq!(render_wrapped_line(&mut draws, &mut cursor, log, 0, 10, 4, 100, 16), 2);
    assert_eq!(cursor.remaining, 8);
    assert_eq!(draws.len(), 2);
    assert_eq!((draws[0].start, draws[0].end, draws[1].start, draws[1].end), (4, 8, 8, 10));
    let mut cursor = RenderCursor { skip: 0, remaining: 1, line_y: 0 };
    assert_eq!(render_wrapped_line(&mut draws, &mut cursor, log, 0, 10, 4, 100, 16), 1);
    let mut cursor = RenderCursor { skip: 0, remaining: 3, line_y: 0 };
    assert_eq!(render_wrapped_line(&mut draws, &mut cursor, log, 0, 0, 4, 100, 16), 1);
}

fn device(msi: Option<u8>, msix: Option<u8>) -> XhciPciDevice {
    XhciPciDevice {
        bus: 0,
        device: 3,
        function: 0,
        vendor_id: 0x8086,
        device_id: 0x51ED,
        revision_id: 0,
        bar0: 0xFEBF_0000,
        bar0_size: 0x1_0000,
        msi_offset: msi,
        msix_offset: msix,
        interrupt_mode: XhciInterruptMode::Disabled,
        interrupt_vector: 0,
        msix_table_bar: None,
        msix_table_offset: None,
        msix_table_size: None,
    }
}

fn run_setup(device: &XhciPciDevice, msix_ok: bool, msi_ok: bool) -> Vec<InterruptAction> {
    let mut stage = InterruptSetupStage::Start;
    let mut ok = false;
    let mut all = Vec::new();
    while stage != InterruptSetupStage::Finished {
        let (next, actions) = interrupt_setup_step(device, stage, ok);
        stage = next;
        for action in actions {
            match action {
                InterruptAction::TryMsix => ok = msix_ok,
                InterruptAction::TryMsi => ok = msi_ok,
                _ => {},
            }
            all.push(action);
        }
    }
    all
}

#[test]
fn interrupt_setup_order() {
    let both = device(Some(0x50), Some(0x70));
    assert_eq!(
        run_setup(&both, true, true),
        vec![InterruptAction::DisableMsi, InterruptAction::TryMsix, InterruptAction::DisableMsi, InterruptAction::DisableLegacyIntx, InterruptAction::Finish(XhciInterruptMode::Msix)]
    );
    assert_eq!(
        run_setup(&both, false, true),
        vec![InterruptAction::DisableMsi, InterruptAction::TryMsix, InterruptAction::DisableMsix, InterruptAction::TryMsi, InterruptAction::DisableLegacyIntx, InterruptAction::Finish(XhciInterruptMode::Msi)]
    );
    assert_eq!(
        run_setup(&both, false, false),
        vec![InterruptAction::DisableMsi, InterruptAction::TryMsix, InterruptAction::DisableMsix, InterruptAction::TryMsi, InterruptAction::Finish(XhciInterruptMode::Disabled)]
    );
    assert_eq!(run_setup(&device(None, None), true, true), vec![InterruptAction::DisableMsi, InterruptAction::Finish(XhciInterruptMode::Disabled)]);
    assert_eq!(
        run_setup(&device(Some(0x50), None), false, true),
        vec![InterruptAction::DisableMsi, InterruptAction::TryMsi, InterruptAction::DisableLegacyIntx, InterruptAction::Finish(XhciInterruptMode::Msi)]
    );
}

#[test]
fn register_set_addresses() {
    let caps = CapabilityRegisters {
        hc_capbase: 0x0100_0020,
        hcsparams1: 0x0800_0840,
        hcsparams2: 0,
        hcsparams3: 0,
        hccparams1: 0x0020_0005,
        dboff: 0x2000,
        rtsoff: 0x1000,
        hccparams2: 0,
    };
    let regs = XhciRegs::new(0x1000_0000, caps).unwrap();
    assert_eq!(regs.port_base(1), 0x1000_0420);
    assert_eq!(regs.port_base(3), 0x1000_0440);
    assert_eq!(regs.interrupter_base(0), 0x1000_1020);
    assert_eq!(regs.interrupter_base(2), 0x1000_1060);
}

#[test]
fn new_windows_go_on_top() {
    let mut wm = Compositor::init(64, 64);
    let a = wm.create_window(0, 0, 4, 4);
    let b = wm.create_window(0, 0, 4, 4);
    let c = wm.create_window(0, 0, 4, 4);
    let z = |id: u64| wm.windows.iter().find(|w| w.id == id).unwrap().z_index;
    assert!(z(a) < z(b) && z(b) < z(c));
}

#[test]
fn keyboard_queue_drops_the_oldest() {
    let mut state = InputState::new();
    for i in 0..(EVENT_QUEUE_LIMIT as i16 + 2) {
        push_keyboard_event(&mut state, InputEvent::MouseWheel { delta: i });
    }
    let mut seen = Vec::new();
    while let Some(event) = poll_keyboard_event(&mut state) {
        seen.push(event);
    }
    assert_eq!(seen.len(), EVENT_QUEUE_LIMIT);
    assert_eq!(seen[0], InputEvent::MouseWheel { delta: 2 });
    assert_eq!(seen[EVENT_QUEUE_LIMIT - 1], InputEvent::MouseWheel { delta: EVENT_QUEUE_LIMIT as i16 + 1 });
}

#[test]
fn lock_words_say_who_may_leave() {
    assert!(can_release(1, LockMode::Read));
    assert!(can_release(3, LockMode::Read));
    assert!(!can_release(0, LockMode::Read));
    assert!(!can_release(RW_WRITER_BIT, LockMode::Read));
    assert!(can_release(RW_WRITER_BIT, LockMode::Write));
    assert!(!can_release(1, LockMode::Write));
    assert!(!can_release(0, LockMode::Write));
}

fn texts(pieces: &[LogPiece]) -> Vec<&'static str> {
    pieces
        .iter()
        .map(|p| match p {
            LogPiece::Text(t) => *t,
            _ => panic!("unexpected piece"),
        })
        .collect()
}

#[test]
fn elf_failures_are_reported() {
    assert_eq!(
        texts(&elf_error_log(ElfError::ParseError("short header"))),
        vec!["ELF LAUNCH: load_elf FAILED\n", "ELF error: ParseError: ", "short header", "\n"]
    );
    assert_eq!(
        texts(&elf_error_log(ElfError::InvalidFormat("bad magic"))),
        vec!["ELF LAUNCH: load_elf FAILED\n", "ELF error: InvalidFormat: ", "bad magic", "\n"]
    );
    assert_eq!(
        texts(&elf_error_log(ElfError::AllocationFailed)),
        vec!["ELF LAUNCH: load_elf FAILED\n", "ELF error: AllocationFailed", "\n"]
    );
}

fn candidate(interface: u8, alternate: u8) -> HidEndpointCandidate {
    HidEndpointCandidate {
        interface_number: interface,
        alternate_setting: alternate,
        address: 0x81,
        kind: HidDeviceKind::Keyboard,
        packet_size: 8,
        interval: 10,
    }
}

#[test]
fn enumeration_succeeds_only_with_a_device() {
    let mut manager = HidManager::new();
    let (mut e, _) = HidEnumeration::start(true, true, 1, 2, 3);
    e.stage = HidStage::SelectingConfiguration;
    e.endpoints = vec![candidate(0, 1), candidate(1, 0)];
    assert_eq!(e.step(&mut manager, true, &[], 0), HidRequest::SetProtocol { interface: 1 });
    assert_eq!(e.next_endpoint, 1);
    assert_eq!(e.step(&mut manager, true, &[], 0), HidRequest::SetIdle { interface: 1 });
    assert_eq!(
        e.step(&mut manager, true, &[], 0),
        HidRequest::ConfigureEndpoint { address: 0x81, packet_size: 8, interval: 10 }
    );
    assert_eq!(e.step(&mut manager, true, &[], 0), HidRequest::SubmitInterruptIn { endpoint_id: 3 });
    assert_eq!(manager.device_count(), 0);
    assert_eq!(e.step(&mut manager, true, &[], 0), HidRequest::Finish { success: true });
    assert_eq!(manager.device_count(), 1);
    assert_eq!(e.configured_count, 1);

    // A stage that points past the endpoints ends in failure.
    let (mut lost, _) = HidEnumeration::start(true, true, 1, 2, 3);
    lost.stage = HidStage::SettingIdle;
    assert_eq!(lost.step(&mut manager, true, &[], 0), HidRequest::Finish { success: false });
    assert_eq!(lost.stage, HidStage::Finished);
    assert_eq!(manager.device_count(), 1);
}
