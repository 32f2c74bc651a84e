use rusty::input::key::Key;
use rusty::input::keyboard::{parse_report, usage_to_key, KeyboardEvent, KeyboardState};
use rusty::input::types::{Key as UsageKey, Modifiers};
use rusty::input::{has_keyboard, process_keyboard_report, read_key, set_keyboard_present, InputState};
use rusty::process::{ProcessManager, ProcessState, ScheduleResult};
use rusty::syscall::{
    load_context, save_context, syscall_kind, syscall_launch_app_request, syscall_test, Syscall, SyscallFrame,
    UserInterruptFrame,
};
use rusty::wm::compositor::Compositor;

#[test]
fn keyboard_reports_give_press_and_release() {
    let mut state = KeyboardState::new();
    let events = parse_report(&[0x02, 0, 0x04, 0, 0, 0, 0, 0], &mut state);
    // The shift press comes first, then the key, both with shift held.
    assert_eq!(events.len(), 2);
    assert!(matches!(events[0], KeyboardEvent::KeyDown { key: UsageKey::LeftShift, modifiers } if modifiers.left_shift));
    assert!(matches!(events[1], KeyboardEvent::KeyDown { key: UsageKey::A, modifiers } if modifiers.left_shift));
    let events = parse_report(&[0, 0, 0, 0, 0, 0, 0, 0], &mut state);
    assert_eq!(events.len(), 2);
    assert!(matches!(events[0], KeyboardEvent::KeyUp { key: UsageKey::LeftShift, .. }));
    assert!(matches!(events[1], KeyboardEvent::KeyUp { key: UsageKey::A, .. }));
    assert!(parse_report(&[0, 0, 4], &mut state).is_empty());
    assert_eq!(usage_to_key(0x28), UsageKey::Enter);
}

#[test]
fn modifier_bits_round_trip() {
    for b in 0..=255u8 {
        assert_eq!(Modifiers::from_byte(b).bits(), b);
    }
    assert_eq!(UsageKey::A.usage(), 0x04);
}

#[test]
fn input_queue_reads_characters() {
    let mut input = InputState::new();
    set_keyboard_present(&mut input, true);
    assert!(has_keyboard(&input));
    process_keyboard_report(&mut input, &[0x02, 0, 0x04, 0, 0, 0, 0, 0]);
    assert_eq!(read_key(&mut input), Some(Key::Character('A')));
    assert_eq!(read_key(&mut input), None);
}

#[test]
fn windows_are_created_and_destroyed() {
    let mut wm = Compositor::init(100, 80);
    let a = wm.create_window(10, 10, 20, 20);
    let b = wm.create_window(30, 10, 20, 20);
    assert_ne!(a, b);
    assert!(wm.fill_window_rect(a, 0, 0, 5, 5, 0xFF00_FF00));
    assert_eq!(wm.windows[0].pixels[0], 0xFF00_FF00);
    assert!(wm.destroy_window(a));
    assert!(!wm.destroy_window(a));
    assert_eq!(wm.windows.len(), 1);
    wm.draw();
    assert_eq!(wm.hardware_framebuffer.len(), 100 * 80);
}

#[test]
fn clicks_are_reported_once() {
    let mut wm = Compositor::init(100, 80);
    assert!(!wm.sys_click(0, 0));
    wm.click_pending = true;
    wm.click_x = 5;
    wm.click_y = 6;
    assert!(wm.sys_click_rect(0, 0, 10, 10));
    assert!(!wm.sys_click_rect(0, 0, 10, 10));
}

#[test]
fn processes_take_turns() {
    let mut pm = ProcessManager::new();
    pm.init();
    let first = pm.create_process(0x1000, 0x40_0000, 0x7000, 0x1B, 0x23).unwrap();
    let second = pm.create_process(0x2000, 0x40_0000, 0x8000, 0x1B, 0x23).unwrap();
    assert!(pm.process_exists(first) && pm.process_exists(second));
    assert!(pm.set_current(first));
    assert_eq!(pm.current_pid(), Some(first));
    assert_eq!(pm.state(first), Some(ProcessState::Running));
    let (_, context) = pm.current_entry().unwrap();
    match pm.yield_current(context) {
        ScheduleResult::Switched(_) => {}
        ScheduleResult::NoProcess => panic!("the second process is ready"),
    }
    assert_eq!(pm.current_pid(), Some(second));
    assert_eq!(pm.state(first), Some(ProcessState::Ready));
    let _ = pm.exit_current();
    assert_eq!(pm.current_pid(), Some(first));
}

#[test]
fn saved_context_round_trips() {
    let frame = SyscallFrame {
        rax: 1, rbx: 2, rcx: 3, rdx: 4, rsi: 5, rdi: 6, rbp: 7, r8: 8, r9: 9, r10: 10, r11: 11, r12: 12, r13: 13,
        r14: 14, r15: 15,
    };
    let interrupt = UserInterruptFrame { rip: 0x40_0000, cs: 0x1B, rflags: 0x202, rsp: 0x7000, ss: 0x23 };
    let saved = save_context(&frame, &interrupt);
    let mut frame2 = SyscallFrame {
        rax: 0, rbx: 0, rcx: 0, rdx: 0, rsi: 0, rdi: 0, rbp: 0, r8: 0, r9: 0, r10: 0, r11: 0, r12: 0, r13: 0, r14: 0,
        r15: 0,
    };
    let mut interrupt2 = UserInterruptFrame { rip: 0, cs: 0, rflags: 0, rsp: 0, ss: 0 };
    load_context(saved, &mut frame2, &mut interrupt2);
    assert_eq!(frame2, frame);
    assert_eq!(interrupt2, interrupt);
}

#[test]
fn syscall_numbers() {
    assert_eq!(syscall_kind(0), Some(Syscall::Exit));
    assert_eq!(syscall_kind(9999), None);
    assert_eq!(syscall_test(41), 41);
}

#[test]
fn destroying_a_new_window_restores_the_table() {
    let mut wm = Compositor::init(100, 80);
    let a = wm.create_window(0, 0, 10, 10);
    let before: Vec<(u64, i32, i32)> = wm.windows.iter().map(|w| (w.id, w.x, w.y)).collect();
    let b = wm.create_window(5, 5, 10, 10);
    assert_ne!(a, b);
    assert!(wm.destroy_window(b));
    let after: Vec<(u64, i32, i32)> = wm.windows.iter().map(|w| (w.id, w.x, w.y)).collect();
    assert_eq!(before, after);
}

#[test]
fn launch_app_requests_are_checked() {
    let mut frame = SyscallFrame {
        rax: 15, rbx: 0, rcx: 0, rdx: 0, rsi: 0x2000, rdi: 0x40_0000, rbp: 0, r8: 0, r9: 0, r10: 0, r11: 0, r12: 0,
        r13: 0, r14: 0, r15: 0,
    };
    assert_eq!(syscall_launch_app_request(&frame), Ok((0x40_0000, 0x2000)));
    frame.rdi = 0;
    assert_eq!(syscall_launch_app_request(&frame), Err("SYS_LAUNCH_APP: invalid ELF buffer\n"));
    frame.rdi = 0x40_0000;
    frame.rsi = 0;
    assert_eq!(syscall_launch_app_request(&frame), Err("SYS_LAUNCH_APP: invalid ELF buffer\n"));
}
