use rusty::shell::{
    execute_command, needs_pid, redraw, write_number, ShellHistory, ShellInput, ShellKey, INPUT_MAX, MAX_LINES,
};

fn shown(history: &ShellHistory) -> Vec<String> {
    history.lines.iter().map(|l| String::from_utf8(l.clone()).unwrap()).collect()
}

#[test]
fn numbers_are_written_in_decimal() {
    let mut out = [0xAAu8; 8];
    assert_eq!(write_number(4096, &mut out), 4);
    assert_eq!(&out, b"4096\xAA\xAA\xAA\xAA");
    let mut out = [0u8; 2];
    assert_eq!(write_number(98765, &mut out), 2);
    assert_eq!(&out, b"98");
    let mut out = [0u8; 1];
    assert_eq!(write_number(0, &mut out), 1);
    assert_eq!(&out, b"0");
    assert_eq!(write_number(7, &mut []), 0);
    let mut out = [0u8; 20];
    assert_eq!(write_number(u64::MAX, &mut out), 20);
    assert_eq!(&out, b"18446744073709551615");
}

#[test]
fn commands_answer_in_the_history() {
    let mut history = ShellHistory::new();
    execute_command(b"help", &mut history, 1);
    assert_eq!(shown(&history), vec!["Available commands:", "  help", "  clear", "  pid", "  echo <text>"]);
    execute_command(b"echo hello there", &mut history, 1);
    assert_eq!(shown(&history).last().unwrap(), "hello there");
    execute_command(b"pid", &mut history, 42);
    assert_eq!(shown(&history).last().unwrap(), "PID: 42");
    execute_command(b"frobnicate", &mut history, 1);
    let lines = shown(&history);
    assert_eq!(&lines[lines.len() - 2..], &["Unknown command.".to_string(), "Type 'help' for help.".to_string()]);
    execute_command(b"", &mut history, 1);
    assert_eq!(history.lines.len(), 9);
    execute_command(b"clear", &mut history, 1);
    assert!(history.lines.is_empty());
    assert!(needs_pid(b"pid"));
    assert!(!needs_pid(b"pids"));
}

#[test]
fn history_keeps_the_newest_lines() {
    let mut history = ShellHistory::new();
    for i in 0..MAX_LINES + 3 {
        history.add_line(format!("line {}", i).as_bytes());
    }
    assert_eq!(history.lines.len(), MAX_LINES);
    assert_eq!(shown(&history)[0], "line 3");
    assert_eq!(shown(&history)[MAX_LINES - 1], format!("line {}", MAX_LINES + 2));
    history.add_line(&[b'x'; 200]);
    assert_eq!(history.lines.last().unwrap().len(), INPUT_MAX);
}

#[test]
fn typing_and_submitting() {
    let mut input = ShellInput::new();
    let mut history = ShellHistory::new();
    assert_eq!(input.handle_key(0x08), ShellKey::Ignore);
    for b in b"echo hi" {
        assert_eq!(input.handle_key(*b), ShellKey::Redraw);
    }
    assert_eq!(input.handle_key(0x01), ShellKey::Ignore);
    assert_eq!(input.handle_key(0x08), ShellKey::Redraw);
    assert_eq!(input.handle_key(b'i'), ShellKey::Redraw);
    assert_eq!(input.handle_key(b'\n'), ShellKey::Submit);
    input.submit(&mut history, 5);
    assert_eq!(input.length, 0);
    assert_eq!(shown(&history), vec!["echo hi", "hi"]);
    for _ in 0..INPUT_MAX {
        input.handle_key(b'a');
    }
    assert_eq!(input.handle_key(b'a'), ShellKey::Ignore);
    assert_eq!(input.length, INPUT_MAX);
}

#[test]
fn shell_screen_layout() {
    let mut history = ShellHistory::new();
    history.add_line(b"one");
    history.add_line(b"two");
    let mut input = ShellInput::new();
    input.handle_key(b'l');
    input.handle_key(b's');
    let texts = redraw(&history, &input);
    let placed: Vec<(usize, usize, Vec<u8>)> = texts.iter().map(|t| (t.x, t.y, t.text.clone())).collect();
    assert_eq!(
        placed,
        vec![(20, 20, b"one".to_vec()), (20, 36, b"two".to_vec()), (20, 60, b">".to_vec()), (32, 60, b"ls".to_vec())]
    );
}
