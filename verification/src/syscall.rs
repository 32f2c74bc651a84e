//! The system call interface: numbers, the saved register frames, and what
//! each call does to the processes, the input queues and the windows.

use vstd::prelude::*;

use crate::input::{poll_keyboard_event, InputEvent, InputState, Key, Modifiers};
use crate::process::{ProcessManager, SavedUserContext, ScheduleResult, ready_after, slot_of, with_state, Process, ProcessState};
use crate::wm::compositor::{pointer_steps, Compositor};
use crate::wm::window::{on_outline, pixel_at, shapes_fit, utf8_str, TextGlyph, MAX_WINDOW_HEIGHT, MAX_WINDOW_WIDTH};
use crate::graphics::Color;
use vstd::string::StringSliceAdditionalSpecFns;

verus! {

/// Ends the calling process.
pub const SYS_EXIT: u64 = 0;

/// Gives up the processor.
pub const SYS_YIELD: u64 = 1;

/// The calling process's id.
pub const SYS_GETPID: u64 = 2;

/// Echoes its argument.
pub const SYS_TEST: u64 = 3;

/// Writes to the serial console.
pub const SYS_WRITE: u64 = 4;

/// Reads one character from the keyboard.
pub const SYS_READ: u64 = 5;

/// Sleeps (returns at once).
pub const SYS_SLEEP: u64 = 6;

/// Fills a rectangle of a window.
pub const SYS_FILL_RECT: u64 = 7;

/// Draws text into a window.
pub const SYS_DRAW_STRING: u64 = 8;

/// Draws a rectangle outline in a window.
pub const SYS_DRAW_RECT: u64 = 9;

/// Creates a window.
pub const SYS_CREATE_WINDOW: u64 = 100;

/// Replaces a window's pixels.
pub const SYS_UPDATE_WINDOW: u64 = 101;

/// Composes and shows the desktop.
pub const SYS_FLUSH_SCREEN: u64 = 102;

/// Takes a click at a point.
pub const SYS_CLICK: u64 = 103;

/// Destroys a window.
pub const SYS_DESTROY_WINDOW: u64 = 104;

/// Replaces the caller with an ELF program.
pub const SYS_LAUNCH_APP: u64 = 105;

/// Takes a click inside a rectangle.
pub const SYS_CLICK_RECT: u64 = 106;

/// Result of an unknown call.
pub const ENOSYS: u64 = 0xFFFF_FFFF_FFFF_FFFF;

/// Result of a successful call without a value.
pub const SUCCESS: u64 = 0;

/// Tells the entry code that another process's registers were loaded.
pub const SYSCALL_SWITCH: u64 = 0xFFFF_FFFF_FFFF_FFFE;

/// Tells the entry code to halt: no process is left.
pub const SYSCALL_HALT: u64 = 0xFFFF_FFFF_FFFF_FFFD;

/// The general-purpose registers saved by the entry code.
#[derive(Clone, Copy, Debug, PartialEq, Eq, Structural)]
pub struct SyscallFrame {
    pub rax: u64,
    pub rbx: u64,
    pub rcx: u64,
    pub rdx: u64,
    pub rsi: u64,
    pub rdi: u64,
    pub rbp: u64,
    pub r8: u64,
    pub r9: u64,
    pub r10: u64,
    pub r11: u64,
    pub r12: u64,
    pub r13: u64,
    pub r14: u64,
    pub r15: u64,
}

/// The interrupt frame pushed by the processor on entry from ring 3.
#[derive(Clone, Copy, Debug, PartialEq, Eq, Structural)]
pub struct UserInterruptFrame {
    pub rip: u64,
    pub cs: u64,
    pub rflags: u64,
    pub rsp: u64,
    pub ss: u64,
}

/// The saved context made of the two frames.
pub open spec fn context_of(frame: SyscallFrame, interrupt: UserInterruptFrame) -> SavedUserContext {
    SavedUserContext {
        rax: frame.rax,
        rbx: frame.rbx,
        rcx: frame.rcx,
        rdx: frame.rdx,
        rsi: frame.rsi,
        rdi: frame.rdi,
        rbp: frame.rbp,
        r8: frame.r8,
        r9: frame.r9,
        r10: frame.r10,
        r11: frame.r11,
        r12: frame.r12,
        r13: frame.r13,
        r14: frame.r14,
        r15: frame.r15,
        rip: interrupt.rip,
        cs: interrupt.cs,
        rflags: interrupt.rflags,
        rsp: interrupt.rsp,
        ss: interrupt.ss,
    }
}

/// The frames that restore `context`.
pub open spec fn frames_of(context: SavedUserContext) -> (SyscallFrame, UserInterruptFrame) {
    (
        SyscallFrame {
            rax: context.rax,
            rbx: context.rbx,
            rcx: context.rcx,
            rdx: context.rdx,
            rsi: context.rsi,
            rdi: context.rdi,
            rbp: context.rbp,
            r8: context.r8,
            r9: context.r9,
            r10: context.r10,
            r11: context.r11,
            r12: context.r12,
            r13: context.r13,
            r14: context.r14,
            r15: context.r15,
        },
        UserInterruptFrame {
            rip: context.rip,
            cs: context.cs,
            rflags: context.rflags,
            rsp: context.rsp,
            ss: context.ss,
        },
    )
}

/// Saves the caller's registers.
pub fn save_context(frame: &SyscallFrame, interrupt: &UserInterruptFrame) -> (r: SavedUserContext)
    ensures
        r == context_of(*frame, *interrupt),
{
    SavedUserContext {
        rax: frame.rax,
        rbx: frame.rbx,
        rcx: frame.rcx,
        rdx: frame.rdx,
        rsi: frame.rsi,
        rdi: frame.rdi,
        rbp: frame.rbp,
        r8: frame.r8,
        r9: frame.r9,
        r10: frame.r10,
        r11: frame.r11,
        r12: frame.r12,
        r13: frame.r13,
        r14: frame.r14,
        r15: frame.r15,
        rip: interrupt.rip,
        cs: interrupt.cs,
        rflags: interrupt.rflags,
        rsp: interrupt.rsp,
        ss: interrupt.ss,
    }
}

/// Loads saved registers into the frames the entry code returns through.
pub fn load_context(context: SavedUserContext, frame: &mut SyscallFrame, interrupt: &mut UserInterruptFrame)
    ensures
        (*final(frame), *final(interrupt)) == frames_of(context),
{
    frame.rax = context.rax;
    frame.rbx = context.rbx;
    frame.rcx = context.rcx;
    frame.rdx = context.rdx;
    frame.rsi = context.rsi;
    frame.rdi = context.rdi;
    frame.rbp = context.rbp;
    frame.r8 = context.r8;
    frame.r9 = context.r9;
    frame.r10 = context.r10;
    frame.r11 = context.r11;
    frame.r12 = context.r12;
    frame.r13 = context.r13;
    frame.r14 = context.r14;
    frame.r15 = context.r15;
    interrupt.rip = context.rip;
    interrupt.cs = context.cs;
    interrupt.rflags = context.rflags;
    interrupt.rsp = context.rsp;
    interrupt.ss = context.ss;
}

/// Saving the frames and loading the result gives the same frames back.
pub proof fn lemma_save_load_round_trip(frame: SyscallFrame, interrupt: UserInterruptFrame)
    ensures
        frames_of(context_of(frame, interrupt)) == (frame, interrupt),
{
}

// ============================================================
// Keys to characters
// ============================================================

/// The ASCII byte a key gives on a US layout with or without shift; 0 for
/// a key that gives none.
pub open spec fn ascii_of(key: Key, shift: bool) -> u8 {
    match key {
        Key::A => if shift { 0x41 } else { 0x61 },
        Key::B => if shift { 0x42 } else { 0x62 },
        Key::C => if shift { 0x43 } else { 0x63 },
        Key::D => if shift { 0x44 } else { 0x64 },
        Key::E => if shift { 0x45 } else { 0x65 },
        Key::F => if shift { 0x46 } else { 0x66 },
        Key::G => if shift { 0x47 } else { 0x67 },
        Key::H => if shift { 0x48 } else { 0x68 },
        Key::I => if shift { 0x49 } else { 0x69 },
        Key::J => if shift { 0x4A } else { 0x6A },
        Key::K => if shift { 0x4B } else { 0x6B },
        Key::L => if shift { 0x4C } else { 0x6C },
        Key::M => if shift { 0x4D } else { 0x6D },
        Key::N => if shift { 0x4E } else { 0x6E },
        Key::O => if shift { 0x4F } else { 0x6F },
        Key::P => if shift { 0x50 } else { 0x70 },
        Key::Q => if shift { 0x51 } else { 0x71 },
        Key::R => if shift { 0x52 } else { 0x72 },
        Key::S => if shift { 0x53 } else { 0x73 },
        Key::T => if shift { 0x54 } else { 0x74 },
        Key::U => if shift { 0x55 } else { 0x75 },
        Key::V => if shift { 0x56 } else { 0x76 },
        Key::W => if shift { 0x57 } else { 0x77 },
        Key::X => if shift { 0x58 } else { 0x78 },
        Key::Y => if shift { 0x59 } else { 0x79 },
        Key::Z => if shift { 0x5A } else { 0x7A },
        Key::Num1 => if shift { 0x21 } else { 0x31 },
        Key::Num2 => if shift { 0x40 } else { 0x32 },
        Key::Num3 => if shift { 0x23 } else { 0x33 },
        Key::Num4 => if shift { 0x24 } else { 0x34 },
        Key::Num5 => if shift { 0x25 } else { 0x35 },
        Key::Num6 => if shift { 0x5E } else { 0x36 },
        Key::Num7 => if shift { 0x26 } else { 0x37 },
        Key::Num8 => if shift { 0x2A } else { 0x38 },
        Key::Num9 => if shift { 0x28 } else { 0x39 },
        Key::Num0 => if shift { 0x29 } else { 0x30 },
        Key::Enter => 0x0A,
        Key::Space => 0x20,
        Key::Tab => 0x09,
        Key::Backspace => 0x08,
        Key::Minus => if shift { 0x5F } else { 0x2D },
        Key::Equal => if shift { 0x2B } else { 0x3D },
        Key::LeftBracket => if shift { 0x7B } else { 0x5B },
        Key::RightBracket => if shift { 0x7D } else { 0x5D },
        Key::Backslash => if shift { 0x7C } else { 0x5C },
        Key::Semicolon => if shift { 0x3A } else { 0x3B },
        Key::Apostrophe => if shift { 0x22 } else { 0x27 },
        Key::Grave => if shift { 0x7E } else { 0x60 },
        Key::Comma => if shift { 0x3C } else { 0x2C },
        Key::Dot => if shift { 0x3E } else { 0x2E },
        Key::Slash => if shift { 0x3F } else { 0x2F },
        _ => 0,
    }
}

/// The ASCII byte of a key press; shift is either shift key.
pub fn key_to_ascii(key: Key, modifiers: Modifiers) -> (r: u8)
    ensures
        r == ascii_of(key, modifiers.left_shift || modifiers.right_shift),
{
    let shift = modifiers.left_shift || modifiers.right_shift;
    match key {
        Key::A => if shift { 0x41 } else { 0x61 },
        Key::B => if shift { 0x42 } else { 0x62 },
        Key::C => if shift { 0x43 } else { 0x63 },
        Key::D => if shift { 0x44 } else { 0x64 },
        Key::E => if shift { 0x45 } else { 0x65 },
        Key::F => if shift { 0x46 } else { 0x66 },
        Key::G => if shift { 0x47 } else { 0x67 },
        Key::H => if shift { 0x48 } else { 0x68 },
        Key::I => if shift { 0x49 } else { 0x69 },
        Key::J => if shift { 0x4A } else { 0x6A },
        Key::K => if shift { 0x4B } else { 0x6B },
        Key::L => if shift { 0x4C } else { 0x6C },
        Key::M => if shift { 0x4D } else { 0x6D },
        Key::N => if shift { 0x4E } else { 0x6E },
        Key::O => if shift { 0x4F } else { 0x6F },
        Key::P => if shift { 0x50 } else { 0x70 },
        Key::Q => if shift { 0x51 } else { 0x71 },
        Key::R => if shift { 0x52 } else { 0x72 },
        Key::S => if shift { 0x53 } else { 0x73 },
        Key::T => if shift { 0x54 } else { 0x74 },
        Key::U => if shift { 0x55 } else { 0x75 },
        Key::V => if shift { 0x56 } else { 0x76 },
        Key::W => if shift { 0x57 } else { 0x77 },
        Key::X => if shift { 0x58 } else { 0x78 },
        Key::Y => if shift { 0x59 } else { 0x79 },
        Key::Z => if shift { 0x5A } else { 0x7A },
        Key::Num1 => if shift { 0x21 } else { 0x31 },
        Key::Num2 => if shift { 0x40 } else { 0x32 },
        Key::Num3 => if shift { 0x23 } else { 0x33 },
        Key::Num4 => if shift { 0x24 } else { 0x34 },
        Key::Num5 => if shift { 0x25 } else { 0x35 },
        Key::Num6 => if shift { 0x5E } else { 0x36 },
        Key::Num7 => if shift { 0x26 } else { 0x37 },
        Key::Num8 => if shift { 0x2A } else { 0x38 },
        Key::Num9 => if shift { 0x28 } else { 0x39 },
        Key::Num0 => if shift { 0x29 } else { 0x30 },
        Key::Enter => 0x0A,
        Key::Space => 0x20,
        Key::Tab => 0x09,
        Key::Backspace => 0x08,
        Key::Minus => if shift { 0x5F } else { 0x2D },
        Key::Equal => if shift { 0x2B } else { 0x3D },
        Key::LeftBracket => if shift { 0x7B } else { 0x5B },
        Key::RightBracket => if shift { 0x7D } else { 0x5D },
        Key::Backslash => if shift { 0x7C } else { 0x5C },
        Key::Semicolon => if shift { 0x3A } else { 0x3B },
        Key::Apostrophe => if shift { 0x22 } else { 0x27 },
        Key::Grave => if shift { 0x7E } else { 0x60 },
        Key::Comma => if shift { 0x3C } else { 0x2C },
        Key::Dot => if shift { 0x3E } else { 0x2E },
        Key::Slash => if shift { 0x3F } else { 0x2F },
        _ => 0,
    }
}

// ============================================================
// Scheduling calls
// ============================================================

/// The process table, current process and decision after the current
/// process exits.
pub open spec fn exit_outcome(table: Seq<Option<Process>>, current: Option<u64>) -> (
    Seq<Option<Process>>,
    Option<u64>,
    ScheduleResult,
) {
    match current {
        None => (table, current, ScheduleResult::NoProcess),
        Some(cp) => {
            let ci = slot_of(table, cp)->0;
            let exited = with_state(table, ci, ProcessState::Exited);
            match ready_after(exited, ci, 1) {
                None => (exited, None, ScheduleResult::NoProcess),
                Some(ni) => (
                    with_state(exited, ni, ProcessState::Running),
                    Some(exited[ni]->0.pid),
                    ScheduleResult::Switched(exited[ni]->0.context),
                ),
            }
        },
    }
}

/// The process table, current process and decision after the current
/// process yields with registers `saved_context`.
pub open spec fn yield_outcome(table: Seq<Option<Process>>, current: Option<u64>, saved_context: SavedUserContext) -> (
    Seq<Option<Process>>,
    Option<u64>,
    ScheduleResult,
) {
    match current {
        None => (table, current, ScheduleResult::NoProcess),
        Some(cp) => {
            let ci = slot_of(table, cp)->0;
            let saved = table.update(
                ci,
                Some(Process { context: saved_context, state: ProcessState::Ready, ..table[ci]->0 }),
            );
            match ready_after(saved, ci, 1) {
                None => (with_state(saved, ci, ProcessState::Running), current, ScheduleResult::NoProcess),
                Some(ni) => (
                    with_state(saved, ni, ProcessState::Running),
                    Some(saved[ni]->0.pid),
                    ScheduleResult::Switched(saved[ni]->0.context),
                ),
            }
        },
    }
}

/// `SYS_EXIT`: ends the current process and continues in the next ready
/// one, or halts when none is left.
pub fn syscall_exit(processes: &mut ProcessManager, frame: &mut SyscallFrame, interrupt: &mut UserInterruptFrame) -> (r:
    u64)
    requires
        old(processes).wf(),
    ensures
        final(processes).wf(),
        final(processes).pid_counter() == old(processes).pid_counter(),
        ({
            let (table, current, decision) = exit_outcome(old(processes).table(), old(processes).current_process());
            &&& final(processes).table() == table
            &&& final(processes).current_process() == current
            &&& match decision {
                ScheduleResult::Switched(context) => r == SYSCALL_SWITCH && (*final(frame), *final(interrupt))
                    == frames_of(context),
                ScheduleResult::NoProcess => r == SYSCALL_HALT && *final(frame) == *old(frame) && *final(interrupt)
                    == *old(interrupt),
            }
        }),
{
    match processes.exit_current() {
        ScheduleResult::Switched(context) => {
            load_context(context, frame, interrupt);
            SYSCALL_SWITCH
        },
        ScheduleResult::NoProcess => SYSCALL_HALT,
    }
}

/// `SYS_YIELD`: saves the caller and continues in the next ready process
/// (possibly the caller); without another one the call returns 0.
pub fn syscall_yield(processes: &mut ProcessManager, frame: &mut SyscallFrame, interrupt: &mut UserInterruptFrame) -> (r:
    u64)
    requires
        old(processes).wf(),
    ensures
        final(processes).wf(),
        final(processes).pid_counter() == old(processes).pid_counter(),
        ({
            let (table, current, decision) = yield_outcome(
                old(processes).table(),
                old(processes).current_process(),
                context_of(*old(frame), *old(interrupt)),
            );
            &&& final(processes).table() == table
            &&& final(processes).current_process() == current
            &&& match decision {
                ScheduleResult::Switched(context) => r == SYSCALL_SWITCH && (*final(frame), *final(interrupt))
                    == frames_of(context),
                ScheduleResult::NoProcess => r == SUCCESS && *final(frame) == *old(frame) && *final(interrupt)
                    == *old(interrupt),
            }
        }),
{
    let current_context = save_context(frame, interrupt);
    match processes.yield_current(current_context) {
        ScheduleResult::Switched(context) => {
            load_context(context, frame, interrupt);
            SYSCALL_SWITCH
        },
        ScheduleResult::NoProcess => SUCCESS,
    }
}

/// `SYS_GETPID`: the current process's id, or 0 without one.
pub fn syscall_getpid(processes: &ProcessManager) -> (r: u64)
    requires
        processes.wf(),
    ensures
        r == match processes.current_process() {
            Some(pid) => pid,
            None => 0,
        },
{
    match processes.current_pid() {
        Some(pid) => pid,
        None => 0,
    }
}

/// `SYS_TEST`: returns its argument.
pub fn syscall_test(value: u64) -> (r: u64)
    ensures
        r == value,
{
    value
}

/// `SYS_SLEEP`: returns at once.
pub fn syscall_sleep(frame: &SyscallFrame) -> (r: u64)
    ensures
        r == SUCCESS,
{
    SUCCESS
}

/// `SYS_WRITE`: the user buffer to write, or the call's result when the
/// length does not fit `usize` or the descriptor is not 1 (`u64::MAX`).
pub fn syscall_write_request(frame: &SyscallFrame) -> (r: Result<(u64, usize), u64>)
    ensures
        frame.rdx > usize::MAX || frame.rdi != 1 ==> r == Err::<(u64, usize), u64>(u64::MAX),
        frame.rdx <= usize::MAX && frame.rdi == 1 ==> r == Ok::<(u64, usize), u64>((frame.rsi, frame.rdx as usize)),
{
    if frame.rdx > usize::MAX as u64 {
        return Err(u64::MAX);
    }
    let length = frame.rdx as usize;
    if frame.rdi != 1 {
        return Err(u64::MAX);
    }
    Ok((frame.rsi, length))
}

/// `SYS_LAUNCH_APP`: the ELF image to launch, as the user address `rdi`
/// and length `rsi`, or the message the kernel stops with: a length that
/// does not fit `usize`, or an empty or null buffer.
pub fn syscall_launch_app_request(frame: &SyscallFrame) -> (r: Result<(u64, usize), &'static str>)
    ensures
        frame.rsi > usize::MAX ==> r == Err::<(u64, usize), &'static str>("SYS_LAUNCH_APP: ELF length overflow\n"),
        frame.rsi <= usize::MAX && (frame.rdi == 0 || frame.rsi == 0) ==> r == Err::<(u64, usize), &'static str>(
            "SYS_LAUNCH_APP: invalid ELF buffer\n",
        ),
        frame.rsi <= usize::MAX && frame.rdi != 0 && frame.rsi != 0 ==> r == Ok::<(u64, usize), &'static str>(
            (frame.rdi, frame.rsi as usize),
        ),
{
    if frame.rsi > usize::MAX as u64 {
        return Err("SYS_LAUNCH_APP: ELF length overflow\n");
    }
    let length = frame.rsi as usize;
    if frame.rdi == 0 || length == 0 {
        return Err("SYS_LAUNCH_APP: invalid ELF buffer\n");
    }
    Ok((frame.rdi, length))
}

/// The outcome of `SYS_READ`: the call's result, and the byte to store at
/// the user address when one was read.
#[derive(Clone, Copy, Debug, PartialEq, Eq, Structural)]
pub struct ReadOutcome {
    pub result: u64,
    pub store: Option<u8>,
}

/// The first key press in `events` that gives a character, with its
/// position: earlier events are consumed without effect.
pub open spec fn first_character(events: Seq<InputEvent>, i: int) -> Option<(int, u8)>
    decreases events.len() - i,
{
    if i < 0 || i >= events.len() {
        None
    } else {
        match events[i] {
            InputEvent::KeyDown { key, modifiers } => if ascii_of(key, modifiers.left_shift || modifiers.right_shift)
                != 0 {
                Some((i, ascii_of(key, modifiers.left_shift || modifiers.right_shift)))
            } else {
                first_character(events, i + 1)
            },
            _ => first_character(events, i + 1),
        }
    }
}

/// `SYS_READ` on descriptor 0: takes keyboard events until a key press
/// gives a character, which is stored at the user address and counted as
/// one byte read.  When the queue runs dry, the caller is set to repeat
/// the call (its instruction pointer moves back over the two-byte `int`)
/// and yields; if no other process runs, the pointer is restored and 0 is
/// returned.  Another descriptor, a length above `usize`, or a destination
/// that is not a writable user byte gives `u64::MAX`; a zero length gives
/// 0.
pub fn syscall_read(
    processes: &mut ProcessManager,
    input: &mut InputState,
    frame: &mut SyscallFrame,
    interrupt: &mut UserInterruptFrame,
    destination_writable: bool,
) -> (r: ReadOutcome)
    requires
        old(processes).wf(),
    ensures
        final(processes).wf(),
        final(input).mouse_queue() == old(input).mouse_queue(),
        ({
            let q = old(input).keyboard_queue();
            if old(frame).rdx > usize::MAX || old(frame).rdi != 0 {
                r == (ReadOutcome { result: u64::MAX, store: None }) && *final(input) == *old(input)
            } else if old(frame).rdx == 0 {
                r == (ReadOutcome { result: 0, store: None }) && *final(input) == *old(input)
            } else if !destination_writable {
                r == (ReadOutcome { result: u64::MAX, store: None }) && *final(input) == *old(input)
            } else {
                match first_character(q, 0) {
                    Some((i, byte)) => {
                        &&& r == (ReadOutcome { result: 1, store: Some(byte) })
                        &&& final(input).keyboard_queue() == q.subrange(i + 1, q.len() as int)
                        &&& *final(frame) == *old(frame)
                        &&& *final(interrupt) == *old(interrupt)
                        &&& final(processes).table() == old(processes).table()
                        &&& final(processes).current_process() == old(processes).current_process()
                    },
                    None => {
                        let retry = UserInterruptFrame {
                            rip: if old(interrupt).rip >= 2 {
                                (old(interrupt).rip - 2) as u64
                            } else {
                                old(interrupt).rip
                            },
                            ..*old(interrupt)
                        };
                        let (table, current, decision) = yield_outcome(
                            old(processes).table(),
                            old(processes).current_process(),
                            context_of(*old(frame), retry),
                        );
                        &&& final(input).keyboard_queue().len() == 0
                        &&& final(processes).table() == table
                        &&& final(processes).current_process() == current
                        &&& match decision {
                            ScheduleResult::Switched(context) => r == (ReadOutcome {
                                result: SYSCALL_SWITCH,
                                store: None,
                            }) && (*final(frame), *final(interrupt)) == frames_of(context),
                            ScheduleResult::NoProcess => r == (ReadOutcome { result: 0, store: None })
                                && *final(frame) == *old(frame) && *final(interrupt) == *old(interrupt),
                        }
                    },
                }
            }
        }),
{
    if frame.rdx > usize::MAX as u64 {
        return ReadOutcome { result: u64::MAX, store: None };
    }
    let length = frame.rdx as usize;
    if frame.rdi != 0 {
        return ReadOutcome { result: u64::MAX, store: None };
    }
    if length == 0 {
        return ReadOutcome { result: 0, store: None };
    }
    if !destination_writable {
        return ReadOutcome { result: u64::MAX, store: None };
    }
    let ghost q = input.keyboard_queue();
    let ghost mut taken: int = 0;
    loop
        invariant_except_break
            0 <= taken <= q.len(),
            input.keyboard_queue() == q.subrange(taken, q.len() as int),
            first_character(q, taken) == first_character(q, 0),
            input.mouse_queue() == old(input).mouse_queue(),
            q == old(input).keyboard_queue(),
            *processes == *old(processes),
            *frame == *old(frame),
            *interrupt == *old(interrupt),
            old(processes).wf(),
            old(frame).rdx <= usize::MAX,
            old(frame).rdi == 0,
            old(frame).rdx != 0,
            destination_writable,
        ensures
            first_character(q, 0) is None,
            input.keyboard_queue().len() == 0,
            old(processes).wf(),
            input.mouse_queue() == old(input).mouse_queue(),
            *processes == *old(processes),
            *frame == *old(frame),
            *interrupt == *old(interrupt),
        decreases q.len() - taken,
    {
        let event = poll_keyboard_event(input);
        match event {
            None => {
                break;
            },
            Some(InputEvent::KeyDown { key, modifiers }) => {
                let ascii = key_to_ascii(key, modifiers);
                proof {
                    taken = taken + 1;
                }
                if ascii != 0 {
                    return ReadOutcome { result: 1, store: Some(ascii) };
                }
            },
            Some(_) => {
                proof {
                    taken = taken + 1;
                }
            },
        }
    }
    let original_rip = interrupt.rip;
    interrupt.rip = if interrupt.rip >= 2 { interrupt.rip - 2 } else { interrupt.rip };
    let current_context = save_context(frame, interrupt);
    match processes.yield_current(current_context) {
        ScheduleResult::Switched(context) => {
            load_context(context, frame, interrupt);
            ReadOutcome { result: SYSCALL_SWITCH, store: None }
        },
        ScheduleResult::NoProcess => {
            interrupt.rip = original_rip;
            ReadOutcome { result: 0, store: None }
        },
    }
}

// ============================================================
// Window calls
// ============================================================

/// Whether the window manager exists and is well formed, when it exists.
pub open spec fn manager_ok(compositor: Option<Compositor>) -> bool {
    compositor matches Some(c) ==> c.wf()
}

/// Everything of the manager but its windows is unchanged.
pub open spec fn same_but_windows(after: Compositor, before: Compositor) -> bool {
    &&& after.pointer() == before.pointer()
    &&& after.cursor_drawn() == before.cursor_drawn()
    &&& after.next_id() == before.next_id()
    &&& after.next_z() == before.next_z()
    &&& after.screen_width == before.screen_width
    &&& after.screen_height == before.screen_height
    &&& after.backbuffer == before.backbuffer
    &&& after.hardware_framebuffer == before.hardware_framebuffer
}

/// `SYS_FILL_RECT`: fills a rectangle of window `rdi` at (`rsi`, `rdx`) of
/// `r10` by `r8` pixels with the colour in `r9`; 1 when the window exists.
pub fn syscall_fill_rect(compositor: &mut Option<Compositor>, frame: &SyscallFrame) -> (r: u64)
    requires
        manager_ok(*old(compositor)),
    ensures
        manager_ok(*final(compositor)),
        match *old(compositor) {
            None => r == 0 && *final(compositor) is None,
            Some(before) => *final(compositor) matches Some(after) && same_but_windows(after, before) && (r == 1)
                == before.window_table().contains_key(frame.rdi) && (r == 0 || r == 1) && (r == 1 ==> after.window_table()
                == before.window_table().insert(frame.rdi, after.window_table()[frame.rdi])
                && after.window_table()[frame.rdi].rect_filled_from(
                before.window_table()[frame.rdi],
                frame.rsi as usize as int,
                frame.rdx as usize as int,
                frame.r10 as usize as int,
                frame.r8 as usize as int,
                frame.r9 as u32,
            )) && (r == 0 ==> after.window_table() == before.window_table()),
        },
{
    let mut wm = match compositor.take() {
        Some(wm) => wm,
        None => return 0,
    };
    let done = wm.fill_window_rect(
        frame.rdi,
        frame.rsi as usize,
        frame.rdx as usize,
        frame.r10 as usize,
        frame.r8 as usize,
        frame.r9 as u32,
    );
    *compositor = Some(wm);
    if done {
        1
    } else {
        0
    }
}

/// Whether the far edges of the outline asked for by `SYS_DRAW_RECT` can
/// be computed.
pub open spec fn draw_rect_fits(frame: SyscallFrame) -> bool {
    frame.rsi as usize + frame.r10 as usize <= usize::MAX + 1 && frame.rdx as usize + frame.r8 as usize <= usize::MAX
        + 1
}

/// `SYS_DRAW_RECT`: draws the one-pixel outline of the rectangle at
/// (`rsi`, `rdx`) of `r10` by `r8` pixels in window `rdi`, in the colour
/// in `r9`, as four filled strips; 1 when it was drawn.  An empty
/// rectangle or a missing window gives 0 and changes nothing.  The far
/// edges must be addressable (the kernel's arithmetic on them overflows
/// otherwise).
pub fn syscall_draw_rect(compositor: &mut Option<Compositor>, frame: &SyscallFrame) -> (r: u64)
    requires
        manager_ok(*old(compositor)),
        draw_rect_fits(*frame),
    ensures
        manager_ok(*final(compositor)),
        frame.r10 as usize == 0 || frame.r8 as usize == 0 ==> r == 0 && *final(compositor) == *old(compositor),
        match *old(compositor) {
            None => r == 0 && *final(compositor) is None,
            Some(before) => *final(compositor) matches Some(after) && same_but_windows(after, before) && (r == 1 <==> (
            frame.r10 as usize != 0 && frame.r8 as usize != 0 && before.window_table().contains_key(frame.rdi)))
                && (r == 0 || r == 1) && (r == 0
                ==> after.window_table() == before.window_table()) && (r == 1 ==> after.window_table()
                == before.window_table().insert(frame.rdi, after.window_table()[frame.rdi])
                && after.window_table()[frame.rdi].outline_drawn_from(
                before.window_table()[frame.rdi],
                frame.rsi as usize as int,
                frame.rdx as usize as int,
                frame.r10 as usize as int,
                frame.r8 as usize as int,
                frame.r9 as u32,
            )),
        },
{
    let x = frame.rsi as usize;
    let y = frame.rdx as usize;
    let width = frame.r10 as usize;
    let height = frame.r8 as usize;
    let color = frame.r9 as u32;
    if width == 0 || height == 0 {
        return 0;
    }
    let mut wm = match compositor.take() {
        Some(wm) => wm,
        None => return 0,
    };
    let ghost before = wm;
    let id = frame.rdi;
    if !wm.fill_window_rect(id, x, y, width, 1, color) {
        *compositor = Some(wm);
        return 0;
    }
    let ghost w1 = wm.window_table()[id];
    wm.fill_window_rect(id, x, y + (height - 1), width, 1, color);
    let ghost w2 = wm.window_table()[id];
    wm.fill_window_rect(id, x, y, 1, height, color);
    let ghost w3 = wm.window_table()[id];
    wm.fill_window_rect(id, x + (width - 1), y, 1, height, color);
    proof {
        let w0 = before.window_table()[id];
        let w4 = wm.window_table()[id];
        assert(wm.window_table() =~= before.window_table().insert(id, w4));
        assert forall|px: int, py: int| w0.contains(px, py) implies #[trigger] pixel_at(
            w4.pixels@,
            w0.width as int,
            px,
            py,
        ) == if on_outline(px, py, x as int, y as int, width as int, height as int) {
            color
        } else {
            pixel_at(w0.pixels@, w0.width as int, px, py)
        } by {
            assert(w1.contains(px, py));
            assert(w2.contains(px, py));
            assert(w3.contains(px, py));
        }
    }
    *compositor = Some(wm);
    1
}

/// Whether `SYS_CREATE_WINDOW` asks for a window size the window type
/// accepts.
pub open spec fn create_window_size_ok(frame: SyscallFrame) -> bool {
    0 < frame.rdx as usize <= MAX_WINDOW_WIDTH && 0 < frame.r10 as usize <= MAX_WINDOW_HEIGHT
}

/// `SYS_CREATE_WINDOW`: a window at (`rdi`, `rsi`) of `rdx` by `r10`
/// pixels; its id, or 0 without a window manager.
pub fn syscall_create_window(compositor: &mut Option<Compositor>, frame: &SyscallFrame) -> (r: u64)
    requires
        manager_ok(*old(compositor)),
        *old(compositor) is Some ==> create_window_size_ok(*frame),
    ensures
        manager_ok(*final(compositor)),
        match *old(compositor) {
            None => r == 0 && *final(compositor) is None,
            Some(before) => *final(compositor) matches Some(after) && r == before.next_id()
                && after.window_table().contains_key(r) && after.window_table() == before.window_table().insert(
                r,
                after.window_table()[r],
            ) && after.window_table()[r].x == frame.rdi as i32 && after.window_table()[r].y == frame.rsi as i32
                && after.window_table()[r].width == frame.rdx as usize && after.window_table()[r].height
                == frame.r10 as usize,
        },
{
    let mut wm = match compositor.take() {
        Some(wm) => wm,
        None => return 0,
    };
    let id = wm.create_window(frame.rdi as i32, frame.rsi as i32, frame.rdx as usize, frame.r10 as usize);
    *compositor = Some(wm);
    id
}

/// The byte length of `pixel_count` pixels, when it fits `usize`.
pub fn update_window_byte_length(pixel_count: usize) -> (r: Option<usize>)
    ensures
        pixel_count * 4 <= usize::MAX ==> r == Some((pixel_count * 4) as usize),
        pixel_count * 4 > usize::MAX ==> r is None,
{
    pixel_count.checked_mul(4)
}

/// `SYS_UPDATE_WINDOW`: replaces the pixels of window `rdi` with the
/// `rdx` pixels at user address `rsi`, read as `pixels` (`None` when the
/// user range is not readable); 1 on success.
pub fn syscall_update_window(compositor: &mut Option<Compositor>, frame: &SyscallFrame, pixels: Option<&[u32]>) -> (r:
    u64)
    requires
        manager_ok(*old(compositor)),
    ensures
        manager_ok(*final(compositor)),
        (r == 0 || r == 1),
        r == 1 <==> (*old(compositor) matches Some(before) && pixels matches Some(p) && (frame.rdx as usize) * 4
            <= usize::MAX && before.window_table().contains_key(frame.rdi) && p@.len()
            == before.window_table()[frame.rdi].pixels@.len()),
        r == 1 ==> (*final(compositor) matches Some(after) && *old(compositor) matches Some(before) && pixels matches Some(p)
            && after.window_table()[frame.rdi].pixels@ == p@ && after.window_table() == before.window_table().insert(
            frame.rdi,
            after.window_table()[frame.rdi],
        )),
        r == 0 ==> (match *old(compositor) {
            None => *final(compositor) is None,
            Some(before) => *final(compositor) matches Some(after) && after.window_table() == before.window_table(),
        }),
{
    let pixel_count = frame.rdx as usize;
    if pixel_count.checked_mul(4).is_none() {
        return 0;
    }
    let user_pixels = match pixels {
        Some(p) => p,
        None => return 0,
    };
    let mut wm = match compositor.take() {
        Some(wm) => wm,
        None => return 0,
    };
    let done = wm.update_window_pixels(frame.rdi, user_pixels);
    *compositor = Some(wm);
    if done {
        1
    } else {
        0
    }
}

/// The string of a `SYS_DRAW_STRING` request: the `r8` bytes at user
/// address `r10`, read as `bytes` (`None` when the user range is not
/// readable), when they are valid UTF-8.
pub fn syscall_draw_string_text(bytes: Option<&[u8]>) -> (r: Option<&str>)
    ensures
        bytes is None ==> r is None,
        r matches Some(text) ==> (bytes matches Some(b) && text.spec_bytes() == b@),
        r is Some <==> (bytes matches Some(b) && vstd::utf8::valid_utf8(b@)),
{
    match bytes {
        None => None,
        Some(b) => utf8_str(b),
    }
}

/// `SYS_DRAW_STRING`: draws a string in white into window `rdi` with its
/// first line's top-left corner at (`rsi`, `rdx`) at scale `r9`; the
/// string comes as what the font made of its characters (`None` when the
/// user range was not readable or not UTF-8).  1 when the window exists.
pub fn syscall_draw_string(
    compositor: &mut Option<Compositor>,
    frame: &SyscallFrame,
    glyphs: Option<&[TextGlyph]>,
    ascent: i32,
    line_height: i32,
) -> (r: u64)
    requires
        manager_ok(*old(compositor)),
        glyphs matches Some(g) ==> shapes_fit(g@),
    ensures
        manager_ok(*final(compositor)),
        (r == 0 || r == 1),
        r == 1 <==> (*old(compositor) matches Some(before) && glyphs is Some && before.window_table().contains_key(
            frame.rdi,
        )),
        r == 1 ==> (*final(compositor) matches Some(after) && *old(compositor) matches Some(before) && glyphs matches Some(
            g,
        ) && after.window_table() == before.window_table().insert(frame.rdi, after.window_table()[frame.rdi])
            && after.window_table()[frame.rdi].string_drawn_from(
            before.window_table()[frame.rdi],
            frame.rsi as usize,
            frame.rdx as usize,
            g@,
            ascent,
            line_height,
            Color { r: 245, g: 248, b: 255, a: 255 },
            frame.r9 as usize,
        )),
        r == 0 ==> (match *old(compositor) {
            None => *final(compositor) is None,
            Some(before) => *final(compositor) matches Some(after) && after.window_table() == before.window_table(),
        }),
{
    let text = match glyphs {
        Some(g) => g,
        None => return 0,
    };
    let mut wm = match compositor.take() {
        Some(wm) => wm,
        None => return 0,
    };
    let done = wm.draw_window_string(
        frame.rdi,
        frame.rsi as usize,
        frame.rdx as usize,
        text,
        ascent,
        line_height,
        Color::white(),
        frame.r9 as usize,
    );
    *compositor = Some(wm);
    if done {
        1
    } else {
        0
    }
}

/// `SYS_FLUSH_SCREEN`: composes the desktop; 1 when there is a window
/// manager.
pub fn syscall_flush_screen(compositor: &mut Option<Compositor>) -> (r: u64)
    requires
        manager_ok(*old(compositor)),
    ensures
        manager_ok(*final(compositor)),
        r == (if *old(compositor) is Some { 1u64 } else { 0u64 }),
        *old(compositor) is None ==> *final(compositor) is None,
        *old(compositor) matches Some(before) ==> *final(compositor) matches Some(after) && after.windows == before.windows
            && after.cursor_drawn() == Some((before.mouse_x, before.mouse_y)),
{
    let mut wm = match compositor.take() {
        Some(wm) => wm,
        None => return 0,
    };
    wm.draw();
    *compositor = Some(wm);
    1
}

/// `SYS_CLICK`: takes the waiting click at (`rdi`, `rsi`); 1 when taken.
pub fn syscall_click(compositor: &mut Option<Compositor>, frame: &SyscallFrame) -> (r: u64)
    requires
        manager_ok(*old(compositor)),
    ensures
        manager_ok(*final(compositor)),
        match *old(compositor) {
            None => r == 0 && *final(compositor) is None,
            Some(before) => *final(compositor) matches Some(after) && ((r == 1), after.pointer())
                == crate::wm::compositor::take_click(before.pointer(), frame.rdi as usize, frame.rsi as usize)
                && (r == 0 || r == 1) && after.same_except_pointer(before),
        },
{
    let mut wm = match compositor.take() {
        Some(wm) => wm,
        None => return 0,
    };
    let taken = wm.sys_click(frame.rdi as usize, frame.rsi as usize);
    *compositor = Some(wm);
    if taken {
        1
    } else {
        0
    }
}

/// `SYS_CLICK_RECT`: takes the waiting click inside the rectangle at
/// (`rdi`, `rsi`) of `rdx` by `r10`; 1 when taken.
pub fn syscall_click_rect(compositor: &mut Option<Compositor>, frame: &SyscallFrame) -> (r: u64)
    requires
        manager_ok(*old(compositor)),
    ensures
        manager_ok(*final(compositor)),
        match *old(compositor) {
            None => r == 0 && *final(compositor) is None,
            Some(before) => *final(compositor) matches Some(after) && ((r == 1), after.pointer())
                == crate::wm::compositor::take_click_in_rect(
                before.pointer(),
                frame.rdi as usize,
                frame.rsi as usize,
                frame.rdx as usize,
                frame.r10 as usize,
            ) && (r == 0 || r == 1) && after.same_except_pointer(before),
        },
{
    let mut wm = match compositor.take() {
        Some(wm) => wm,
        None => return 0,
    };
    let taken = wm.sys_click_rect(frame.rdi as usize, frame.rsi as usize, frame.rdx as usize, frame.r10 as usize);
    *compositor = Some(wm);
    if taken {
        1
    } else {
        0
    }
}

/// `SYS_DESTROY_WINDOW`: destroys window `rdi` and composes the desktop
/// again; 1 when it existed.
pub fn syscall_destroy_window(compositor: &mut Option<Compositor>, frame: &SyscallFrame) -> (r: u64)
    requires
        manager_ok(*old(compositor)),
    ensures
        manager_ok(*final(compositor)),
        match *old(compositor) {
            None => r == 0 && *final(compositor) is None,
            Some(before) => *final(compositor) matches Some(after) && (r == 1) == before.window_table().contains_key(
                frame.rdi,
            ) && (r == 0 || r == 1) && after.window_table() == before.window_table().remove(frame.rdi),
        },
{
    let mut wm = match compositor.take() {
        Some(wm) => wm,
        None => return 0,
    };
    if wm.destroy_window(frame.rdi) {
        wm.draw();
        *compositor = Some(wm);
        1
    } else {
        *compositor = Some(wm);
        0
    }
}

/// Takes pending mouse events and, when one concerned the pointer, moves
/// the cursor on the screen picture.
pub fn service_mouse(compositor: &mut Option<Compositor>, input: &mut InputState)
    requires
        manager_ok(*old(compositor)),
    ensures
        manager_ok(*final(compositor)),
        *old(compositor) is None ==> *final(compositor) is None && *final(input) == *old(input),
        *old(compositor) matches Some(before) ==> (*final(compositor) matches Some(after) && after.windows
            == before.windows && after.backbuffer == before.backbuffer && ({
            let q = old(input).mouse_queue();
            let n = if q.len() < 32 { q.len() as int } else { 32 };
            &&& final(input).mouse_queue() == q.subrange(n, q.len() as int)
            &&& after.pointer() == pointer_steps(before.pointer(), q.subrange(0, n), before.screen_width, before.screen_height)
        })),
        final(input).keyboard_queue() == old(input).keyboard_queue(),
{
    let mut wm = match compositor.take() {
        Some(wm) => wm,
        None => return,
    };
    if wm.update_mouse(input) {
        wm.update_cursor_only();
    }
    *compositor = Some(wm);
}

/// The system calls.
#[derive(Clone, Copy, Debug, PartialEq, Eq, Structural)]
pub enum Syscall {
    Exit,
    Yield,
    GetPid,
    Test,
    Write,
    Read,
    Sleep,
    FillRect,
    DrawString,
    DrawRect,
    CreateWindow,
    UpdateWindow,
    FlushScreen,
    Click,
    DestroyWindow,
    LaunchApp,
    ClickRect,
}

/// The call a number names, if any.
pub open spec fn syscall_of(number: u64) -> Option<Syscall> {
    if number == SYS_EXIT {
        Some(Syscall::Exit)
    } else if number == SYS_YIELD {
        Some(Syscall::Yield)
    } else if number == SYS_GETPID {
        Some(Syscall::GetPid)
    } else if number == SYS_TEST {
        Some(Syscall::Test)
    } else if number == SYS_WRITE {
        Some(Syscall::Write)
    } else if number == SYS_READ {
        Some(Syscall::Read)
    } else if number == SYS_SLEEP {
        Some(Syscall::Sleep)
    } else if number == SYS_FILL_RECT {
        Some(Syscall::FillRect)
    } else if number == SYS_DRAW_STRING {
        Some(Syscall::DrawString)
    } else if number == SYS_DRAW_RECT {
        Some(Syscall::DrawRect)
    } else if number == SYS_CREATE_WINDOW {
        Some(Syscall::CreateWindow)
    } else if number == SYS_UPDATE_WINDOW {
        Some(Syscall::UpdateWindow)
    } else if number == SYS_FLUSH_SCREEN {
        Some(Syscall::FlushScreen)
    } else if number == SYS_CLICK {
        Some(Syscall::Click)
    } else if number == SYS_DESTROY_WINDOW {
        Some(Syscall::DestroyWindow)
    } else if number == SYS_LAUNCH_APP {
        Some(Syscall::LaunchApp)
    } else if number == SYS_CLICK_RECT {
        Some(Syscall::ClickRect)
    } else {
        None
    }
}

/// The number of each call: the `SYS_` constant named after it.
pub open spec fn syscall_number(call: Syscall) -> u64 {
    match call {
        Syscall::Exit => SYS_EXIT,
        Syscall::Yield => SYS_YIELD,
        Syscall::GetPid => SYS_GETPID,
        Syscall::Test => SYS_TEST,
        Syscall::Write => SYS_WRITE,
        Syscall::Read => SYS_READ,
        Syscall::Sleep => SYS_SLEEP,
        Syscall::FillRect => SYS_FILL_RECT,
        Syscall::DrawString => SYS_DRAW_STRING,
        Syscall::DrawRect => SYS_DRAW_RECT,
        Syscall::CreateWindow => SYS_CREATE_WINDOW,
        Syscall::UpdateWindow => SYS_UPDATE_WINDOW,
        Syscall::FlushScreen => SYS_FLUSH_SCREEN,
        Syscall::Click => SYS_CLICK,
        Syscall::DestroyWindow => SYS_DESTROY_WINDOW,
        Syscall::LaunchApp => SYS_LAUNCH_APP,
        Syscall::ClickRect => SYS_CLICK_RECT,
    }
}

/// Decoding a number gives the call whose constant it is, and only such a
/// call: every call's own number decodes to that call, a decoded call has
/// the number that was decoded, and a number that is no call's constant
/// decodes to nothing.
pub proof fn lemma_syscall_numbers(call: Syscall, number: u64)
    ensures
        syscall_of(syscall_number(call)) == Some(call),
        syscall_of(number) matches Some(c) ==> syscall_number(c) == number,
        syscall_of(number) is None ==> syscall_number(call) != number,
{
}

/// The call a number names; `None` is answered with `ENOSYS`.
pub fn syscall_kind(number: u64) -> (r: Option<Syscall>)
    ensures
        r == syscall_of(number),
        r matches Some(call) ==> syscall_number(call) == number,
        forall|call: Syscall| #[trigger] syscall_number(call) == number ==> r == Some(call),
{
    if number == SYS_EXIT {
        Some(Syscall::Exit)
    } else if number == SYS_YIELD {
        Some(Syscall::Yield)
    } else if number == SYS_GETPID {
        Some(Syscall::GetPid)
    } else if number == SYS_TEST {
        Some(Syscall::Test)
    } else if number == SYS_WRITE {
        Some(Syscall::Write)
    } else if number == SYS_READ {
        Some(Syscall::Read)
    } else if number == SYS_SLEEP {
        Some(Syscall::Sleep)
    } else if number == SYS_FILL_RECT {
        Some(Syscall::FillRect)
    } else if number == SYS_DRAW_STRING {
        Some(Syscall::DrawString)
    } else if number == SYS_DRAW_RECT {
        Some(Syscall::DrawRect)
    } else if number == SYS_CREATE_WINDOW {
        Some(Syscall::CreateWindow)
    } else if number == SYS_UPDATE_WINDOW {
        Some(Syscall::UpdateWindow)
    } else if number == SYS_FLUSH_SCREEN {
        Some(Syscall::FlushScreen)
    } else if number == SYS_CLICK {
        Some(Syscall::Click)
    } else if number == SYS_DESTROY_WINDOW {
        Some(Syscall::DestroyWindow)
    } else if number == SYS_LAUNCH_APP {
        Some(Syscall::LaunchApp)
    } else if number == SYS_CLICK_RECT {
        Some(Syscall::ClickRect)
    } else {
        None
    }
}

} // verus!
