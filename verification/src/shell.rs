//! The user-space terminal program: its scrolling history of lines, the
//! line being typed, its commands, and where its texts go in its window.
//!
//! The program itself reads keys and draws through system calls; these
//! functions hold what it decides.

use vstd::prelude::*;

verus! {

/// Width of the terminal window.
pub const SHELL_WIDTH: usize = 700;

/// Height of the terminal window.
pub const SHELL_HEIGHT: usize = 450;

/// Longest line, typed or shown.
pub const INPUT_MAX: usize = 128;

/// Left edge of the text.
pub const TEXT_X: usize = 20;

/// Top of the first line.
pub const TEXT_Y: usize = 20;

/// Distance between lines.
pub const LINE_HEIGHT: usize = 16;

/// Width of one character.
pub const CHAR_WIDTH: usize = 8;

/// Space between the prompt and the typed text.
pub const PROMPT_GAP: usize = 4;

/// Extra space between the history and the prompt.
pub const PROMPT_GAP_Y: usize = 8;

/// Lines of history kept: as many as fit above the prompt.
pub const MAX_LINES: usize = 24;

// ============================================================
// Numbers
// ============================================================

/// The decimal digits of `v`, most significant first.
pub open spec fn decimal_digits(v: nat) -> Seq<u8>
    decreases v,
{
    if v < 10 {
        seq![(48 + v) as u8]
    } else {
        decimal_digits(v / 10).push((48 + v % 10) as u8)
    }
}

/// The number that ASCII decimal digits spell, most significant first.
pub open spec fn digits_value(digits: Seq<u8>) -> nat
    decreases digits.len(),
{
    if digits.len() == 0 {
        0
    } else {
        digits_value(digits.drop_last()) * 10 + (digits.last() - 48) as nat
    }
}

/// The digits written for a number are decimal digits that spell it back.
pub proof fn lemma_decimal_digits_round_trip(v: nat)
    ensures
        digits_value(decimal_digits(v)) == v,
        decimal_digits(v).len() >= 1,
        forall|i: int| 0 <= i < decimal_digits(v).len() ==> 48 <= #[trigger] decimal_digits(v)[i] <= 57,
    decreases v,
{
    let d = decimal_digits(v);
    if v >= 10 {
        lemma_decimal_digits_round_trip(v / 10);
        assert(d.drop_last() =~= decimal_digits(v / 10));
        assert(d.last() == (48 + v % 10) as u8);
        assert((v / 10) * 10 + v % 10 == v) by (nonlinear_arith);
    } else {
        assert(d.drop_last() =~= Seq::<u8>::empty());
        assert(digits_value(d.drop_last()) == 0);
    }
}

fn digits_of(v: u64) -> (r: Vec<u8>)
    ensures
        r@ == decimal_digits(v as nat),
    decreases v,
{
    if v < 10 {
        let mut d: Vec<u8> = Vec::new();
        d.push(48 + v as u8);
        d
    } else {
        let mut d = digits_of(v / 10);
        d.push(48 + (v % 10) as u8);
        d
    }
}

/// Writes the decimal digits of `value` at the start of `output`, as
/// many of the leading digits as fit; returns how many were written.
pub fn write_number(value: u64, output: &mut [u8]) -> (r: usize)
    ensures
        r == (if decimal_digits(value as nat).len() < old(output)@.len() {
            decimal_digits(value as nat).len()
        } else {
            old(output)@.len()
        }),
        final(output)@ == decimal_digits(value as nat).take(r as int) + old(output)@.skip(r as int),
{
    let digits = digits_of(value);
    let length = if digits.len() < output.len() {
        digits.len()
    } else {
        output.len()
    };
    let ghost start = output@;
    let mut i: usize = 0;
    while i < length
        invariant
            i <= length,
            length <= digits@.len(),
            length <= start.len(),
            output@.len() == start.len(),
            digits@ == decimal_digits(value as nat),
            output@ == digits@.take(i as int) + start.skip(i as int),
        decreases length - i,
    {
        output[i] = digits[i];
        proof {
            assert(output@ =~= digits@.take(i + 1) + start.skip(i + 1));
        }
        i = i + 1;
    }
    length
}

// ============================================================
// History
// ============================================================

/// `text` cut to the longest line.
pub open spec fn clipped(text: Seq<u8>) -> Seq<u8> {
    if text.len() <= INPUT_MAX {
        text
    } else {
        text.take(INPUT_MAX as int)
    }
}

/// The history after a line is added: the line, cut to the longest line,
/// goes at the end; when the history is full its oldest line goes.
pub open spec fn added(history: Seq<Seq<u8>>, text: Seq<u8>) -> Seq<Seq<u8>> {
    if history.len() >= MAX_LINES {
        history.drop_first().push(clipped(text))
    } else {
        history.push(clipped(text))
    }
}

/// The history keeps the newest lines in order: after a line is added
/// it is the last one, the lines before it are the newest of the old
/// ones, and there are never more than `MAX_LINES`.
pub proof fn lemma_history_keeps_newest(history: Seq<Seq<u8>>, text: Seq<u8>)
    requires
        history.len() <= MAX_LINES,
    ensures
        added(history, text).len() <= MAX_LINES,
        added(history, text).last() == clipped(text),
        added(history, text).drop_last() == history.skip(history.len() - (added(history, text).len() - 1)),
        clipped(text).len() <= INPUT_MAX,
{
    let after = added(history, text);
    if history.len() >= MAX_LINES {
        assert(after.drop_last() =~= history.skip(1));
    } else {
        assert(after.drop_last() =~= history.skip(0));
    }
}

/// The lines the terminal shows, oldest first.
pub struct ShellHistory {
    pub lines: Vec<Vec<u8>>,
}

impl ShellHistory {
    /// The lines as byte sequences.
    pub open spec fn shown(&self) -> Seq<Seq<u8>> {
        self.lines@.map_values(|line: Vec<u8>| line@)
    }

    /// At most `MAX_LINES` lines of at most `INPUT_MAX` bytes.
    pub open spec fn wf(&self) -> bool {
        &&& self.lines@.len() <= MAX_LINES
        &&& forall|i: int| 0 <= i < self.lines@.len() ==> (#[trigger] self.lines@[i])@.len() <= INPUT_MAX
    }

    /// No lines.
    pub fn new() -> (r: Self)
        ensures
            r.wf(),
            r.shown() == Seq::<Seq<u8>>::empty(),
    {
        let r = ShellHistory { lines: Vec::new() };
        proof {
            assert(r.shown() =~= Seq::<Seq<u8>>::empty());
        }
        r
    }

    /// Adds a line at the end, dropping the oldest when full.
    pub fn add_line(&mut self, text: &[u8])
        requires
            old(self).wf(),
        ensures
            final(self).wf(),
            final(self).shown() == added(old(self).shown(), text@),
    {
        let ghost before = self.shown();
        let length = if text.len() < INPUT_MAX {
            text.len()
        } else {
            INPUT_MAX
        };
        let mut line: Vec<u8> = Vec::new();
        let mut i: usize = 0;
        while i < length
            invariant
                i <= length,
                length <= text@.len(),
                length <= INPUT_MAX,
                line@ == text@.take(i as int),
            decreases length - i,
        {
            line.push(text[i]);
            proof {
                assert(line@ =~= text@.take(i + 1));
            }
            i = i + 1;
        }
        proof {
            assert(line@ =~= clipped(text@));
        }
        if self.lines.len() >= MAX_LINES {
            self.lines.remove(0);
            proof {
                assert(self.shown() =~= before.drop_first());
            }
        }
        let ghost kept = self.shown();
        self.lines.push(line);
        proof {
            assert(self.shown() =~= kept.push(clipped(text@)));
            assert(self.shown() =~= added(before, text@));
        }
    }

    /// Forgets every line.
    pub fn clear(&mut self)
        ensures
            final(self).wf(),
            final(self).shown() == Seq::<Seq<u8>>::empty(),
    {
        self.lines = Vec::new();
        proof {
            assert(self.shown() =~= Seq::<Seq<u8>>::empty());
        }
    }
}

// ============================================================
// Commands
// ============================================================

/// The help text.
pub open spec fn help_lines() -> Seq<Seq<u8>> {
    seq![
        seq![65u8, 118, 97, 105, 108, 97, 98, 108, 101, 32, 99, 111, 109, 109, 97, 110, 100, 115, 58],
        seq![32u8, 32, 104, 101, 108, 112],
        seq![32u8, 32, 99, 108, 101, 97, 114],
        seq![32u8, 32, 112, 105, 100],
        seq![32u8, 32, 101, 99, 104, 111, 32, 60, 116, 101, 120, 116, 62],
    ]
}

/// The reply to a command that is not known.
pub open spec fn unknown_lines() -> Seq<Seq<u8>> {
    seq![
        seq![85u8, 110, 107, 110, 111, 119, 110, 32, 99, 111, 109, 109, 97, 110, 100, 46],
        seq![84u8, 121, 112, 101, 32, 39, 104, 101, 108, 112, 39, 32, 102, 111, 114, 32, 104, 101, 108, 112, 46],
    ]
}

/// `help`.
pub open spec fn help_command() -> Seq<u8> {
    seq![104u8, 101, 108, 112]
}

/// `clear`.
pub open spec fn clear_command() -> Seq<u8> {
    seq![99u8, 108, 101, 97, 114]
}

/// `pid`.
pub open spec fn pid_command() -> Seq<u8> {
    seq![112u8, 105, 100]
}

/// `echo ` (with its space).
pub open spec fn echo_prefix() -> Seq<u8> {
    seq![101u8, 99, 104, 111, 32]
}

/// `PID: `.
pub open spec fn pid_prefix() -> Seq<u8> {
    seq![80u8, 73, 68, 58, 32]
}

/// Adds `lines` in order.
pub open spec fn added_all(history: Seq<Seq<u8>>, lines: Seq<Seq<u8>>) -> Seq<Seq<u8>>
    decreases lines.len(),
{
    if lines.len() == 0 {
        history
    } else {
        added_all(added(history, lines[0]), lines.drop_first())
    }
}

/// The history after `command` runs in a process whose id is `pid`:
/// nothing for an empty line; the help for `help`; nothing left for
/// `clear`; the process id for `pid`; the rest of the line for `echo `;
/// otherwise a line saying the command is unknown and a hint.
pub open spec fn after_command(history: Seq<Seq<u8>>, command: Seq<u8>, pid: u64) -> Seq<Seq<u8>> {
    if command.len() == 0 {
        history
    } else if command == help_command() {
        added_all(history, help_lines())
    } else if command == clear_command() {
        Seq::empty()
    } else if command == pid_command() {
        added(history, pid_prefix() + decimal_digits(pid as nat))
    } else if command.len() >= 5 && command.take(5) == echo_prefix() {
        added(history, command.skip(5))
    } else {
        added_all(history, unknown_lines())
    }
}

/// Whether `command` is `pid`, the one command that needs the process id.
pub fn needs_pid(command: &[u8]) -> (r: bool)
    ensures
        r == (command@ == pid_command()),
{
    let r = command.len() == 3 && command[0] == 112 && command[1] == 105 && command[2] == 100;
    proof {
        if command@.len() == 3 && command@[0] == 112 && command@[1] == 105 && command@[2] == 100 {
            assert(command@ =~= pid_command());
        }
    }
    r
}

fn bytes_equal(a: &[u8], b: &[u8]) -> (r: bool)
    ensures
        r == (a@ == b@),
{
    if a.len() != b.len() {
        return false;
    }
    let mut i: usize = 0;
    while i < a.len()
        invariant
            i <= a@.len(),
            a@.len() == b@.len(),
            forall|k: int| 0 <= k < i ==> a@[k] == b@[k],
        decreases a@.len() - i,
    {
        if a[i] != b[i] {
            return false;
        }
        i = i + 1;
    }
    proof {
        assert(a@ =~= b@);
    }
    true
}

fn add_lines(history: &mut ShellHistory, lines: &Vec<Vec<u8>>)
    requires
        old(history).wf(),
    ensures
        final(history).wf(),
        final(history).shown() == added_all(old(history).shown(), lines@.map_values(|l: Vec<u8>| l@)),
{
    let ghost all = lines@.map_values(|l: Vec<u8>| l@);
    proof {
        assert(all.skip(0) =~= all);
    }
    let mut i: usize = 0;
    while i < lines.len()
        invariant
            history.wf(),
            i <= lines@.len(),
            all == lines@.map_values(|l: Vec<u8>| l@),
            added_all(old(history).shown(), all) == added_all(history.shown(), all.skip(i as int)),
        decreases lines@.len() - i,
    {
        proof {
            assert(all.skip(i as int).drop_first() =~= all.skip(i + 1));
            assert(all.skip(i as int)[0] == lines@[i as int]@);
        }
        history.add_line(lines[i].as_slice());
        i = i + 1;
    }
    proof {
        assert(all.skip(i as int) =~= Seq::<Seq<u8>>::empty());
    }
}

fn help_text() -> (r: Vec<Vec<u8>>)
    ensures
        r@.map_values(|l: Vec<u8>| l@) == help_lines(),
{
    let mut r: Vec<Vec<u8>> = Vec::new();
    r.push(vec![65u8, 118, 97, 105, 108, 97, 98, 108, 101, 32, 99, 111, 109, 109, 97, 110, 100, 115, 58]);
    r.push(vec![32u8, 32, 104, 101, 108, 112]);
    r.push(vec![32u8, 32, 99, 108, 101, 97, 114]);
    r.push(vec![32u8, 32, 112, 105, 100]);
    r.push(vec![32u8, 32, 101, 99, 104, 111, 32, 60, 116, 101, 120, 116, 62]);
    proof {
        assert(r@.map_values(|l: Vec<u8>| l@) =~= help_lines());
    }
    r
}

fn unknown_text() -> (r: Vec<Vec<u8>>)
    ensures
        r@.map_values(|l: Vec<u8>| l@) == unknown_lines(),
{
    let mut r: Vec<Vec<u8>> = Vec::new();
    r.push(vec![85u8, 110, 107, 110, 111, 119, 110, 32, 99, 111, 109, 109, 97, 110, 100, 46]);
    r.push(vec![84u8, 121, 112, 101, 32, 39, 104, 101, 108, 112, 39, 32, 102, 111, 114, 32, 104, 101, 108, 112, 46]);
    proof {
        assert(r@.map_values(|l: Vec<u8>| l@) =~= unknown_lines());
    }
    r
}

/// Runs `command` in a process whose id is `pid` (only `pid` uses it).
pub fn execute_command(command: &[u8], history: &mut ShellHistory, pid: u64)
    requires
        old(history).wf(),
    ensures
        final(history).wf(),
        final(history).shown() == after_command(old(history).shown(), command@, pid),
{
    if command.len() == 0 {
        return;
    }
    let help: Vec<u8> = vec![104u8, 101, 108, 112];
    let clear: Vec<u8> = vec![99u8, 108, 101, 97, 114];
    let echo: Vec<u8> = vec![101u8, 99, 104, 111, 32];
    proof {
        assert(help@ =~= help_command());
        assert(clear@ =~= clear_command());
        assert(echo@ =~= echo_prefix());
    }
    if bytes_equal(command, help.as_slice()) {
        add_lines(history, &help_text());
        return;
    }
    if bytes_equal(command, clear.as_slice()) {
        history.clear();
        return;
    }
    if needs_pid(command) {
        let mut line: Vec<u8> = vec![80u8, 73, 68, 58, 32];
        let digits = digits_of(pid);
        let ghost prefix = line@;
        proof {
            assert(prefix =~= pid_prefix());
        }
        let mut i: usize = 0;
        while i < digits.len()
            invariant
                i <= digits@.len(),
                line@ == prefix + digits@.take(i as int),
            decreases digits@.len() - i,
        {
            line.push(digits[i]);
            proof {
                assert(line@ =~= prefix + digits@.take(i + 1));
            }
            i = i + 1;
        }
        proof {
            assert(digits@.take(i as int) =~= digits@);
        }
        history.add_line(line.as_slice());
        return;
    }
    if command.len() >= 5 && bytes_equal(&command[0..5], echo.as_slice()) {
        proof {
            assert(command@.subrange(0, 5) =~= command@.take(5));
        }
        let ghost rest = command@.skip(5);
        let mut line: Vec<u8> = Vec::new();
        let mut i: usize = 5;
        while i < command.len()
            invariant
                5 <= i <= command@.len(),
                rest == command@.skip(5),
                line@ == command@.subrange(5, i as int),
            decreases command@.len() - i,
        {
            line.push(command[i]);
            proof {
                assert(line@ =~= command@.subrange(5, i + 1));
            }
            i = i + 1;
        }
        proof {
            assert(line@ =~= rest);
        }
        history.add_line(line.as_slice());
        return;
    }
    proof {
        if command@.len() >= 5 && command@.take(5) == echo_prefix() {
            assert(command@.subrange(0, 5) =~= command@.take(5));
        }
    }
    add_lines(history, &unknown_text());
}

// ============================================================
// The line being typed
// ============================================================

/// What a key does to the terminal.
#[derive(Clone, Copy, Debug, PartialEq, Eq, Structural)]
pub enum ShellKey {
    /// The line changed: draw again.
    Redraw,
    /// Enter: run the line.
    Submit,
    /// Nothing to do.
    Ignore,
}

/// The line being typed: a buffer of `INPUT_MAX` bytes and its length.
pub struct ShellInput {
    pub input: Vec<u8>,
    pub length: usize,
}

impl ShellInput {
    /// The buffer has its size and the length fits it.
    pub open spec fn wf(&self) -> bool {
        &&& self.input@.len() == INPUT_MAX
        &&& self.length <= INPUT_MAX
    }

    /// The typed line.
    pub open spec fn line(&self) -> Seq<u8> {
        self.input@.take(self.length as int)
    }

    /// An empty line.
    pub fn new() -> (r: Self)
        ensures
            r.wf(),
            r.length == 0,
            r.input@ == Seq::new(INPUT_MAX as nat, |i: int| 0u8),
    {
        let mut input: Vec<u8> = Vec::new();
        let mut i: usize = 0;
        while i < INPUT_MAX
            invariant
                i <= INPUT_MAX,
                input@ == Seq::new(i as nat, |k: int| 0u8),
            decreases INPUT_MAX - i,
        {
            input.push(0);
            proof {
                assert(input@ =~= Seq::new((i + 1) as nat, |k: int| 0u8));
            }
            i = i + 1;
        }
        ShellInput { input, length: 0 }
    }

    /// A key byte: Backspace (0x08) drops the last byte (redrawing only
    /// if there was one), line feed submits, printable ASCII is added
    /// while there is room (redrawing only then), others are ignored.
    pub fn handle_key(&mut self, key: u8) -> (r: ShellKey)
        requires
            old(self).wf(),
        ensures
            final(self).wf(),
            key == 0x08 ==> if old(self).length > 0 {
                r == ShellKey::Redraw && final(self).length == old(self).length - 1 && final(self).input@ == old(
                    self,
                ).input@.update(old(self).length - 1, 0u8)
            } else {
                r == ShellKey::Ignore && *final(self) == *old(self)
            },
            key == 0x0A ==> r == ShellKey::Submit && *final(self) == *old(self),
            0x20 <= key <= 0x7E ==> if old(self).length < INPUT_MAX {
                r == ShellKey::Redraw && final(self).length == old(self).length + 1 && final(self).input@ == old(
                    self,
                ).input@.update(old(self).length as int, key)
            } else {
                r == ShellKey::Ignore && *final(self) == *old(self)
            },
            key != 0x08 && key != 0x0A && !(0x20 <= key <= 0x7E) ==> r == ShellKey::Ignore && *final(self) == *old(
                self,
            ),
    {
        if key == 0x08 {
            if self.length > 0 {
                self.length = self.length - 1;
                self.input.set(self.length, 0);
                return ShellKey::Redraw;
            }
            return ShellKey::Ignore;
        }
        if key == 0x0A {
            return ShellKey::Submit;
        }
        if 0x20 <= key && key <= 0x7E {
            if self.length < INPUT_MAX {
                self.input.set(self.length, key);
                self.length = self.length + 1;
                return ShellKey::Redraw;
            }
            return ShellKey::Ignore;
        }
        ShellKey::Ignore
    }

    /// Enter: the line goes into the history, runs as a command in a
    /// process whose id is `pid`, and a new line starts (the buffer keeps
    /// its bytes).
    pub fn submit(&mut self, history: &mut ShellHistory, pid: u64)
        requires
            old(self).wf(),
            old(history).wf(),
        ensures
            final(self).wf(),
            final(self).length == 0,
            final(self).input == old(self).input,
            final(history).wf(),
            final(history).shown() == after_command(added(old(history).shown(), old(self).line()), old(self).line(), pid),
    {
        let line = &self.input.as_slice()[0..self.length];
        proof {
            assert(line@ =~= self.line());
        }
        history.add_line(line);
        execute_command(line, history, pid);
        self.length = 0;
    }
}

// ============================================================
// Drawing
// ============================================================

/// One text the terminal draws: the bytes at (`x`, `y`).
pub struct ShellText {
    pub x: usize,
    pub y: usize,
    pub text: Vec<u8>,
}

/// The texts of the terminal window, after it is filled black: each
/// history line one `LINE_HEIGHT` below the last, then, `PROMPT_GAP_Y`
/// lower, the prompt `>` and the typed line after it.
pub open spec fn shell_texts(history: Seq<Seq<u8>>, line: Seq<u8>) -> Seq<(usize, usize, Seq<u8>)> {
    let prompt_y = (TEXT_Y + history.len() * LINE_HEIGHT + PROMPT_GAP_Y) as usize;
    Seq::new(history.len(), |i: int| (TEXT_X, (TEXT_Y + i * LINE_HEIGHT) as usize, history[i])) + seq![
        (TEXT_X, prompt_y, seq![62u8]),
        ((TEXT_X + CHAR_WIDTH + PROMPT_GAP) as usize, prompt_y, line),
    ]
}

fn copy_bytes(bytes: &[u8]) -> (r: Vec<u8>)
    ensures
        r@ == bytes@,
{
    let mut out: Vec<u8> = Vec::new();
    let mut i: usize = 0;
    while i < bytes.len()
        invariant
            i <= bytes@.len(),
            out@ == bytes@.take(i as int),
        decreases bytes@.len() - i,
    {
        out.push(bytes[i]);
        proof {
            assert(out@ =~= bytes@.take(i + 1));
        }
        i = i + 1;
    }
    proof {
        assert(out@ =~= bytes@);
    }
    out
}

/// The texts to draw for `history` and the typed line.
pub fn redraw(history: &ShellHistory, input: &ShellInput) -> (r: Vec<ShellText>)
    requires
        history.wf(),
        input.wf(),
    ensures
        r@.map_values(|t: ShellText| (t.x, t.y, t.text@)) == shell_texts(history.shown(), input.line()),
{
    let ghost target = shell_texts(history.shown(), input.line());
    let mut texts: Vec<ShellText> = Vec::new();
    let mut y: usize = TEXT_Y;
    let mut i: usize = 0;
    while i < history.lines.len()
        invariant
            history.wf(),
            i <= history.lines@.len(),
            y == TEXT_Y + i * LINE_HEIGHT,
            target == shell_texts(history.shown(), input.line()),
            texts@.len() == i,
            texts@.map_values(|t: ShellText| (t.x, t.y, t.text@)) == target.take(i as int),
        decreases history.lines@.len() - i,
    {
        let line = copy_bytes(history.lines[i].as_slice());
        let ghost prev = texts@;
        texts.push(ShellText { x: TEXT_X, y, text: line });
        proof {
            let f = |t: ShellText| (t.x, t.y, t.text@);
            assert(history.shown()[i as int] == history.lines@[i as int]@);
            assert(target[i as int] == (TEXT_X, y, history.shown()[i as int]));
            assert forall|j: int| 0 <= j < i + 1 implies #[trigger] texts@.map_values(f)[j] == target.take(i + 1)[j] by {
                if j < i {
                    assert(texts@[j] == prev[j]);
                    assert(prev.map_values(f)[j] == target.take(i as int)[j]);
                }
            }
            assert(texts@.map_values(f) =~= target.take(i + 1));
        }
        y = y + LINE_HEIGHT;
        i = i + 1;
    }
    let ghost listed = texts@;
    let prompt_y = y + PROMPT_GAP_Y;
    texts.push(ShellText { x: TEXT_X, y: prompt_y, text: vec![62u8] });
    let ghost with_prompt = texts@;
    let typed = &input.input.as_slice()[0..input.length];
    let mut line: Vec<u8> = Vec::new();
    let mut k: usize = 0;
    while k < typed.len()
        invariant
            k <= typed@.len(),
            line@ == typed@.take(k as int),
        decreases typed@.len() - k,
    {
        line.push(typed[k]);
        proof {
            assert(line@ =~= typed@.take(k + 1));
        }
        k = k + 1;
    }
    proof {
        assert(line@ =~= input.line());
    }
    texts.push(ShellText { x: TEXT_X + CHAR_WIDTH + PROMPT_GAP, y: prompt_y, text: line });
    proof {
        let n = history.lines@.len();
        assert(history.shown().len() == n);
        assert(listed.len() == n);
        assert(with_prompt.len() == n + 1);
        assert(texts@.len() == n + 2);
        let f = |t: ShellText| (t.x, t.y, t.text@);
        assert(target.len() == n + 2);
        assert(target[n as int] == (TEXT_X, prompt_y, seq![62u8]));
        assert(target[(n + 1) as int] == ((TEXT_X + CHAR_WIDTH + PROMPT_GAP) as usize, prompt_y, input.line()));
        assert forall|j: int| 0 <= j < n + 2 implies #[trigger] texts@.map_values(f)[j] == target[j] by {
            if j < n {
                assert(texts@[j] == with_prompt[j]);
                assert(with_prompt[j] == listed[j]);
                assert(listed.map_values(f)[j] == target.take(n as int)[j]);
            } else if j == n {
                assert(texts@[j] == with_prompt[j]);
            }
        }
        assert(texts@.map_values(f) =~= target);
    }
    texts
}

} // verus!
