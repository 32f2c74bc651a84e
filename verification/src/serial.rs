//! Serial console text: hexadecimal numbers, the bytes sent to the port,
//! and the bounded log mirrored on screen with its line wrapping.

use vstd::prelude::*;

verus! {

/// Most bytes the screen log keeps.
pub const SCREEN_LOG_MAX: usize = 32768;

/// Margin around the screen-log window.
pub const SCREEN_LOG_MARGIN: usize = 32;

/// Padding inside the screen-log window.
pub const SCREEN_LOG_PADDING: usize = 12;

/// Text scale of the screen log.
pub const SCREEN_LOG_SCALE: usize = 1;

/// Height of one screen-log line.
pub const SCREEN_LOG_LINE_HEIGHT: usize = 20;

/// Width of one screen-log character.
pub const SCREEN_LOG_CHAR_WIDTH: usize = 12;

/// Height of the screen-log title bar.
pub const SCREEN_LOG_TITLE_BAR_HEIGHT: usize = 0;

// ============================================================
// Numbers
// ============================================================

/// The upper-case hexadecimal digit of `d` (below 16).
pub open spec fn hex_digit_of(d: u8) -> u8 {
    if d < 10 {
        (0x30 + d) as u8
    } else {
        (0x41 + (d - 10)) as u8
    }
}

fn hex_digit(d: u8) -> (r: u8)
    requires
        d < 16,
    ensures
        r == hex_digit_of(d),
{
    if d < 10 {
        0x30 + d
    } else {
        0x41 + (d - 10)
    }
}

/// `value` as `0x` and sixteen upper-case hexadecimal digits, most
/// significant first.
pub fn hex_text(value: u64) -> (r: Vec<u8>)
    ensures
        r@.len() == 18,
        r@[0] == 0x30,
        r@[1] == 0x78,
        forall|i: int| 0 <= i < 16 ==> #[trigger] r@[2 + i] == hex_digit_of(((value >> (60 - 4 * i) as u64) & 0xF) as u8),
{
    let mut buffer: Vec<u8> = Vec::with_capacity(18);
    buffer.push(0x30);
    buffer.push(0x78);
    let mut i: u64 = 0;
    while i < 16
        invariant
            i <= 16,
            buffer@.len() == 2 + i,
            buffer@[0] == 0x30,
            buffer@[1] == 0x78,
            forall|j: int| 0 <= j < i ==> #[trigger] buffer@[2 + j] == hex_digit_of(((value >> (60 - 4 * j) as u64) & 0xF) as u8),
        decreases 16 - i,
    {
        let shift: u64 = 60 - i * 4;
        let digit = ((value >> shift) & 0xF) as u8;
        proof {
            assert((value >> shift) & 0xF < 16) by (bit_vector);
        }
        buffer.push(hex_digit(digit));
        i = i + 1;
    }
    buffer
}

/// The bytes sent to the serial port for `text`: every line feed is
/// preceded by a carriage return.
pub open spec fn port_bytes_of(text: Seq<u8>) -> Seq<u8>
    decreases text.len(),
{
    if text.len() == 0 {
        Seq::empty()
    } else if text.last() == 0x0A {
        port_bytes_of(text.drop_last()).push(0x0D).push(0x0A)
    } else {
        port_bytes_of(text.drop_last()).push(text.last())
    }
}

/// The bytes to send to the serial port for `text`.
pub fn port_bytes(text: &[u8]) -> (r: Vec<u8>)
    ensures
        r@ == port_bytes_of(text@),
{
    let mut out: Vec<u8> = Vec::new();
    let mut i: usize = 0;
    while i < text.len()
        invariant
            i <= text@.len(),
            out@ == port_bytes_of(text@.take(i as int)),
        decreases text@.len() - i,
    {
        proof {
            assert(text@.take(i + 1).drop_last() =~= text@.take(i as int));
        }
        if text[i] == 0x0A {
            out.push(0x0D);
        }
        out.push(text[i]);
        i = i + 1;
    }
    proof {
        assert(text@.take(i as int) =~= text@);
    }
    out
}

// ============================================================
// The bounded screen log
// ============================================================

/// Whether byte position `i` of UTF-8 text starts a character (or is the
/// end): a position inside the text whose byte is not a continuation
/// byte.
pub open spec fn char_boundary(bytes: Seq<u8>, i: int) -> bool {
    i == 0 || i == bytes.len() || (0 <= i < bytes.len() && bytes[i] & 0xC0 != 0x80)
}

/// The first character boundary at or after `i`.
pub open spec fn next_boundary(bytes: Seq<u8>, i: int) -> int
    decreases bytes.len() - i,
{
    if i >= bytes.len() || char_boundary(bytes, i) {
        i
    } else {
        next_boundary(bytes, i + 1)
    }
}

/// The first line feed at or after `i`, if any.
pub open spec fn next_newline(bytes: Seq<u8>, i: int) -> Option<int>
    decreases bytes.len() - i,
{
    if i < 0 || i >= bytes.len() {
        None
    } else if bytes[i] == 0x0A {
        Some(i)
    } else {
        next_newline(bytes, i + 1)
    }
}

/// The cut point `i` moved to a character boundary and then past the next
/// line feed, unless that line feed ends the text.
pub open spec fn trim_point(bytes: Seq<u8>, i: int) -> int {
    let boundary = next_boundary(bytes, i);
    match next_newline(bytes, boundary) {
        Some(p) => if p + 1 < bytes.len() {
            p + 1
        } else {
            boundary
        },
        None => boundary,
    }
}

/// The screen log after `text` is appended: at most `SCREEN_LOG_MAX` bytes,
/// dropping the oldest text first, cut at character boundaries and, where
/// possible, at the start of a line.
pub open spec fn appended_log(log: Seq<u8>, text: Seq<u8>) -> Seq<u8> {
    if text.len() >= SCREEN_LOG_MAX {
        text.subrange(trim_point(text, text.len() - SCREEN_LOG_MAX), text.len() as int)
    } else if log.len() + text.len() <= SCREEN_LOG_MAX {
        log + text
    } else {
        let kept = log.subrange(trim_point(log, log.len() + text.len() - SCREEN_LOG_MAX), log.len() as int);
        let joined = if text.len() <= SCREEN_LOG_MAX - kept.len() {
            kept + text
        } else {
            kept + text.subrange(
                next_boundary(text, text.len() - (SCREEN_LOG_MAX - kept.len())),
                text.len() as int,
            )
        };
        if joined.len() > SCREEN_LOG_MAX {
            joined.subrange(next_boundary(joined, joined.len() - SCREEN_LOG_MAX), joined.len() as int)
        } else {
            joined
        }
    }
}

/// The boundary search ends at a boundary not before `i` and not after
/// the end.
pub proof fn lemma_next_boundary(bytes: Seq<u8>, i: int)
    requires
        0 <= i <= bytes.len(),
    ensures
        i <= next_boundary(bytes, i) <= bytes.len(),
        char_boundary(bytes, next_boundary(bytes, i)),
    decreases bytes.len() - i,
{
    if !(i >= bytes.len() || char_boundary(bytes, i)) {
        lemma_next_boundary(bytes, i + 1);
    }
}

/// A found line feed is one, at or after `i`.
pub proof fn lemma_next_newline(bytes: Seq<u8>, i: int)
    requires
        0 <= i,
    ensures
        next_newline(bytes, i) matches Some(p) ==> i <= p < bytes.len() && bytes[p] == 0x0A,
    decreases bytes.len() - i,
{
    if 0 <= i < bytes.len() && bytes[i] != 0x0A {
        lemma_next_newline(bytes, i + 1);
    }
}

/// Valid UTF-8 text cut at a character boundary keeps a valid UTF-8 tail.
proof fn lemma_boundary_suffix_valid(bytes: Seq<u8>, i: int)
    requires
        vstd::utf8::valid_utf8(bytes),
        0 <= i <= bytes.len(),
        char_boundary(bytes, i),
    ensures
        vstd::utf8::valid_utf8(bytes.subrange(i, bytes.len() as int)),
{
    if i == bytes.len() {
        assert(bytes.subrange(i, bytes.len() as int).len() == 0);
    } else if i == 0 {
        assert(bytes.subrange(0, bytes.len() as int) =~= bytes);
    } else {
        let b = bytes[i];
        assert(b & 0xC0 != 0x80 ==> !(0x80 <= b && b <= 0xbf)) by (bit_vector);
        vstd::utf8::is_char_boundary_iff_not_is_continuation_byte(bytes, i);
        vstd::utf8::valid_utf8_split(bytes, i);
    }
}

/// Valid UTF-8 text cut just after a line feed keeps a valid UTF-8 tail.
proof fn lemma_after_newline_valid(bytes: Seq<u8>, p: int)
    requires
        vstd::utf8::valid_utf8(bytes),
        0 <= p < bytes.len(),
        bytes[p] == 0x0A,
    ensures
        vstd::utf8::valid_utf8(bytes.subrange(p + 1, bytes.len() as int)),
{
    assert((0x0Au8 & 0xC0u8) == 0u8) by (bit_vector);
    lemma_boundary_suffix_valid(bytes, p);
    let tail = bytes.subrange(p, bytes.len() as int);
    assert(tail[0] == 0x0A);
    assert(vstd::utf8::length_of_first_scalar(tail) == 1);
    assert(vstd::utf8::pop_first_scalar(tail) =~= bytes.subrange(p + 1, bytes.len() as int));
}

/// Valid UTF-8 text cut at `trim_point` keeps a valid UTF-8 tail.
proof fn lemma_trim_point_valid(bytes: Seq<u8>, i: int)
    requires
        vstd::utf8::valid_utf8(bytes),
        0 <= i <= bytes.len(),
    ensures
        vstd::utf8::valid_utf8(bytes.subrange(trim_point(bytes, i), bytes.len() as int)),
{
    let b = next_boundary(bytes, i);
    lemma_next_boundary(bytes, i);
    lemma_next_newline(bytes, b);
    lemma_boundary_suffix_valid(bytes, b);
    match next_newline(bytes, b) {
        Some(p) => if p + 1 < bytes.len() {
            lemma_after_newline_valid(bytes, p);
        },
        None => {},
    }
}

/// Appending valid UTF-8 text to a valid UTF-8 log leaves a valid UTF-8
/// log: every cut falls on a character boundary.
pub proof fn lemma_appended_log_valid_utf8(log: Seq<u8>, text: Seq<u8>)
    requires
        vstd::utf8::valid_utf8(log),
        vstd::utf8::valid_utf8(text),
    ensures
        vstd::utf8::valid_utf8(appended_log(log, text)),
{
    if text.len() >= SCREEN_LOG_MAX {
        lemma_trim_point_valid(text, text.len() - SCREEN_LOG_MAX);
    } else if log.len() + text.len() <= SCREEN_LOG_MAX {
        vstd::utf8::valid_utf8_concat(log, text);
    } else {
        let cut = log.len() + text.len() - SCREEN_LOG_MAX;
        lemma_next_boundary(log, cut);
        lemma_next_newline(log, next_boundary(log, cut));
        lemma_trim_point_valid(log, cut);
        let kept = log.subrange(trim_point(log, cut), log.len() as int);
        let joined = if text.len() <= SCREEN_LOG_MAX - kept.len() {
            vstd::utf8::valid_utf8_concat(kept, text);
            kept + text
        } else {
            let at = text.len() - (SCREEN_LOG_MAX - kept.len());
            lemma_next_boundary(text, at);
            lemma_boundary_suffix_valid(text, next_boundary(text, at));
            let tail = text.subrange(next_boundary(text, at), text.len() as int);
            vstd::utf8::valid_utf8_concat(kept, tail);
            kept + tail
        };
        if joined.len() > SCREEN_LOG_MAX {
            lemma_next_boundary(joined, joined.len() - SCREEN_LOG_MAX);
            lemma_boundary_suffix_valid(joined, next_boundary(joined, joined.len() - SCREEN_LOG_MAX));
        }
    }
}

/// The log never holds more than `SCREEN_LOG_MAX` bytes after an append,
/// and when the appended text is shorter than that bound the log ends
/// with it.
pub proof fn lemma_appended_log(log: Seq<u8>, text: Seq<u8>)
    ensures
        appended_log(log, text).len() <= SCREEN_LOG_MAX,
        text.len() < SCREEN_LOG_MAX ==> appended_log(log, text).len() >= text.len() && appended_log(log, text).subrange(
            appended_log(log, text).len() - text.len(),
            appended_log(log, text).len() as int,
        ) == text,
{
    if text.len() >= SCREEN_LOG_MAX {
        let start = trim_point(text, text.len() - SCREEN_LOG_MAX);
        lemma_next_boundary(text, text.len() - SCREEN_LOG_MAX);
        lemma_next_newline(text, next_boundary(text, text.len() - SCREEN_LOG_MAX));
    } else if log.len() + text.len() <= SCREEN_LOG_MAX {
        let r = log + text;
        assert(r.subrange(r.len() - text.len(), r.len() as int) =~= text);
    } else {
        let cut = log.len() + text.len() - SCREEN_LOG_MAX;
        lemma_next_boundary(log, cut);
        lemma_next_newline(log, next_boundary(log, cut));
        let t = trim_point(log, cut);
        assert(cut <= t <= log.len());
        let kept = log.subrange(t, log.len() as int);
        assert(text.len() <= SCREEN_LOG_MAX - kept.len());
        let joined = kept + text;
        assert(joined.subrange(joined.len() - text.len(), joined.len() as int) =~= text);
    }
}

/// The first character boundary at or after `i`.
fn next_boundary_exec(bytes: &[u8], i: usize) -> (r: usize)
    requires
        i <= bytes@.len(),
    ensures
        r == next_boundary(bytes@, i as int),
        i <= r <= bytes@.len(),
{
    let mut j = i;
    proof {
        lemma_next_boundary(bytes@, i as int);
    }
    while j < bytes.len() && bytes[j] & 0xC0 == 0x80 && j != 0
        invariant
            i <= j <= bytes@.len(),
            next_boundary(bytes@, j as int) == next_boundary(bytes@, i as int),
        decreases bytes@.len() - j,
    {
        j = j + 1;
    }
    j
}

/// The first line feed at or after `i`.
fn next_newline_exec(bytes: &[u8], i: usize) -> (r: Option<usize>)
    ensures
        match next_newline(bytes@, i as int) {
            Some(p) => r == Some(p as usize),
            None => r is None,
        },
        r matches Some(q) ==> next_newline(bytes@, i as int) == Some(q as int) && i <= q < bytes@.len()
            && bytes@[q as int] == 0x0A,
        r is None ==> next_newline(bytes@, i as int) is None,
{
    let mut j = i;
    while j < bytes.len()
        invariant
            i <= j,
            next_newline(bytes@, j as int) == next_newline(bytes@, i as int),
        decreases bytes@.len() - j,
    {
        if bytes[j] == 0x0A {
            return Some(j);
        }
        j = j + 1;
    }
    None
}

/// The cut point moved to a boundary and past the next line feed.
fn trim_point_exec(bytes: &[u8], i: usize) -> (r: usize)
    requires
        i <= bytes@.len(),
    ensures
        r == trim_point(bytes@, i as int),
        i <= r <= bytes@.len(),
{
    let len = bytes.len();
    let boundary = next_boundary_exec(bytes, i);
    proof {
        lemma_next_newline(bytes@, boundary as int);
    }
    match next_newline_exec(bytes, boundary) {
        Some(p) => {
            if p + 1 < len {
                p + 1
            } else {
                boundary
            }
        },
        None => boundary,
    }
}

/// The bytes of `bytes` from `start` on.
fn suffix(bytes: &[u8], start: usize) -> (r: Vec<u8>)
    requires
        start <= bytes@.len(),
    ensures
        r@ == bytes@.subrange(start as int, bytes@.len() as int),
{
    let mut out: Vec<u8> = Vec::new();
    let mut i = start;
    while i < bytes.len()
        invariant
            start <= i <= bytes@.len(),
            out@ == bytes@.subrange(start as int, i as int),
        decreases bytes@.len() - i,
    {
        out.push(bytes[i]);
        proof {
            assert(out@ =~= bytes@.subrange(start as int, i + 1));
        }
        i = i + 1;
    }
    out
}

/// Appends `text` to `out`.
fn append_bytes(out: &mut Vec<u8>, text: &[u8])
    ensures
        final(out)@ == old(out)@ + text@,
{
    let mut i: usize = 0;
    while i < text.len()
        invariant
            i <= text@.len(),
            out@ == old(out)@ + text@.take(i as int),
        decreases text@.len() - i,
    {
        out.push(text[i]);
        proof {
            assert(out@ =~= old(out)@ + text@.take(i + 1));
        }
        i = i + 1;
    }
    proof {
        assert(text@.take(i as int) =~= text@);
    }
}

/// Appends `text` to the screen log, keeping at most `SCREEN_LOG_MAX`
/// bytes: when room is needed the oldest bytes go first, cut at a
/// character boundary and, where possible, after a line feed; a text that
/// alone fills the log keeps only its newest part.
pub fn append_screen_log_bounded(log: &mut Vec<u8>, text: &[u8])
    ensures
        final(log)@ == appended_log(old(log)@, text@),
        final(log)@.len() <= SCREEN_LOG_MAX,
        vstd::utf8::valid_utf8(old(log)@) && vstd::utf8::valid_utf8(text@) ==> vstd::utf8::valid_utf8(final(log)@),
{
    proof {
        lemma_appended_log(old(log)@, text@);
        if vstd::utf8::valid_utf8(old(log)@) && vstd::utf8::valid_utf8(text@) {
            lemma_appended_log_valid_utf8(old(log)@, text@);
        }
    }
    if text.len() >= SCREEN_LOG_MAX {
        let start = trim_point_exec(text, text.len() - SCREEN_LOG_MAX);
        *log = suffix(text, start);
        return;
    }
    let log_len = log.len();
    if log_len <= SCREEN_LOG_MAX - text.len() {
        append_bytes(log, text);
        return;
    }
    let bytes_to_remove = log_len - (SCREEN_LOG_MAX - text.len());
    let trim_at = trim_point_exec(log.as_slice(), bytes_to_remove);
    let mut kept = suffix(log.as_slice(), trim_at);
    let remaining = SCREEN_LOG_MAX - kept.len();
    if text.len() <= remaining {
        append_bytes(&mut kept, text);
    } else {
        let start = next_boundary_exec(text, text.len() - remaining);
        let tail = suffix(text, start);
        append_bytes(&mut kept, tail.as_slice());
    }
    if kept.len() > SCREEN_LOG_MAX {
        let start = next_boundary_exec(kept.as_slice(), kept.len() - SCREEN_LOG_MAX);
        kept = suffix(kept.as_slice(), start);
    }
    *log = kept;
}

// ============================================================
// Serial output with the screen mirror
// ============================================================

/// `window` value of a screen log without a window.
pub const NO_WINDOW: u64 = 0xFFFF_FFFF_FFFF_FFFF;

/// The colour the screen-log window is cleared to.
pub const SCREEN_LOG_BACKGROUND: u32 = 0xFF10_1010;

/// The state of the on-screen copy of the serial output: whether it is
/// on, whether a render is running or due, the window it draws into and
/// the retained text.
pub struct ScreenLog {
    pub logging: bool,
    pub rendering: bool,
    pub dirty: bool,
    pub window: u64,
    pub text: Option<Vec<u8>>,
}

impl ScreenLog {
    /// A screen log that is off.
    pub fn new() -> (r: Self)
        ensures
            !r.logging,
            !r.rendering,
            !r.dirty,
            r.window == NO_WINDOW,
            r.text is None,
    {
        ScreenLog { logging: false, rendering: false, dirty: false, window: NO_WINDOW, text: None }
    }

    /// The retained text, empty when there is none.
    pub open spec fn text_view(&self) -> Seq<u8> {
        match self.text {
            Some(t) => t@,
            None => Seq::empty(),
        }
    }
}

/// Appends `text` to the screen log when it has a window: the retained
/// text becomes the bounded append and a render is due. Returns whether
/// it appended.
pub fn write_screen_log(log: &mut ScreenLog, text: &[u8]) -> (r: bool)
    ensures
        r == (old(log).window != NO_WINDOW),
        r ==> final(log).text is Some && final(log).text_view() == appended_log(old(log).text_view(), text@)
            && final(log).dirty,
        !r ==> final(log).text == old(log).text && final(log).dirty == old(log).dirty,
        final(log).logging == old(log).logging,
        final(log).rendering == old(log).rendering,
        final(log).window == old(log).window,
{
    if log.window == NO_WINDOW {
        return false;
    }
    let mut current = match log.text.take() {
        Some(t) => t,
        None => Vec::new(),
    };
    append_screen_log_bounded(&mut current, text);
    log.text = Some(current);
    log.dirty = true;
    true
}

/// Writes `text` to the serial console: returns the bytes for the port
/// (a carriage return before each line feed) and, while screen logging
/// is on, mirrors the text into the screen log.
pub fn write_str(log: &mut ScreenLog, text: &[u8]) -> (r: Vec<u8>)
    ensures
        r@ == port_bytes_of(text@),
        old(log).logging && old(log).window != NO_WINDOW ==> final(log).text_view() == appended_log(
            old(log).text_view(),
            text@,
        ) && final(log).dirty,
        !(old(log).logging && old(log).window != NO_WINDOW) ==> final(log).text == old(log).text && final(log).dirty
            == old(log).dirty,
        final(log).logging == old(log).logging,
        final(log).rendering == old(log).rendering,
        final(log).window == old(log).window,
{
    let bytes = port_bytes(text);
    if log.logging {
        write_screen_log(log, text);
    }
    bytes
}

/// Writes `value` as `0x` and sixteen hexadecimal digits: returns the
/// bytes for the port and mirrors them into the screen log while it is on.
pub fn write_hex(log: &mut ScreenLog, value: u64) -> (r: Vec<u8>)
    ensures
        r@.len() == 18,
        r@[0] == 0x30,
        r@[1] == 0x78,
        forall|i: int| 0 <= i < 16 ==> #[trigger] r@[2 + i] == hex_digit_of(((value >> (60 - 4 * i) as u64) & 0xF) as u8),
        old(log).logging && old(log).window != NO_WINDOW ==> final(log).text_view() == appended_log(
            old(log).text_view(),
            r@,
        ) && final(log).dirty,
        !(old(log).logging && old(log).window != NO_WINDOW) ==> final(log).text == old(log).text && final(log).dirty
            == old(log).dirty,
        final(log).logging == old(log).logging,
        final(log).rendering == old(log).rendering,
        final(log).window == old(log).window,
{
    let digits = hex_text(value);
    if log.logging {
        write_screen_log(log, digits.as_slice());
    }
    digits
}

/// Writes a `usize` in hexadecimal, as `write_hex` does.
pub fn write_usize(log: &mut ScreenLog, value: usize) -> (r: Vec<u8>)
    ensures
        r@.len() == 18,
        r@[0] == 0x30,
        r@[1] == 0x78,
        forall|i: int|
            0 <= i < 16 ==> #[trigger] r@[2 + i] == hex_digit_of((((value as u64) >> (60 - 4 * i) as u64) & 0xF) as u8),
        old(log).logging && old(log).window != NO_WINDOW ==> final(log).text_view() == appended_log(
            old(log).text_view(),
            r@,
        ) && final(log).dirty,
        !(old(log).logging && old(log).window != NO_WINDOW) ==> final(log).text == old(log).text && final(log).dirty
            == old(log).dirty,
        final(log).logging == old(log).logging,
        final(log).rendering == old(log).rendering,
        final(log).window == old(log).window,
{
    write_hex(log, value as u64)
}

/// Turns the screen log off and forgets its window and text.
pub fn disable_screen_logging(log: &mut ScreenLog)
    ensures
        !final(log).logging,
        !final(log).rendering,
        !final(log).dirty,
        final(log).window == NO_WINDOW,
        final(log).text is None,
{
    log.logging = false;
    log.rendering = false;
    log.dirty = false;
    log.window = NO_WINDOW;
    log.text = None;
}

/// Left edge of the screen-log window.
pub fn screen_log_x() -> (r: i32)
    ensures
        r == SCREEN_LOG_MARGIN,
{
    SCREEN_LOG_MARGIN as i32
}

/// Top edge of the screen-log window.
pub fn screen_log_y() -> (r: i32)
    ensures
        r == SCREEN_LOG_MARGIN,
{
    SCREEN_LOG_MARGIN as i32
}

/// `a - b`, or 0 when `b` is larger.
pub open spec fn sat_sub(a: int, b: int) -> int {
    if a >= b {
        a - b
    } else {
        0
    }
}

/// Width of the screen-log window on a screen `screen_width` wide: the
/// screen less a margin on each side.
pub fn screen_log_width(screen_width: usize) -> (r: usize)
    ensures
        r == sat_sub(screen_width as int, 2 * SCREEN_LOG_MARGIN),
{
    screen_width.saturating_sub(SCREEN_LOG_MARGIN * 2)
}

/// Height of the screen-log window on a screen `screen_height` high.
pub fn screen_log_height(screen_height: usize) -> (r: usize)
    ensures
        r == sat_sub(screen_height as int, 2 * SCREEN_LOG_MARGIN),
{
    screen_height.saturating_sub(SCREEN_LOG_MARGIN * 2)
}

/// The line the screen log starts with: "Rusty serial screen logging
/// enabled" and a line feed.
pub open spec fn enabled_message() -> Seq<u8> {
    seq![0x52, 0x75, 0x73, 0x74, 0x79, 0x20, 0x73, 0x65, 0x72, 0x69, 0x61, 0x6C, 0x20, 0x73, 0x63, 0x72, 0x65, 0x65, 0x6E, 0x20, 0x6C, 0x6F, 0x67, 0x67, 0x69, 0x6E, 0x67, 0x20, 0x65, 0x6E, 0x61, 0x62, 0x6C, 0x65, 0x64, 0x0A]
}

/// Whether a screen of this size has room for the screen-log window
/// (within the window manager's window limits).
pub open spec fn screen_log_fits(screen_width: usize, screen_height: usize) -> bool {
    &&& screen_width > 2 * SCREEN_LOG_MARGIN
    &&& screen_height > 2 * SCREEN_LOG_MARGIN
    &&& screen_width - 2 * SCREEN_LOG_MARGIN <= crate::wm::window::MAX_WINDOW_WIDTH
    &&& screen_height - 2 * SCREEN_LOG_MARGIN <= crate::wm::window::MAX_WINDOW_HEIGHT
}

fn enabled_message_bytes() -> (r: Vec<u8>)
    ensures
        r@ == enabled_message(),
{
    let r: Vec<u8> = vec![0x52, 0x75, 0x73, 0x74, 0x79, 0x20, 0x73, 0x65, 0x72, 0x69, 0x61, 0x6C, 0x20, 0x73, 0x63, 0x72, 0x65, 0x65, 0x6E, 0x20, 0x6C, 0x6F, 0x67, 0x67, 0x69, 0x6E, 0x67, 0x20, 0x65, 0x6E, 0x61, 0x62, 0x6C, 0x65, 0x64, 0x0A];
    proof {
        assert(r@ =~= enabled_message());
    }
    r
}

/// Turns the screen log on for a `screen_width` by `screen_height`
/// screen: creates its window in `wm` at the margin, titled and cleared,
/// restarts the text with the enabled line and marks a render due.
/// Returns false, changing nothing, when the screen has no room for the
/// window.
pub fn enable_screen_logging(log: &mut ScreenLog, wm: &mut crate::wm::compositor::Compositor, screen_width: usize, screen_height: usize) -> (r: bool)
    requires
        old(wm).wf(),
    ensures
        final(wm).wf(),
        r == screen_log_fits(screen_width, screen_height),
        r ==> final(log).logging && !final(log).rendering && final(log).dirty && final(log).window == old(wm).next_id()
            && final(log).text_view() == enabled_message() && final(wm).window_table().contains_key(final(log).window)
            && final(wm).window_table()[final(log).window].x == SCREEN_LOG_MARGIN && final(wm).window_table()[final(
            log).window].y == SCREEN_LOG_MARGIN && final(wm).window_table()[final(log).window].width == screen_width
            - 2 * SCREEN_LOG_MARGIN && final(wm).window_table()[final(log).window].height == screen_height - 2
            * SCREEN_LOG_MARGIN,
        !r ==> final(log).logging == old(log).logging && final(log).window == old(log).window && final(log).text
            == old(log).text,
{
    if screen_width == 0 || screen_height == 0 {
        return false;
    }
    let window_width = screen_log_width(screen_width);
    let window_height = screen_log_height(screen_height);
    if window_width == 0 || window_height == 0 {
        return false;
    }
    if window_width > crate::wm::window::MAX_WINDOW_WIDTH || window_height > crate::wm::window::MAX_WINDOW_HEIGHT {
        return false;
    }
    let x = screen_log_x();
    let y = screen_log_y();
    let id = wm.create_window(x, y, window_width, window_height);
    let ghost created = wm.window_table()[id];
    let found = wm.prepare_window(id, "Rusty Serial Log", SCREEN_LOG_BACKGROUND);
    let mut text: Vec<u8> = Vec::new();
    let message = enabled_message_bytes();
    append_screen_log_bounded(&mut text, message.as_slice());
    proof {
        assert(Seq::<u8>::empty() + enabled_message() =~= enabled_message());
    }
    log.text = Some(text);
    log.window = id;
    log.dirty = true;
    log.rendering = false;
    log.logging = true;
    true
}

/// Starts a render of the screen log unless one is already running (a
/// log line written while rendering must not render recursively).
pub fn begin_screen_log_render(log: &mut ScreenLog) -> (r: bool)
    ensures
        r == !old(log).rendering,
        final(log).rendering,
        r ==> !final(log).dirty,
        !r ==> final(log).dirty == old(log).dirty,
        final(log).logging == old(log).logging,
        final(log).window == old(log).window,
        final(log).text == old(log).text,
{
    if log.rendering {
        return false;
    }
    log.rendering = true;
    log.dirty = false;
    true
}

/// After render pass `pass` (counting from 0): whether to render once more
/// because the log changed meanwhile; at most two passes run. A second
/// pass starts clean.
pub fn continue_screen_log_render(log: &mut ScreenLog, pass: usize) -> (r: bool)
    ensures
        r == (pass == 0 && old(log).dirty),
        r ==> !final(log).dirty,
        !r ==> final(log).dirty == old(log).dirty,
        final(log).rendering == old(log).rendering,
        final(log).logging == old(log).logging,
        final(log).window == old(log).window,
        final(log).text == old(log).text,
{
    if pass == 0 && log.dirty {
        log.dirty = false;
        true
    } else {
        false
    }
}

/// Ends a render.
pub fn end_screen_log_render(log: &mut ScreenLog)
    ensures
        !final(log).rendering,
        final(log).dirty == old(log).dirty,
        final(log).logging == old(log).logging,
        final(log).window == old(log).window,
        final(log).text == old(log).text,
{
    log.rendering = false;
}

/// The screen log's window is gone: stop drawing into it.
pub fn screen_log_window_lost(log: &mut ScreenLog)
    ensures
        final(log).window == NO_WINDOW,
        !final(log).logging,
        final(log).text == old(log).text,
{
    log.window = NO_WINDOW;
    log.logging = false;
}

// ============================================================
// Screen-log layout
// ============================================================

/// Whether `b` starts a UTF-8 character.
pub open spec fn is_char_start(b: u8) -> bool {
    b & 0xC0 != 0x80
}

/// The end of bytes `s..e` with trailing carriage returns dropped.
pub open spec fn trim_cr_end(bytes: Seq<u8>, s: int, e: int) -> int
    decreases e - s,
{
    if e > s && bytes[e - 1] == 0x0D {
        trim_cr_end(bytes, s, e - 1)
    } else {
        e
    }
}

/// The number of characters in bytes `s..e`.
pub open spec fn char_count(bytes: Seq<u8>, s: int, e: int) -> int
    decreases e - s,
{
    if e <= s {
        0
    } else {
        char_count(bytes, s, e - 1) + if is_char_start(bytes[e - 1]) {
            1int
        } else {
            0int
        }
    }
}

/// The characters per screen line, at least one.
pub open spec fn chars_per_line(max_chars: usize) -> int {
    if max_chars == 0 {
        1
    } else {
        max_chars as int
    }
}

/// The screen lines that one text line takes when wrapped at
/// `max_chars` characters (trailing carriage returns ignored): one for an
/// empty line, else the characters over the width, rounded up.
pub open spec fn wrapped_line_count_of(line: Seq<u8>, max_chars: usize) -> int {
    let e = trim_cr_end(line, 0, line.len() as int);
    let count = char_count(line, 0, e);
    if e == 0 {
        1
    } else if count == 0 {
        0
    } else {
        (count - 1) / chars_per_line(max_chars) + 1
    }
}

fn trim_cr_end_exec(bytes: &[u8], s: usize, e: usize) -> (r: usize)
    requires
        s <= e <= bytes@.len(),
    ensures
        r == trim_cr_end(bytes@, s as int, e as int),
        s <= r <= e,
{
    let mut end = e;
    while end > s && bytes[end - 1] == 0x0D
        invariant
            s <= end <= e,
            e <= bytes@.len(),
            trim_cr_end(bytes@, s as int, end as int) == trim_cr_end(bytes@, s as int, e as int),
        decreases end - s,
    {
        end = end - 1;
    }
    end
}

fn char_count_exec(bytes: &[u8], s: usize, e: usize) -> (r: usize)
    requires
        s <= e <= bytes@.len(),
    ensures
        r == char_count(bytes@, s as int, e as int),
{
    let mut count: usize = 0;
    let mut i = s;
    while i < e
        invariant
            s <= i <= e,
            e <= bytes@.len(),
            count == char_count(bytes@, s as int, i as int),
            count <= i - s,
        decreases e - i,
    {
        if bytes[i] & 0xC0 != 0x80 {
            count = count + 1;
        }
        i = i + 1;
    }
    count
}

/// The number of screen lines a text line takes at `max_chars` per line.
pub fn wrapped_line_count(line: &[u8], max_chars: usize) -> (r: usize)
    ensures
        r == wrapped_line_count_of(line@, max_chars),
{
    let m = if max_chars == 0 {
        1
    } else {
        max_chars
    };
    let e = trim_cr_end_exec(line, 0, line.len());
    if e == 0 {
        return 1;
    }
    let count = char_count_exec(line, 0, e);
    if count == 0 {
        0
    } else {
        (count - 1) / m + 1
    }
}

/// Where the line starting at `s` ends: its line feed, or the end.
pub open spec fn line_end(bytes: Seq<u8>, s: int) -> int {
    match next_newline(bytes, s) {
        Some(p) => p,
        None => bytes.len() as int,
    }
}

/// `acc` plus the screen lines of the text lines from `s` on, added one
/// line at a time and saturating at `usize::MAX`.
pub open spec fn wrapped_total_from(bytes: Seq<u8>, s: int, max_chars: usize, acc: usize) -> usize
    decreases bytes.len() - s,
{
    let here = wrapped_line_count_of(bytes.subrange(s, line_end(bytes, s)), max_chars);
    let sum = if acc + here > usize::MAX {
        usize::MAX
    } else {
        (acc + here) as usize
    };
    match next_newline(bytes, s) {
        Some(p) => if s <= p < bytes.len() {
            wrapped_total_from(bytes, p + 1, max_chars, sum)
        } else {
            sum
        },
        None => sum,
    }
}

/// The screen lines of the whole log: every line's count summed, less the
/// empty line after a final line feed.
pub open spec fn total_wrapped_lines_of(bytes: Seq<u8>, max_chars: usize) -> usize {
    let total = wrapped_total_from(bytes, 0, max_chars, 0);
    if bytes.len() > 0 && bytes.last() == 0x0A {
        sat_sub(total as int, 1) as usize
    } else {
        total
    }
}

fn copy_range(bytes: &[u8], s: usize, e: usize) -> (r: Vec<u8>)
    requires
        s <= e <= bytes@.len(),
    ensures
        r@ == bytes@.subrange(s as int, e as int),
{
    let mut out: Vec<u8> = Vec::new();
    let mut i = s;
    while i < e
        invariant
            s <= i <= e,
            e <= bytes@.len(),
            out@ == bytes@.subrange(s as int, i as int),
        decreases e - i,
    {
        out.push(bytes[i]);
        proof {
            assert(out@ =~= bytes@.subrange(s as int, i + 1));
        }
        i = i + 1;
    }
    out
}

/// The number of screen lines the whole log takes at `max_chars` per line.
pub fn total_wrapped_lines(log: &[u8], max_chars: usize) -> (r: usize)
    ensures
        r == total_wrapped_lines_of(log@, max_chars),
{
    let mut total: usize = 0;
    let mut s: usize = 0;
    loop
        invariant_except_break
            s <= log@.len(),
            wrapped_total_from(log@, s as int, max_chars, total) == wrapped_total_from(log@, 0, max_chars, 0),
        ensures
            total == wrapped_total_from(log@, 0, max_chars, 0),
        decreases log@.len() - s,
    {
        proof {
            lemma_next_newline(log@, s as int);
        }
        let next = next_newline_exec(log, s);
        let e = match next {
            Some(p) => p,
            None => log.len(),
        };
        let line = copy_range(log, s, e);
        let here = wrapped_line_count(line.as_slice(), max_chars);
        total = total.saturating_add(here);
        match next {
            Some(p) => {
                let len = log.len();
                assert(p < len);
                s = p + 1;
            },
            None => {
                break;
            },
        }
    }
    if log.len() > 0 && log[log.len() - 1] == 0x0A {
        total.saturating_sub(1)
    } else {
        total
    }
}

/// A run of screen-log text to draw with its top-left corner at (`x`,
/// `y`) of the window: bytes `start..end` of the log.
#[derive(Clone, Copy, Debug, PartialEq, Eq, Structural)]
pub struct TextDraw {
    pub x: usize,
    pub y: usize,
    pub start: usize,
    pub end: usize,
}

/// Where the renderer stands: screen lines still to skip, screen lines
/// still to show, and the next line's top.
#[derive(Clone, Copy, Debug, PartialEq, Eq, Structural)]
pub struct RenderCursor {
    pub skip: usize,
    pub remaining: usize,
    pub line_y: usize,
}

/// `a + b` saturating at `usize::MAX`.
pub open spec fn sat_add(a: usize, b: usize) -> usize {
    if a + b > usize::MAX {
        usize::MAX
    } else {
        (a + b) as usize
    }
}

/// One wrapped piece `start..end` of a line: skipped while lines are to
/// be skipped, ignored once enough are shown, else shown at the current
/// line (drawn only above `limit`) and the line moves down.
pub open spec fn chunk_step(c: RenderCursor, start: int, end: int, limit: usize, line_height: usize) -> (RenderCursor, Seq<TextDraw>) {
    if start >= end {
        (c, Seq::empty())
    } else if c.skip > 0 {
        (RenderCursor { skip: (c.skip - 1) as usize, remaining: c.remaining, line_y: c.line_y }, Seq::empty())
    } else if c.remaining == 0 {
        (c, Seq::empty())
    } else {
        (
            RenderCursor {
                skip: c.skip,
                remaining: (c.remaining - 1) as usize,
                line_y: sat_add(c.line_y, line_height),
            },
            if c.line_y < limit {
                seq![TextDraw { x: SCREEN_LOG_PADDING, y: c.line_y, start: start as usize, end: end as usize }]
            } else {
                Seq::empty()
            },
        )
    }
}

/// An empty line: skipped, ignored, or shown as blank space.
pub open spec fn blank_step(c: RenderCursor, limit: usize, line_height: usize) -> RenderCursor {
    if c.skip > 0 {
        RenderCursor { skip: (c.skip - 1) as usize, remaining: c.remaining, line_y: c.line_y }
    } else if c.remaining == 0 {
        c
    } else {
        RenderCursor {
            skip: c.skip,
            remaining: (c.remaining - 1) as usize,
            line_y: if c.line_y < limit {
                sat_add(c.line_y, line_height)
            } else {
                c.line_y
            },
        }
    }
}

/// The start of the next character after `p`, not beyond `e`.
pub open spec fn next_char(bytes: Seq<u8>, p: int, e: int) -> int {
    let q = next_boundary(bytes, p + 1);
    if q > e {
        e
    } else {
        q
    }
}

/// The position `n` characters after `p`, not beyond `e`.
pub open spec fn advance_chars(bytes: Seq<u8>, p: int, e: int, n: nat) -> int
    decreases n,
{
    if n == 0 || p >= e {
        p
    } else {
        advance_chars(bytes, next_char(bytes, p, e), e, (n - 1) as nat)
    }
}

/// Rendering the pieces of `max_chars` characters of a non-empty line
/// from `start` to `e`.
pub open spec fn chunks_from(
    c: RenderCursor,
    bytes: Seq<u8>,
    start: int,
    e: int,
    max_chars: usize,
    limit: usize,
    line_height: usize,
) -> (RenderCursor, Seq<TextDraw>)
    decreases e - start,
{
    if start >= e {
        (c, Seq::empty())
    } else {
        let end = advance_chars(bytes, start, e, chars_per_line(max_chars) as nat);
        let first = chunk_step(c, start, end, limit, line_height);
        if start < end <= e {
            let rest = chunks_from(first.0, bytes, end, e, max_chars, limit, line_height);
            (rest.0, first.1 + rest.1)
        } else {
            first
        }
    }
}

/// Rendering the text line `s..e` (trailing carriage returns dropped).
pub open spec fn line_render(
    c: RenderCursor,
    bytes: Seq<u8>,
    s: int,
    e: int,
    max_chars: usize,
    limit: usize,
    line_height: usize,
) -> (RenderCursor, Seq<TextDraw>) {
    let te = trim_cr_end(bytes, s, e);
    if te <= s {
        (blank_step(c, limit, line_height), Seq::empty())
    } else {
        chunks_from(c, bytes, s, te, max_chars, limit, line_height)
    }
}

/// Rendering the text lines from `s` on.
pub open spec fn lines_from(
    c: RenderCursor,
    bytes: Seq<u8>,
    s: int,
    max_chars: usize,
    limit: usize,
    line_height: usize,
) -> (RenderCursor, Seq<TextDraw>)
    decreases bytes.len() - s,
{
    let here = line_render(c, bytes, s, line_end(bytes, s), max_chars, limit, line_height);
    match next_newline(bytes, s) {
        Some(p) => if s <= p < bytes.len() {
            let rest = lines_from(here.0, bytes, p + 1, max_chars, limit, line_height);
            (rest.0, here.1 + rest.1)
        } else {
            here
        },
        None => here,
    }
}

/// Renders one wrapped piece `start..end` of a line at the cursor.
pub fn render_one_chunk(
    draws: &mut Vec<TextDraw>,
    cursor: &mut RenderCursor,
    start: usize,
    end: usize,
    limit: usize,
    line_height: usize,
)
    ensures
        *final(cursor) == chunk_step(*old(cursor), start as int, end as int, limit, line_height).0,
        final(draws)@ == old(draws)@ + chunk_step(*old(cursor), start as int, end as int, limit, line_height).1,
{
    if start >= end {
        proof {
            assert(old(draws)@ + Seq::<TextDraw>::empty() =~= old(draws)@);
        }
        return;
    }
    if cursor.skip > 0 {
        cursor.skip = cursor.skip - 1;
        proof {
            assert(old(draws)@ + Seq::<TextDraw>::empty() =~= old(draws)@);
        }
        return;
    }
    if cursor.remaining == 0 {
        proof {
            assert(old(draws)@ + Seq::<TextDraw>::empty() =~= old(draws)@);
        }
        return;
    }
    if cursor.line_y < limit {
        draws.push(TextDraw { x: SCREEN_LOG_PADDING, y: cursor.line_y, start, end });
        proof {
            assert(draws@ =~= old(draws)@ + seq![
                TextDraw { x: SCREEN_LOG_PADDING, y: old(cursor).line_y, start, end },
            ]);
        }
    } else {
        proof {
            assert(old(draws)@ + Seq::<TextDraw>::empty() =~= old(draws)@);
        }
    }
    cursor.line_y = cursor.line_y.saturating_add(line_height);
    cursor.remaining = cursor.remaining - 1;
}

/// The position `n` characters after `p`, not beyond `e`.
fn advance_chars_exec(bytes: &[u8], p: usize, e: usize, n: usize) -> (r: usize)
    requires
        p <= e <= bytes@.len(),
    ensures
        r == advance_chars(bytes@, p as int, e as int, n as nat),
        p <= r <= e,
        n > 0 && p < e ==> r > p,
{
    let mut q = p;
    let mut k: usize = 0;
    while k < n && q < e
        invariant
            p <= q <= e,
            e <= bytes@.len(),
            k <= n,
            advance_chars(bytes@, q as int, e as int, (n - k) as nat) == advance_chars(bytes@, p as int, e as int, n as nat),
            k > 0 && p < e ==> q > p,
        decreases n - k,
    {
        proof {
            lemma_next_boundary(bytes@, q + 1);
        }
        let b = next_boundary_exec(bytes, q + 1);
        q = if b > e {
            e
        } else {
            b
        };
        k = k + 1;
    }
    q
}

/// Renders the text line `s..e` of the log in pieces of `max_chars`
/// characters (an empty line as blank space); returns the number of
/// wrapped lines rendered.
pub fn render_wrapped_line(
    draws: &mut Vec<TextDraw>,
    cursor: &mut RenderCursor,
    log: &[u8],
    s: usize,
    e: usize,
    max_chars: usize,
    limit: usize,
    line_height: usize,
) -> (r: usize)
    requires
        s <= e <= log@.len(),
    ensures
        final(cursor).remaining <= old(cursor).remaining,
        r == old(cursor).remaining - final(cursor).remaining,
        *final(cursor) == line_render(*old(cursor), log@, s as int, e as int, max_chars, limit, line_height).0,
        final(draws)@ == old(draws)@ + line_render(*old(cursor), log@, s as int, e as int, max_chars, limit, line_height).1,
{
    let m = if max_chars == 0 {
        1
    } else {
        max_chars
    };
    let before_remaining = cursor.remaining;
    let te = trim_cr_end_exec(log, s, e);
    if te <= s {
        if cursor.skip > 0 {
            cursor.skip = cursor.skip - 1;
        } else if cursor.remaining > 0 {
            if cursor.line_y < limit {
                cursor.line_y = cursor.line_y.saturating_add(line_height);
            }
            cursor.remaining = cursor.remaining - 1;
        }
        proof {
            assert(old(draws)@ + Seq::<TextDraw>::empty() =~= old(draws)@);
        }
        return before_remaining - cursor.remaining;
    }
    let ghost total = chunks_from(*old(cursor), log@, s as int, te as int, max_chars, limit, line_height);
    let mut start = s;
    while start < te
        invariant
            s <= start <= te,
            te <= log@.len(),
            m == chars_per_line(max_chars),
            old(draws)@.len() <= draws@.len(),
            total == (
                chunks_from(*cursor, log@, start as int, te as int, max_chars, limit, line_height).0,
                draws@.subrange(old(draws)@.len() as int, draws@.len() as int) + chunks_from(
                    *cursor,
                    log@,
                    start as int,
                    te as int,
                    max_chars,
                    limit,
                    line_height,
                ).1,
            ),
            draws@.subrange(0, old(draws)@.len() as int) == old(draws)@,
            cursor.remaining <= before_remaining,
            before_remaining == old(cursor).remaining,
        decreases te - start,
    {
        let end = advance_chars_exec(log, start, te, m);
        let ghost before = draws@;
        let ghost c0 = *cursor;
        render_one_chunk(draws, cursor, start, end, limit, line_height);
        proof {
            let first = chunk_step(c0, start as int, end as int, limit, line_height);
            let rest = chunks_from(first.0, log@, end as int, te as int, max_chars, limit, line_height);
            assert(draws@.subrange(old(draws)@.len() as int, draws@.len() as int) =~= before.subrange(
                old(draws)@.len() as int,
                before.len() as int,
            ) + first.1);
            assert(before.subrange(old(draws)@.len() as int, before.len() as int) + (first.1 + rest.1) =~= (
            before.subrange(old(draws)@.len() as int, before.len() as int) + first.1) + rest.1);
            assert(draws@.subrange(0, old(draws)@.len() as int) =~= before.subrange(0, old(draws)@.len() as int));
        }
        start = end;
    }
    proof {
        assert(draws@ =~= draws@.subrange(0, old(draws)@.len() as int) + draws@.subrange(
            old(draws)@.len() as int,
            draws@.len() as int,
        ));
        assert(draws@.subrange(old(draws)@.len() as int, draws@.len() as int) + Seq::<TextDraw>::empty()
            =~= draws@.subrange(old(draws)@.len() as int, draws@.len() as int));
    }
    before_remaining - cursor.remaining
}

/// The layout of the screen log on a screen: characters per line, lines
/// shown, the text area's height and a line's height.
#[derive(Clone, Copy, Debug, PartialEq, Eq, Structural)]
pub struct LogLayout {
    pub max_chars: usize,
    pub max_lines: usize,
    pub text_height: usize,
    pub line_height: usize,
}

/// The layout on a `screen_width` by `screen_height` screen, if the
/// window and its text area are not empty.
pub open spec fn screen_log_layout_of(screen_width: usize, screen_height: usize) -> Option<LogLayout> {
    let window_width = sat_sub(screen_width as int, 2 * SCREEN_LOG_MARGIN);
    let window_height = sat_sub(screen_height as int, 2 * SCREEN_LOG_MARGIN);
    let text_width = sat_sub(window_width, 2 * SCREEN_LOG_PADDING);
    let text_height = sat_sub(window_height, SCREEN_LOG_TITLE_BAR_HEIGHT + 2 * SCREEN_LOG_PADDING);
    if screen_width == 0 || screen_height == 0 || window_width == 0 || window_height == 0 || text_width == 0
        || text_height == 0 {
        None
    } else {
        let max_chars = text_width / (SCREEN_LOG_CHAR_WIDTH as int);
        let max_lines = text_height / (SCREEN_LOG_LINE_HEIGHT as int);
        Some(
            LogLayout {
                max_chars: if max_chars == 0 {
                    1
                } else {
                    max_chars as usize
                },
                max_lines: if max_lines == 0 {
                    1
                } else {
                    max_lines as usize
                },
                text_height: text_height as usize,
                line_height: SCREEN_LOG_LINE_HEIGHT,
            },
        )
    }
}

/// Computes the screen-log layout for a screen.
pub fn screen_log_layout(screen_width: usize, screen_height: usize) -> (r: Option<LogLayout>)
    ensures
        r == screen_log_layout_of(screen_width, screen_height),
        r matches Some(l) ==> l.text_height + SCREEN_LOG_PADDING <= screen_height,
{
    if screen_width == 0 || screen_height == 0 {
        return None;
    }
    let window_width = screen_log_width(screen_width);
    let window_height = screen_log_height(screen_height);
    if window_width == 0 || window_height == 0 {
        return None;
    }
    let text_width = window_width.saturating_sub(SCREEN_LOG_PADDING * 2);
    let text_height = window_height.saturating_sub(SCREEN_LOG_TITLE_BAR_HEIGHT + SCREEN_LOG_PADDING * 2);
    if text_width == 0 || text_height == 0 {
        return None;
    }
    let chars = text_width / SCREEN_LOG_CHAR_WIDTH;
    let lines = text_height / SCREEN_LOG_LINE_HEIGHT;
    Some(
        LogLayout {
            max_chars: if chars == 0 {
                1
            } else {
                chars
            },
            max_lines: if lines == 0 {
                1
            } else {
                lines
            },
            text_height,
            line_height: SCREEN_LOG_LINE_HEIGHT,
        },
    )
}

/// The cursor a render starts from: skip all but the newest `max_lines`
/// screen lines and show those.
pub open spec fn start_cursor(total: usize, max_lines: usize) -> RenderCursor {
    RenderCursor {
        skip: sat_sub(total as int, max_lines as int) as usize,
        remaining: if max_lines < total {
            max_lines
        } else {
            total
        },
        line_y: SCREEN_LOG_PADDING,
    }
}

/// What to draw for log text `log` laid out by `layout`: starting at the
/// newest screen lines that fit, every text line is rendered in turn.
pub open spec fn screen_log_draws_of(log: Seq<u8>, layout: LogLayout) -> Seq<TextDraw> {
    lines_from(
        start_cursor(total_wrapped_lines_of(log, layout.max_chars), layout.max_lines),
        log,
        0,
        layout.max_chars,
        (layout.text_height + SCREEN_LOG_PADDING) as usize,
        layout.line_height,
    ).1
}

/// The text runs to draw into the cleared screen-log window for `log` on a
/// `screen_width` by `screen_height` screen; none when the layout is
/// empty.
pub fn render_screen_log_inner(log: &[u8], screen_width: usize, screen_height: usize) -> (r: Option<Vec<TextDraw>>)
    ensures
        r is Some <==> screen_log_layout_of(screen_width, screen_height) is Some,
        r matches Some(d) ==> d@ == screen_log_draws_of(log@, screen_log_layout_of(screen_width, screen_height)->0),
{
    let layout = match screen_log_layout(screen_width, screen_height) {
        Some(l) => l,
        None => {
            return None;
        },
    };
    let total = total_wrapped_lines(log, layout.max_chars);
    let skip = total.saturating_sub(layout.max_lines);
    let remaining = if layout.max_lines < total {
        layout.max_lines
    } else {
        total
    };
    let mut cursor = RenderCursor { skip, remaining, line_y: SCREEN_LOG_PADDING };
    let limit = layout.text_height + SCREEN_LOG_PADDING;
    let mut draws: Vec<TextDraw> = Vec::new();
    let ghost whole = lines_from(cursor, log@, 0, layout.max_chars, limit, layout.line_height);
    let mut s: usize = 0;
    loop
        invariant_except_break
            s <= log@.len(),
            whole == (
                lines_from(cursor, log@, s as int, layout.max_chars, limit, layout.line_height).0,
                draws@ + lines_from(cursor, log@, s as int, layout.max_chars, limit, layout.line_height).1,
            ),
        ensures
            whole == (cursor, draws@),
        decreases log@.len() - s,
    {
        proof {
            lemma_next_newline(log@, s as int);
        }
        let next = next_newline_exec(log, s);
        let e = match next {
            Some(p) => p,
            None => log.len(),
        };
        let ghost c0 = cursor;
        let ghost d0 = draws@;
        render_wrapped_line(&mut draws, &mut cursor, log, s, e, layout.max_chars, limit, layout.line_height);
        let ghost here = line_render(c0, log@, s as int, e as int, layout.max_chars, limit, layout.line_height);
        match next {
            Some(p) => {
                proof {
                    let rest = lines_from(here.0, log@, p + 1, layout.max_chars, limit, layout.line_height);
                    assert(d0 + (here.1 + rest.1) =~= (d0 + here.1) + rest.1);
                }
                let len = log.len();
                assert(p < len);
                s = p + 1;
            },
            None => {
                proof {
                    assert(d0 + here.1 + Seq::<TextDraw>::empty() =~= d0 + here.1);
                }
                break;
            },
        }
    }
    Some(draws)
}


/// One piece of serial output: a fixed text, or a number written in
/// hexadecimal (as a `u64` or as a `usize`).
#[derive(Clone, Copy, Debug)]
pub enum LogPiece {
    Text(&'static str),
    Hex(u64),
    Usize(usize),
}

} // verus!
