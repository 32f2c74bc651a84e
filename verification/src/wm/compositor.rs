//! The compositor: the windows by id, the clean backbuffer, the picture
//! that goes to the screen, and the mouse cursor and click state.

use vstd::prelude::*;
use vstd::string::StringSliceAdditionalSpecFns;

use crate::input::{poll_mouse_event, saturating_add_i32, InputEvent, InputState, MouseButton};
use crate::wm::window::{
    argb, channel, channel_exec, grid_index, lemma_grid_index, mix, mix_exec, pixel_at, shapes_fit, TextGlyph,
    Window, MAX_WINDOW_HEIGHT, MAX_WINDOW_WIDTH,
};
use crate::graphics::Color;

verus! {

/// Width of the cursor's drawing box.
pub const CURSOR_WIDTH: usize = 14;

/// Height of the cursor's drawing box.
pub const CURSOR_HEIGHT: usize = 19;

/// The cursor's colour.
pub const CURSOR_COLOR: u32 = 0xFFFF_FFFF;

/// Pixels restored around the old cursor box.
pub const CURSOR_RESTORE_PADDING: i64 = 1;

/// The colour of a window's one-pixel frame.
pub const WINDOW_BORDER_COLOR: u32 = 0xFF45_475A;

/// The colour the backbuffer starts with.
pub const DESKTOP_COLOR: u32 = 0xFF0F_172A;

/// Bit of the left button in the button bitmap.
pub const MOUSE_BUTTON_LEFT: u8 = 0x01;

/// Bit of the right button.
pub const MOUSE_BUTTON_RIGHT: u8 = 0x02;

/// Bit of the middle button.
pub const MOUSE_BUTTON_MIDDLE: u8 = 0x04;

/// Bit of the fourth button.
pub const MOUSE_BUTTON_4: u8 = 0x08;

/// Bit of the fifth button.
pub const MOUSE_BUTTON_5: u8 = 0x10;

/// Most mouse events taken from the queue by one update.
pub const MOUSE_EVENTS_PER_UPDATE: usize = 32;

/// The largest screen dimension: cursor coordinates are `i32`.
pub const MAX_SCREEN_DIMENSION: usize = 0x8000_0000;

// ============================================================
// The pointer: cursor, buttons and click detection
// ============================================================

/// What the compositor knows of the mouse: the cursor, the button bitmap,
/// whether the left button is held and where it went down, and the click
/// that waits to be taken.
#[derive(Clone, Copy, Debug, PartialEq, Eq, Structural)]
pub struct Pointer {
    pub x: i32,
    pub y: i32,
    pub buttons: u8,
    pub left_down: bool,
    pub press_x: i32,
    pub press_y: i32,
    pub click_pending: bool,
    pub click_x: i32,
    pub click_y: i32,
}

/// The bit of `button` in the button bitmap.
pub open spec fn button_mask(button: MouseButton) -> u8 {
    match button {
        MouseButton::Left => MOUSE_BUTTON_LEFT,
        MouseButton::Right => MOUSE_BUTTON_RIGHT,
        MouseButton::Middle => MOUSE_BUTTON_MIDDLE,
        MouseButton::Button4 => MOUSE_BUTTON_4,
        MouseButton::Button5 => MOUSE_BUTTON_5,
    }
}

/// `v` held between `low` and `high`.
pub open spec fn clamp_i32(v: i32, low: i32, high: i32) -> i32 {
    if v < low {
        low
    } else if v > high {
        high
    } else {
        v
    }
}

/// The cursor position (`x`, `y`) held on a `width` by `height` screen;
/// the origin when the screen is empty.
pub open spec fn clamp_position(x: i32, y: i32, width: usize, height: usize) -> (i32, i32) {
    if width == 0 || height == 0 {
        (0, 0)
    } else {
        (clamp_i32(x, 0, (width - 1) as i32), clamp_i32(y, 0, (height - 1) as i32))
    }
}

/// The pointer after one event on a `width` by `height` screen.  A move is
/// taken as a displacement; a left press records where it happened; a left
/// release after a press leaves a click at the press position.
pub open spec fn pointer_step(p: Pointer, event: InputEvent, width: usize, height: usize) -> Pointer {
    match event {
        InputEvent::MouseMove { x, y } => {
            let moved = clamp_position(
                saturating_add_i32(p.x, x),
                saturating_add_i32(p.y, y),
                width,
                height,
            );
            Pointer { x: moved.0, y: moved.1, ..p }
        },
        InputEvent::MouseButtonDown(button) => {
            let buttons = p.buttons | button_mask(button);
            if button == MouseButton::Left {
                Pointer { buttons, left_down: true, press_x: p.x, press_y: p.y, ..p }
            } else {
                Pointer { buttons, ..p }
            }
        },
        InputEvent::MouseButtonUp(button) => {
            let buttons = p.buttons & !button_mask(button);
            if button == MouseButton::Left && p.left_down {
                Pointer {
                    buttons,
                    left_down: false,
                    click_pending: true,
                    click_x: p.press_x,
                    click_y: p.press_y,
                    ..p
                }
            } else {
                Pointer { buttons, ..p }
            }
        },
        _ => p,
    }
}

/// The pointer after the events in order.
pub open spec fn pointer_steps(p: Pointer, events: Seq<InputEvent>, width: usize, height: usize) -> Pointer
    decreases events.len(),
{
    if events.len() == 0 {
        p
    } else {
        pointer_step(pointer_steps(p, events.drop_last(), width, height), events.last(), width, height)
    }
}

/// Whether an event concerns the pointer (keys do not).
pub open spec fn is_pointer_event(event: InputEvent) -> bool {
    !(event is KeyDown || event is KeyUp)
}

/// A click at exactly (`x`, `y`) is taken: whether it is, and the pointer
/// after the attempt.  A click at a negative position is dropped.
pub open spec fn take_click(p: Pointer, x: usize, y: usize) -> (bool, Pointer) {
    if !p.click_pending {
        (false, p)
    } else if p.click_x < 0 || p.click_y < 0 {
        (false, Pointer { click_pending: false, ..p })
    } else if p.click_x != x || p.click_y != y {
        (false, p)
    } else {
        (true, Pointer { click_pending: false, ..p })
    }
}

/// A click inside the rectangle at (`x`, `y`) of `width` by `height` is
/// taken.  An empty rectangle, or one whose far edge passes the end of
/// `usize`, takes nothing.
pub open spec fn take_click_in_rect(p: Pointer, x: usize, y: usize, width: usize, height: usize) -> (bool, Pointer) {
    if !p.click_pending {
        (false, p)
    } else if p.click_x < 0 || p.click_y < 0 {
        (false, Pointer { click_pending: false, ..p })
    } else if width == 0 || height == 0 || x + width > usize::MAX || y + height > usize::MAX {
        (false, p)
    } else if x <= p.click_x < x + width && y <= p.click_y < y + height {
        (true, Pointer { click_pending: false, ..p })
    } else {
        (false, p)
    }
}

// ============================================================
// Window table
// ============================================================

/// Whether `windows` holds a window with id `id`.
pub open spec fn has_window(windows: Seq<Window>, id: u64) -> bool {
    exists|i: int| 0 <= i < windows.len() && #[trigger] windows[i].id == id
}

/// The windows by id.
pub open spec fn window_map(windows: Seq<Window>) -> Map<u64, Window> {
    Map::new(
        |id: u64| has_window(windows, id),
        |id: u64| windows[choose|i: int| 0 <= i < windows.len() && #[trigger] windows[i].id == id],
    )
}

/// Window ids strictly increase along the table.
pub open spec fn ids_increasing(windows: Seq<Window>) -> bool {
    forall|i: int, j: int| 0 <= i < j < windows.len() ==> #[trigger] windows[i].id < #[trigger] windows[j].id
}

/// In a table with increasing ids, the window at `i` is the one its id
/// names.
pub proof fn lemma_window_map_at(windows: Seq<Window>, i: int)
    requires
        ids_increasing(windows),
        0 <= i < windows.len(),
    ensures
        window_map(windows).contains_key(windows[i].id),
        window_map(windows)[windows[i].id] == windows[i],
{
    let id = windows[i].id;
    assert(has_window(windows, id));
    let k = choose|k: int| 0 <= k < windows.len() && #[trigger] windows[k].id == id;
    if k < i {
        assert(windows[k].id < windows[i].id);
    } else if i < k {
        assert(windows[i].id < windows[k].id);
    }
}

/// Replacing the window at `i` by one with the same id replaces that id's
/// entry.
pub proof fn lemma_window_map_update(windows: Seq<Window>, i: int, w: Window)
    requires
        ids_increasing(windows),
        0 <= i < windows.len(),
        w.id == windows[i].id,
    ensures
        ids_increasing(windows.update(i, w)),
        window_map(windows.update(i, w)) == window_map(windows).insert(w.id, w),
{
    let after = windows.update(i, w);
    assert forall|a: int, b: int| 0 <= a < b < after.len() implies #[trigger] after[a].id < #[trigger] after[b].id by {
        assert(windows[a].id < windows[b].id);
    }
    lemma_window_map_at(after, i);
    assert forall|k: u64| #[trigger] window_map(after).contains_key(k) <==> window_map(windows).insert(
        w.id,
        w,
    ).contains_key(k) by {
        if has_window(after, k) {
            let j = choose|j: int| 0 <= j < after.len() && #[trigger] after[j].id == k;
            assert(windows[j].id == k);
        }
        if has_window(windows, k) {
            let j = choose|j: int| 0 <= j < windows.len() && #[trigger] windows[j].id == k;
            assert(after[j].id == k);
        }
    }
    assert forall|k: u64| #[trigger] window_map(after).contains_key(k) implies window_map(after)[k]
        == window_map(windows).insert(w.id, w)[k] by {
        if k != w.id {
            let j = choose|j: int| 0 <= j < after.len() && #[trigger] after[j].id == k;
            assert(j != i);
            lemma_window_map_at(after, j);
            lemma_window_map_at(windows, j);
        }
    }
    assert(window_map(after) =~= window_map(windows).insert(w.id, w));
}

/// Removing the window at `i` removes its id's entry.
pub proof fn lemma_window_map_remove(windows: Seq<Window>, i: int)
    requires
        ids_increasing(windows),
        0 <= i < windows.len(),
    ensures
        ids_increasing(windows.remove(i)),
        window_map(windows.remove(i)) == window_map(windows).remove(windows[i].id),
{
    let after = windows.remove(i);
    let id = windows[i].id;
    assert forall|a: int, b: int| 0 <= a < b < after.len() implies #[trigger] after[a].id < #[trigger] after[b].id by {
        let a0 = if a < i { a } else { a + 1 };
        let b0 = if b < i { b } else { b + 1 };
        assert(windows[a0].id < windows[b0].id);
    }
    assert forall|k: u64| #[trigger] window_map(after).contains_key(k) <==> window_map(windows).remove(
        id,
    ).contains_key(k) by {
        if has_window(after, k) {
            let j = choose|j: int| 0 <= j < after.len() && #[trigger] after[j].id == k;
            let j0 = if j < i { j } else { j + 1 };
            assert(windows[j0].id == k);
            if j < i {
                assert(windows[j].id < windows[i].id);
            } else {
                assert(windows[i].id < windows[j + 1].id);
            }
        }
        if has_window(windows, k) && k != id {
            let j = choose|j: int| 0 <= j < windows.len() && #[trigger] windows[j].id == k;
            assert(j != i);
            if j < i {
                assert(after[j].id == k);
            } else {
                assert(after[j - 1].id == k);
            }
        }
    }
    assert forall|k: u64| #[trigger] window_map(after).contains_key(k) implies window_map(after)[k]
        == window_map(windows).remove(id)[k] by {
        let j = choose|j: int| 0 <= j < after.len() && #[trigger] after[j].id == k;
        lemma_window_map_at(after, j);
        let j0 = if j < i { j } else { j + 1 };
        assert(after[j] == windows[j0]);
        lemma_window_map_at(windows, j0);
    }
    assert(window_map(after) =~= window_map(windows).remove(id));
}

// ============================================================
// Screen pictures
// ============================================================

/// The column of buffer index `i` on a screen `width` pixels wide.
pub open spec fn column_of(i: int, width: int) -> int {
    i % width
}

/// The row of buffer index `i` on a screen `width` pixels wide.
pub open spec fn row_of(i: int, width: int) -> int {
    i / width
}

/// Pixel (`x`, `y`) of a grid sits at the index whose column and row they
/// are.
pub proof fn lemma_grid_coordinates(width: int, x: int, y: int)
    requires
        0 <= x < width,
        0 <= y,
    ensures
        column_of(grid_index(width, x, y), width) == x,
        row_of(grid_index(width, x, y), width) == y,
{
    vstd::arithmetic::div_mod::lemma_fundamental_div_mod_converse(grid_index(width, x, y), width, y, x);
}

/// Every index of a `width` by `height` grid is the pixel at its column
/// and row.
pub proof fn lemma_grid_index_split(width: int, height: int, i: int)
    requires
        0 < width,
        0 <= i < width * height,
    ensures
        0 <= column_of(i, width) < width,
        0 <= row_of(i, width) < height,
        grid_index(width, column_of(i, width), row_of(i, width)) == i,
{
    vstd::arithmetic::div_mod::lemma_fundamental_div_mod(i, width);
    assert(0 <= i % width < width) by {
        vstd::arithmetic::div_mod::lemma_mod_bound(i, width);
    }
    assert(0 <= i / width < height) by (nonlinear_arith)
        requires
            i == width * (i / width) + i % width,
            0 <= i % width < width,
            0 <= i < width * height,
            0 < width,
    ;
    assert(grid_index(width, i % width, i / width) == i) by (nonlinear_arith)
        requires
            i == width * (i / width) + i % width,
    ;
}

/// A screen picture with `color` on the pixels (`x`, `y`) that `chosen`
/// picks.
pub open spec fn painted(picture: Seq<u32>, width: int, color: u32, chosen: spec_fn(int, int) -> bool) -> Seq<u32> {
    Seq::new(
        picture.len(),
        |i: int| if chosen(column_of(i, width), row_of(i, width)) {
            color
        } else {
            picture[i]
        },
    )
}

/// Painting one more pixel, or none when it is off the screen, extends
/// the painted set by that pixel.
pub proof fn lemma_paint_pixel(
    base: Seq<u32>,
    width: int,
    height: int,
    color: u32,
    chosen: spec_fn(int, int) -> bool,
    more: spec_fn(int, int) -> bool,
    x: int,
    y: int,
)
    requires
        0 < width,
        0 < height,
        base.len() == width * height,
        forall|a: int, b: int| #[trigger] more(a, b) == (chosen(a, b) || (a == x && b == y)),
    ensures
        (if 0 <= x < width && 0 <= y < height {
            painted(base, width, color, chosen).update(grid_index(width, x, y), color)
        } else {
            painted(base, width, color, chosen)
        }) == painted(base, width, color, more),
{
    let before = painted(base, width, color, chosen);
    let after = painted(base, width, color, more);
    if 0 <= x < width && 0 <= y < height {
        lemma_grid_index(width, height, x, y);
        lemma_grid_coordinates(width, x, y);
        let k = grid_index(width, x, y);
        assert forall|i: int| 0 <= i < after.len() implies #[trigger] before.update(k, color)[i] == after[i] by {
            lemma_grid_index_split(width, height, i);
            if i != k {
                assert(!(column_of(i, width) == x && row_of(i, width) == y));
            }
        }
        assert(before.update(k, color) =~= after);
    } else {
        assert forall|i: int| 0 <= i < after.len() implies #[trigger] before[i] == after[i] by {
            lemma_grid_index_split(width, height, i);
        }
        assert(before =~= after);
    }
}

/// Copying one more pixel from `clean` extends the copied set by that
/// pixel.
pub proof fn lemma_copy_pixel(
    base: Seq<u32>,
    clean: Seq<u32>,
    width: int,
    height: int,
    chosen: spec_fn(int, int) -> bool,
    more: spec_fn(int, int) -> bool,
    x: int,
    y: int,
)
    requires
        0 <= x < width,
        0 <= y < height,
        base.len() == width * height,
        clean.len() == width * height,
        forall|a: int, b: int| #[trigger] more(a, b) == (chosen(a, b) || (a == x && b == y)),
    ensures
        copied(base, clean, width, chosen).update(grid_index(width, x, y), clean[grid_index(width, x, y)])
            == copied(base, clean, width, more),
{
    let before = copied(base, clean, width, chosen);
    let after = copied(base, clean, width, more);
    lemma_grid_index(width, height, x, y);
    lemma_grid_coordinates(width, x, y);
    let k = grid_index(width, x, y);
    assert forall|i: int| 0 <= i < after.len() implies #[trigger] before.update(k, clean[k])[i] == after[i] by {
        lemma_grid_index_split(width, height, i);
        if i != k {
            assert(!(column_of(i, width) == x && row_of(i, width) == y));
        }
    }
    assert(before.update(k, clean[k]) =~= after);
}

/// A screen picture with window `w`'s content drawn on the pixels
/// (`x`, `y`) that `chosen` picks.
pub open spec fn content_drawn(picture: Seq<u32>, width: int, w: Window, chosen: spec_fn(int, int) -> bool) -> Seq<u32> {
    Seq::new(
        picture.len(),
        |i: int| if chosen(column_of(i, width), row_of(i, width)) {
            window_content_pixel(w, column_of(i, width), row_of(i, width), picture[i])
        } else {
            picture[i]
        },
    )
}

/// Drawing window content on one more pixel extends the drawn set by that
/// pixel.
pub proof fn lemma_content_pixel(
    base: Seq<u32>,
    width: int,
    height: int,
    w: Window,
    chosen: spec_fn(int, int) -> bool,
    more: spec_fn(int, int) -> bool,
    x: int,
    y: int,
)
    requires
        0 <= x < width,
        0 <= y < height,
        base.len() == width * height,
        !chosen(x, y),
        forall|a: int, b: int| #[trigger] more(a, b) == (chosen(a, b) || (a == x && b == y)),
    ensures
        content_drawn(base, width, w, chosen)[grid_index(width, x, y)] == base[grid_index(width, x, y)],
        content_drawn(base, width, w, chosen).update(
            grid_index(width, x, y),
            window_content_pixel(w, x, y, base[grid_index(width, x, y)]),
        ) == content_drawn(base, width, w, more),
{
    let before = content_drawn(base, width, w, chosen);
    let after = content_drawn(base, width, w, more);
    lemma_grid_index(width, height, x, y);
    lemma_grid_coordinates(width, x, y);
    let k = grid_index(width, x, y);
    assert forall|i: int| 0 <= i < after.len() implies #[trigger] before.update(
        k,
        window_content_pixel(w, x, y, base[k]),
    )[i] == after[i] by {
        lemma_grid_index_split(width, height, i);
        if i != k {
            assert(!(column_of(i, width) == x && row_of(i, width) == y));
        }
    }
    assert(before.update(k, window_content_pixel(w, x, y, base[k])) =~= after);
}

/// The desktop colour of row `y` on a screen `height` rows high: a gradient
/// from dark blue at the top.
pub open spec fn background_row_color(y: int, height: int) -> u32 {
    let ratio = (y * 255) / (if height >= 1 { height } else { 1 });
    argb((15 + ratio / 15) as u32, (23 + ratio / 10) as u32, (42 + ratio / 6) as u32)
}

/// The empty desktop on a `width` by `height` screen.
pub open spec fn background(width: int, height: int) -> Seq<u32> {
    Seq::new((width * height) as nat, |i: int| background_row_color(row_of(i, width), height))
}

/// The ARGB pixel `source` drawn over `destination`: copied when opaque,
/// blended channel by channel when partly transparent, and nothing when
/// fully transparent.
pub open spec fn over(destination: u32, source: u32) -> u32 {
    let alpha = channel(source, 24);
    if alpha == 255 {
        source
    } else if alpha > 0 {
        argb(
            mix(channel(source, 16), channel(destination, 16), alpha),
            mix(channel(source, 8), channel(destination, 8), alpha),
            mix(channel(source, 0), channel(destination, 0), alpha),
        )
    } else {
        destination
    }
}

/// Screen pixel (`x`, `y`), now `p`, after window `w`'s content is drawn.
pub open spec fn window_content_pixel(w: Window, x: int, y: int, p: u32) -> u32 {
    if w.contains(x - w.x, y - w.y) {
        over(p, pixel_at(w.pixels@, w.width as int, x - w.x, y - w.y))
    } else {
        p
    }
}

/// Whether screen pixel (`x`, `y`) is on the one-pixel frame of window `w`.
pub open spec fn on_frame(w: Window, x: int, y: int) -> bool {
    let right = w.x + w.width - 1;
    let bottom = w.y + w.height - 1;
    ||| (y == w.y || y == bottom) && w.x <= x <= right
    ||| (x == w.x || x == right) && w.y <= y <= bottom
}

/// A screen picture after window `w`'s content is drawn on it.
pub open spec fn content_layer(picture: Seq<u32>, width: int, w: Window) -> Seq<u32> {
    Seq::new(
        picture.len(),
        |i: int| window_content_pixel(w, column_of(i, width), row_of(i, width), picture[i]),
    )
}

/// A screen picture after window `w`'s frame is drawn on it.
pub open spec fn frame_layer(picture: Seq<u32>, width: int, w: Window) -> Seq<u32> {
    painted(picture, width, WINDOW_BORDER_COLOR, |x: int, y: int| on_frame(w, x, y))
}

/// A screen picture after window `w` (content, then frame) is drawn on it.
pub open spec fn window_layer(picture: Seq<u32>, width: int, w: Window) -> Seq<u32> {
    frame_layer(content_layer(picture, width, w), width, w)
}

/// A screen picture after the windows are drawn on it in order.
pub open spec fn composite(picture: Seq<u32>, width: int, windows: Seq<Window>) -> Seq<u32>
    decreases windows.len(),
{
    if windows.len() == 0 {
        picture
    } else {
        window_layer(composite(picture, width, windows.drop_last()), width, windows.last())
    }
}

/// The position in `indices` of the first of the windows they name with
/// the lowest z-index.
pub open spec fn lowest_position(windows: Seq<Window>, indices: Seq<usize>) -> int
    decreases indices.len(),
{
    if indices.len() <= 1 {
        0
    } else {
        let p = lowest_position(windows, indices.drop_last());
        if windows[indices.last() as int].z_index < windows[indices[p] as int].z_index {
            indices.len() - 1
        } else {
            p
        }
    }
}

/// The windows named by `indices`, lowest z-index first and, among equal
/// z-indices, in the order of `indices`.
pub open spec fn order_from(windows: Seq<Window>, indices: Seq<usize>) -> Seq<usize>
    decreases indices.len(),
{
    if indices.len() == 0 {
        Seq::empty()
    } else {
        let p = lowest_position(windows, indices);
        if 0 <= p < indices.len() {
            seq![indices[p]].add(order_from(windows, indices.remove(p)))
        } else {
            Seq::empty()
        }
    }
}

/// The indices `0..n` in increasing order.
pub open spec fn all_indices(n: nat) -> Seq<usize> {
    Seq::new(n, |i: int| i as usize)
}

/// The order in which the windows are drawn: by z-index, and by position in
/// the table (that is, by id) among equal z-indices.
pub open spec fn draw_order(windows: Seq<Window>) -> Seq<usize> {
    order_from(windows, all_indices(windows.len()))
}

/// The windows in drawing order.
pub open spec fn windows_in_draw_order(windows: Seq<Window>) -> Seq<Window> {
    draw_order(windows).map_values(|i: usize| windows[i as int])
}

/// The number of pixels of row `row` of the arrow cursor.
pub open spec fn cursor_row_width(row: int) -> int {
    if 0 <= row < 11 {
        row + 1
    } else if row == 11 {
        9
    } else if row == 12 {
        7
    } else if row == 13 {
        5
    } else if row == 14 {
        3
    } else if row == 15 {
        2
    } else {
        0
    }
}

/// Whether the arrow cursor with its tip at (`cx`, `cy`) covers screen
/// pixel (`x`, `y`).
pub open spec fn cursor_covers(cx: int, cy: int, x: int, y: int) -> bool {
    0 <= y - cy < 16 && 0 <= x - cx < cursor_row_width(y - cy)
}

/// A screen picture with the cursor drawn at (`cx`, `cy`).
pub open spec fn with_cursor(picture: Seq<u32>, width: int, cx: int, cy: int) -> Seq<u32> {
    painted(picture, width, CURSOR_COLOR, |x: int, y: int| cursor_covers(cx, cy, x, y))
}

/// Whether screen pixel (`x`, `y`) is in the box restored around a cursor
/// drawn at (`cx`, `cy`).
pub open spec fn in_restore_box(cx: int, cy: int, x: int, y: int) -> bool {
    &&& cx - CURSOR_RESTORE_PADDING <= x <= cx + CURSOR_WIDTH + CURSOR_RESTORE_PADDING
    &&& cy - CURSOR_RESTORE_PADDING <= y <= cy + CURSOR_HEIGHT + CURSOR_RESTORE_PADDING
}

/// A screen picture with the pixels (`x`, `y`) that `chosen` picks taken
/// from `clean`.
pub open spec fn copied(picture: Seq<u32>, clean: Seq<u32>, width: int, chosen: spec_fn(int, int) -> bool) -> Seq<u32> {
    Seq::new(
        picture.len(),
        |i: int| if chosen(column_of(i, width), row_of(i, width)) {
            clean[i]
        } else {
            picture[i]
        },
    )
}

/// The screen picture after the box around a cursor drawn at (`cx`, `cy`)
/// is copied back from the clean backbuffer.
pub open spec fn restored(picture: Seq<u32>, clean: Seq<u32>, width: int, cx: int, cy: int) -> Seq<u32> {
    copied(picture, clean, width, |x: int, y: int| in_restore_box(cx, cy, x, y))
}

// ============================================================
// Laws
// ============================================================

/// Restoring the box around a cursor drawn over a clean picture gives the
/// clean picture back.
pub proof fn lemma_restore_undoes_cursor(clean: Seq<u32>, width: int, cx: int, cy: int)
    ensures
        restored(with_cursor(clean, width, cx, cy), clean, width, cx, cy) == clean,
{
    let drawn = with_cursor(clean, width, cx, cy);
    assert forall|i: int| 0 <= i < clean.len() implies #[trigger] restored(drawn, clean, width, cx, cy)[i] == clean[i] by {
        let x = column_of(i, width);
        let y = row_of(i, width);
        if cursor_covers(cx, cy, x, y) {
            assert(in_restore_box(cx, cy, x, y));
        }
    }
    assert(restored(drawn, clean, width, cx, cy) =~= clean);
}

/// A click appears only when the left button goes up after it went down.
pub proof fn lemma_click_needs_release(p: Pointer, event: InputEvent, width: usize, height: usize)
    requires
        !p.click_pending,
        pointer_step(p, event, width, height).click_pending,
    ensures
        event == InputEvent::MouseButtonUp(MouseButton::Left),
        p.left_down,
        pointer_step(p, event, width, height).click_x == p.press_x,
        pointer_step(p, event, width, height).click_y == p.press_y,
{
}

/// Taking a click changes nothing but whether a click waits, and succeeds
/// only when one did.
pub proof fn lemma_take_click_only_consumes(p: Pointer, x: usize, y: usize, width: usize, height: usize)
    ensures
        take_click(p, x, y).1 == (Pointer { click_pending: take_click(p, x, y).1.click_pending, ..p }),
        take_click(p, x, y).0 ==> p.click_pending && !take_click(p, x, y).1.click_pending,
        take_click_in_rect(p, x, y, width, height).1 == (Pointer {
            click_pending: take_click_in_rect(p, x, y, width, height).1.click_pending,
            ..p
        }),
        take_click_in_rect(p, x, y, width, height).0 ==> p.click_pending && !take_click_in_rect(
            p,
            x,
            y,
            width,
            height,
        ).1.click_pending,
{
}

/// The cursor stays on the screen: after any events on a non-empty
/// screen, a cursor that started on it is still on it.
pub proof fn lemma_cursor_stays_on_screen(p: Pointer, events: Seq<InputEvent>, width: usize, height: usize)
    requires
        0 < width <= MAX_SCREEN_DIMENSION,
        0 < height <= MAX_SCREEN_DIMENSION,
        0 <= p.x < width,
        0 <= p.y < height,
    ensures
        0 <= pointer_steps(p, events, width, height).x < width,
        0 <= pointer_steps(p, events, width, height).y < height,
    decreases events.len(),
{
    if events.len() > 0 {
        lemma_cursor_stays_on_screen(p, events.drop_last(), width, height);
    }
}

/// The first window with the lowest z-index: no window named in `indices`
/// has a lower one, and those before it have higher ones.
pub proof fn lemma_lowest_position(windows: Seq<Window>, indices: Seq<usize>)
    requires
        indices.len() > 0,
    ensures
        0 <= lowest_position(windows, indices) < indices.len(),
        forall|q: int|
            0 <= q < indices.len() ==> windows[indices[lowest_position(windows, indices)] as int].z_index
                <= #[trigger] windows[indices[q] as int].z_index,
        forall|q: int|
            0 <= q < lowest_position(windows, indices) ==> windows[indices[lowest_position(
                windows,
                indices,
            )] as int].z_index < #[trigger] windows[indices[q] as int].z_index,
    decreases indices.len(),
{
    if indices.len() > 1 {
        let prefix = indices.drop_last();
        lemma_lowest_position(windows, prefix);
        let p = lowest_position(windows, prefix);
        assert forall|q: int| 0 <= q < prefix.len() implies #[trigger] indices[q] == prefix[q] by {}
        assert(indices[p] == prefix[p]);
        assert forall|q: int| 0 <= q < indices.len() - 1 implies windows[prefix[p] as int].z_index
            <= #[trigger] windows[indices[q] as int].z_index by {
            assert(indices[q] == prefix[q]);
        }
    }
}

/// What the drawing order of the windows named by increasing `indices`
/// is: each of them once, by z-index, and in index order among equal
/// z-indices.
pub proof fn lemma_order_from(windows: Seq<Window>, indices: Seq<usize>)
    requires
        forall|i: int, j: int| 0 <= i < j < indices.len() ==> #[trigger] indices[i] < #[trigger] indices[j],
    ensures
        order_from(windows, indices).len() == indices.len(),
        forall|k: usize| #[trigger] order_from(windows, indices).contains(k) <==> indices.contains(k),
        forall|i: int, j: int|
            0 <= i < j < indices.len() ==> order_from(windows, indices)[i] != order_from(windows, indices)[j],
        forall|i: int, j: int|
            0 <= i < j < indices.len() ==> windows[#[trigger] order_from(windows, indices)[i] as int].z_index
                <= windows[#[trigger] order_from(windows, indices)[j] as int].z_index,
        forall|i: int, j: int|
            0 <= i < j < indices.len() && windows[#[trigger] order_from(windows, indices)[i] as int].z_index
                == windows[#[trigger] order_from(windows, indices)[j] as int].z_index ==> order_from(
                windows,
                indices,
            )[i] < order_from(windows, indices)[j],
    decreases indices.len(),
{
    let r = order_from(windows, indices);
    if indices.len() > 0 {
        lemma_lowest_position(windows, indices);
        let p = lowest_position(windows, indices);
        let rest = indices.remove(p);
        assert forall|i: int, j: int| 0 <= i < j < rest.len() implies #[trigger] rest[i] < #[trigger] rest[j] by {
            let i0 = if i < p { i } else { i + 1 };
            let j0 = if j < p { j } else { j + 1 };
            assert(indices[i0] < indices[j0]);
        }
        lemma_order_from(windows, rest);
        let tail = order_from(windows, rest);
        assert(r == seq![indices[p]].add(tail));
        assert forall|k: usize| #[trigger] r.contains(k) <==> indices.contains(k) by {
            if r.contains(k) {
                let i = choose|i: int| 0 <= i < r.len() && r[i] == k;
                if i > 0 {
                    assert(tail[i - 1] == k);
                    assert(tail.contains(k));
                    let q = choose|q: int| 0 <= q < rest.len() && rest[q] == k;
                    let q0 = if q < p { q } else { q + 1 };
                    assert(indices[q0] == k);
                }
            }
            if indices.contains(k) {
                let q = choose|q: int| 0 <= q < indices.len() && indices[q] == k;
                if q == p {
                    assert(r[0] == k);
                } else {
                    let q1 = if q < p { q } else { q - 1 };
                    assert(rest[q1] == k);
                    assert(rest.contains(k));
                    assert(tail.contains(k));
                    let i = choose|i: int| 0 <= i < tail.len() && tail[i] == k;
                    assert(r[i + 1] == k);
                }
            }
        }
        // every element of the tail is an element of `indices` other than the head
        assert forall|t: int| 0 <= t < tail.len() implies exists|q: int|
            0 <= q < indices.len() && q != p && #[trigger] indices[q] == #[trigger] tail[t] by {
            assert(tail.contains(tail[t]));
            assert(rest.contains(tail[t]));
            let q = choose|q: int| 0 <= q < rest.len() && rest[q] == tail[t];
            let q0 = if q < p { q } else { q + 1 };
            assert(indices[q0] == tail[t]);
        }
        assert forall|i: int, j: int| 0 <= i < j < indices.len() implies r[i] != r[j] by {
            if i == 0 {
                let q = choose|q: int| 0 <= q < indices.len() && q != p && #[trigger] indices[q] == tail[j - 1];
                if q < p {
                    assert(indices[q] < indices[p]);
                } else {
                    assert(indices[p] < indices[q]);
                }
            } else {
                assert(r[i] == tail[i - 1] && r[j] == tail[j - 1]);
            }
        }
        assert forall|i: int, j: int| 0 <= i < j < indices.len() implies windows[#[trigger] r[i] as int].z_index
            <= windows[#[trigger] r[j] as int].z_index by {
            if i == 0 {
                let q = choose|q: int| 0 <= q < indices.len() && q != p && #[trigger] indices[q] == tail[j - 1];
                assert(r[j] == tail[j - 1]);
                assert(windows[indices[p] as int].z_index <= windows[indices[q] as int].z_index);
            } else {
                assert(r[i] == tail[i - 1] && r[j] == tail[j - 1]);
            }
        }
        assert forall|i: int, j: int|
            0 <= i < j < indices.len() && windows[#[trigger] r[i] as int].z_index == windows[#[trigger] r[
                j
            ] as int].z_index implies r[i] < r[j] by {
            if i == 0 {
                let q = choose|q: int| 0 <= q < indices.len() && q != p && #[trigger] indices[q] == tail[j - 1];
                if q < p {
                    assert(windows[indices[p] as int].z_index < windows[indices[q] as int].z_index);
                } else {
                    assert(indices[p] < indices[q]);
                }
            } else {
                assert(r[i] == tail[i - 1] && r[j] == tail[j - 1]);
            }
        }
    }
}

/// The windows are drawn each exactly once, lowest z-index first, and in
/// table order (that is, by id) among equal z-indices.
pub proof fn lemma_draw_order(windows: Seq<Window>)
    requires
        windows.len() <= usize::MAX,
    ensures
        draw_order(windows).len() == windows.len(),
        forall|k: int| 0 <= k < windows.len() ==> #[trigger] draw_order(windows).contains(k as usize),
        forall|i: int| 0 <= i < windows.len() ==> #[trigger] draw_order(windows)[i] < windows.len(),
        forall|i: int, j: int| 0 <= i < j < windows.len() ==> draw_order(windows)[i] != draw_order(windows)[j],
        forall|i: int, j: int|
            0 <= i < j < windows.len() ==> windows[#[trigger] draw_order(windows)[i] as int].z_index
                <= windows[#[trigger] draw_order(windows)[j] as int].z_index,
        forall|i: int, j: int|
            0 <= i < j < windows.len() && windows[#[trigger] draw_order(windows)[i] as int].z_index
                == windows[#[trigger] draw_order(windows)[j] as int].z_index ==> draw_order(windows)[i]
                < draw_order(windows)[j],
{
    let all = all_indices(windows.len());
    assert forall|i: int, j: int| 0 <= i < j < all.len() implies #[trigger] all[i] < #[trigger] all[j] by {}
    lemma_order_from(windows, all);
    assert forall|k: int| 0 <= k < windows.len() implies #[trigger] draw_order(windows).contains(k as usize) by {
        assert(all[k] == k as usize);
        assert(all.contains(k as usize));
    }
    assert forall|i: int| 0 <= i < windows.len() implies #[trigger] draw_order(windows)[i] < windows.len() by {
        assert(draw_order(windows).contains(draw_order(windows)[i]));
        assert(all.contains(draw_order(windows)[i]));
    }
}

/// Drawing windows on a picture keeps its size.
pub proof fn lemma_composite_len(picture: Seq<u32>, width: int, windows: Seq<Window>)
    ensures
        composite(picture, width, windows).len() == picture.len(),
    decreases windows.len(),
{
    if windows.len() > 0 {
        lemma_composite_len(picture, width, windows.drop_last());
    }
}

/// What `draw` puts on the screen of a well-formed compositor: the
/// backbuffer is the background gradient with every window drawn on it
/// once, in ascending z-index (later ones over earlier ones), and it does
/// not depend on the pointer, so it holds no cursor pixel; the screen
/// picture is the backbuffer except on the arrow cursor's shape at the
/// pointer, which is white.
pub proof fn lemma_draw_picture(c: Compositor)
    requires
        c.wf(),
        c.windows@.len() <= usize::MAX,
    ensures
        ({
            let w = c.screen_width as int;
            let h = c.screen_height as int;
            let ordered = windows_in_draw_order(c.windows@);
            let back = composite(background(w, h), w, ordered);
            let screen = with_cursor(back, w, c.mouse_x as int, c.mouse_y as int);
            &&& ordered.len() == c.windows@.len()
            &&& forall|k: int| 0 <= k < c.windows@.len() ==> ordered.contains(#[trigger] c.windows@[k])
            &&& forall|i: int, j: int|
                0 <= i < j < ordered.len() ==> (#[trigger] ordered[i]).z_index <= (#[trigger] ordered[j]).z_index
            &&& back.len() == w * h
            &&& screen.len() == w * h
            &&& forall|i: int|
                0 <= i < w * h ==> #[trigger] screen[i] == if cursor_covers(
                    c.mouse_x as int,
                    c.mouse_y as int,
                    column_of(i, w),
                    row_of(i, w),
                ) {
                    CURSOR_COLOR
                } else {
                    back[i]
                }
        }),
{
    let ws = c.windows@;
    let w = c.screen_width as int;
    let h = c.screen_height as int;
    let order = draw_order(ws);
    let ordered = windows_in_draw_order(ws);
    lemma_draw_order(ws);
    assert forall|k: int| 0 <= k < ws.len() implies ordered.contains(#[trigger] ws[k]) by {
        assert(order.contains(k as usize));
        let p = choose|p: int| 0 <= p < order.len() && order[p] == k as usize;
        assert(ordered[p] == ws[k]);
    }
    assert forall|i: int, j: int| 0 <= i < j < ordered.len() implies (#[trigger] ordered[i]).z_index <= (
    #[trigger] ordered[j]).z_index by {
        assert(ws[order[i] as int].z_index <= ws[order[j] as int].z_index);
    }
    lemma_composite_len(background(w, h), w, ordered);
}

/// Destroying the window that was just created gives back the window
/// table from before: a fresh id is not in use (until the ids run out).
pub proof fn lemma_destroy_undoes_create(c: Compositor, w: Window)
    requires
        c.wf(),
        c.next_id() < u64::MAX,
    ensures
        !c.window_table().contains_key(c.next_id()),
        c.window_table().insert(c.next_id(), w).remove(c.next_id()) == c.window_table(),
{
    if c.window_table().contains_key(c.next_id()) {
        let i = choose|i: int| 0 <= i < c.windows@.len() && #[trigger] c.windows@[i].id == c.next_id();
        assert(c.windows@[i].id < c.next_id());
    }
    assert(c.window_table().insert(c.next_id(), w).remove(c.next_id()) =~= c.window_table());
}

// ============================================================
// Compositor
// ============================================================

/// The window manager's state.  The windows are kept in increasing id
/// order; the backbuffer holds the composed desktop without the cursor and
/// `hardware_framebuffer` the picture for the screen, cursor included.
pub struct Compositor {
    pub windows: Vec<Window>,
    pub screen_width: usize,
    pub screen_height: usize,
    pub hardware_framebuffer: Vec<u32>,
    pub click_pending: bool,
    pub click_x: i32,
    pub click_y: i32,
    pub left_button_down: bool,
    pub click_start_x: i32,
    pub click_start_y: i32,
    pub backbuffer: Vec<u32>,
    pub mouse_x: i32,
    pub mouse_y: i32,
    pub mouse_buttons: u8,
    pub cursor_drawn_x: i32,
    pub cursor_drawn_y: i32,
    pub cursor_visible: bool,
    pub next_window_id: u64,
    pub next_z_index: usize,
}

impl Compositor {
    /// The pointer state.
    pub open spec fn pointer(&self) -> Pointer {
        Pointer {
            x: self.mouse_x,
            y: self.mouse_y,
            buttons: self.mouse_buttons,
            left_down: self.left_button_down,
            press_x: self.click_start_x,
            press_y: self.click_start_y,
            click_pending: self.click_pending,
            click_x: self.click_x,
            click_y: self.click_y,
        }
    }

    /// Where the cursor was last drawn into the screen picture, if it was.
    pub open spec fn cursor_drawn(&self) -> Option<(i32, i32)> {
        if self.cursor_visible {
            Some((self.cursor_drawn_x, self.cursor_drawn_y))
        } else {
            None
        }
    }

    /// The id the next window gets.
    pub open spec fn next_id(&self) -> u64 {
        self.next_window_id
    }

    /// The z-index the next window gets.
    pub open spec fn next_z(&self) -> usize {
        self.next_z_index
    }

    /// The windows by id.
    pub open spec fn window_table(&self) -> Map<u64, Window> {
        window_map(self.windows@)
    }

    /// Well-formedness: both pixel buffers cover the screen, the windows
    /// are valid and in increasing id order below the next id (which
    /// stays at `u64::MAX` once reached), every window's z-index is below
    /// the next one (unless that is held at `usize::MAX`), the z-index
    /// counter follows the id counter (held at `usize::MAX`), and the
    /// screen fits `i32` coordinates.
    pub open spec fn wf(&self) -> bool {
        &&& self.screen_width <= MAX_SCREEN_DIMENSION
        &&& self.screen_height <= MAX_SCREEN_DIMENSION
        &&& self.screen_width * self.screen_height <= usize::MAX
        &&& self.backbuffer@.len() == self.screen_width * self.screen_height
        &&& self.hardware_framebuffer@.len() == self.screen_width * self.screen_height
        &&& ids_increasing(self.windows@)
        &&& forall|i: int| 0 <= i < self.windows@.len() ==> (#[trigger] self.windows@[i]).wf()
        &&& self.next_id() >= 1
        &&& forall|i: int|
            0 <= i < self.windows@.len() ==> (#[trigger] self.windows@[i]).id < self.next_id() || (
            self.windows@[i].id == u64::MAX && self.next_id() == u64::MAX)
        &&& forall|i: int|
            0 <= i < self.windows@.len() ==> (#[trigger] self.windows@[i]).z_index < self.next_z() || self.next_z()
                == usize::MAX
        &&& self.next_z() as int == if self.next_id() <= usize::MAX {
            self.next_id() as int
        } else {
            usize::MAX as int
        }
    }

    /// A compositor for a `width` by `height` screen: no windows, the
    /// backbuffer in the desktop colour, the screen picture black and the
    /// cursor centred and not yet drawn.
    pub fn init(width: usize, height: usize) -> (r: Self)
        requires
            width <= MAX_SCREEN_DIMENSION,
            height <= MAX_SCREEN_DIMENSION,
            width * height <= usize::MAX,
        ensures
            r.wf(),
            r.screen_width == width,
            r.screen_height == height,
            r.windows@.len() == 0,
            r.backbuffer@ == Seq::new((width * height) as nat, |i: int| DESKTOP_COLOR),
            r.hardware_framebuffer@ == Seq::new((width * height) as nat, |i: int| 0u32),
            r.pointer() == (Pointer {
                x: (width / 2) as i32,
                y: (height / 2) as i32,
                buttons: 0,
                left_down: false,
                press_x: (width / 2) as i32,
                press_y: (height / 2) as i32,
                click_pending: false,
                click_x: 0,
                click_y: 0,
            }),
            r.cursor_drawn() is None,
            r.next_id() == 1,
            r.next_z() == 1,
    {
        let size = width * height;
        let backbuffer = filled(size, DESKTOP_COLOR);
        let hardware_framebuffer = filled(size, 0);
        let initial_mouse_x = (width / 2) as i32;
        let initial_mouse_y = (height / 2) as i32;
        Compositor {
            windows: Vec::new(),
            screen_width: width,
            screen_height: height,
            hardware_framebuffer,
            click_pending: false,
            click_x: 0,
            click_y: 0,
            left_button_down: false,
            click_start_x: initial_mouse_x,
            click_start_y: initial_mouse_y,
            backbuffer,
            mouse_x: initial_mouse_x,
            mouse_y: initial_mouse_y,
            mouse_buttons: 0,
            cursor_drawn_x: initial_mouse_x,
            cursor_drawn_y: initial_mouse_y,
            cursor_visible: false,
            next_window_id: 1,
            next_z_index: 1,
        }
    }

    /// Adds a window with the next id and z-index and returns the id; both
    /// counters then advance, held at their maximum.  Once the ids are used
    /// up, the window with the last id is replaced.
    pub fn create_window(&mut self, x: i32, y: i32, width: usize, height: usize) -> (r: u64)
        requires
            old(self).wf(),
            0 < width <= MAX_WINDOW_WIDTH,
            0 < height <= MAX_WINDOW_HEIGHT,
        ensures
            final(self).wf(),
            r == old(self).next_id(),
            final(self).window_table() == old(self).window_table().insert(
                r,
                final(self).window_table()[r],
            ),
            final(self).window_table()[r].id == r,
            final(self).window_table()[r].x == x,
            final(self).window_table()[r].y == y,
            final(self).window_table()[r].width == width,
            final(self).window_table()[r].height == height,
            final(self).window_table()[r].z_index == old(self).next_z(),
            old(self).next_id() < u64::MAX ==> forall|k: u64|
                #![trigger old(self).window_table().dom().contains(k)]
                old(self).window_table().dom().contains(k) ==> k < r,
            old(self).next_id() < usize::MAX ==> forall|k: u64|
                #![trigger final(self).window_table()[k]]
                final(self).window_table().dom().contains(k) && k != r ==> final(self).window_table()[k].z_index
                    < final(self).window_table()[r].z_index,
            final(self).window_table()[r].pixels@ == Seq::new(
                (width * height) as nat,
                |i: int| crate::wm::window::WINDOW_BACKGROUND,
            ),
            final(self).window_table()[r].title@ == Seq::<u8>::empty(),
            final(self).next_id() == (if old(self).next_id() == u64::MAX {
                u64::MAX
            } else {
                (old(self).next_id() + 1) as u64
            }),
            final(self).next_z() == (if old(self).next_z() == usize::MAX {
                usize::MAX
            } else {
                (old(self).next_z() + 1) as usize
            }),
            final(self).pointer() == old(self).pointer(),
            final(self).cursor_drawn() == old(self).cursor_drawn(),
            final(self).screen_width == old(self).screen_width,
            final(self).screen_height == old(self).screen_height,
            final(self).backbuffer == old(self).backbuffer,
            final(self).hardware_framebuffer == old(self).hardware_framebuffer,
    {
        proof {
            assert forall|k: u64| #[trigger] self.window_table().dom().contains(k) && self.next_id() < u64::MAX
                implies k < self.next_id() by {
                let i = choose|i: int| 0 <= i < self.windows@.len() && #[trigger] self.windows@[i].id == k;
                assert(self.windows@[i].id < self.next_id());
            }
        }
        let id = self.next_window_id;
        self.next_window_id = self.next_window_id.saturating_add(1);
        let z = self.next_z_index;
        self.next_z_index = self.next_z_index.saturating_add(1);
        let window = Window::new(id, x, y, width, height, z);
        let ghost before = self.windows@;
        let n = self.windows.len();
        if n > 0 && self.windows[n - 1].id == id {
            self.windows.set(n - 1, window);
            proof {
                assert forall|i: int, j: int| 0 <= i < j < self.windows@.len() implies #[trigger] self.windows@[i].id
                    < #[trigger] self.windows@[j].id by {
                    if j == n - 1 {
                        assert(before[i].id < before[j].id);
                    }
                }
                lemma_window_map_update(before, n - 1, self.windows@[n - 1]);
            }
        } else {
            self.windows.push(window);
            proof {
                assert forall|i: int, j: int| 0 <= i < j < self.windows@.len() implies #[trigger] self.windows@[i].id
                    < #[trigger] self.windows@[j].id by {
                    if j == n {
                        assert(before[i].id < id || (before[i].id == u64::MAX && id == u64::MAX));
                        if before[i].id == id {
                            assert(before[i].id < before[n - 1].id || i == n - 1);
                        }
                    } else {
                        assert(before[i].id < before[j].id);
                    }
                }
                self.lemma_pushed(before, id);
            }
        }
        proof {
            lemma_window_map_at(self.windows@, self.windows@.len() - 1);
        }
        id
    }

    /// Copies back, from the backbuffer, the box around a cursor drawn at
    /// (`cursor_x`, `cursor_y`).
    pub fn restore_cursor_area(&mut self, cursor_x: i32, cursor_y: i32)
        requires
            old(self).wf(),
        ensures
            final(self).wf(),
            final(self).hardware_framebuffer@ == restored(
                old(self).hardware_framebuffer@,
                old(self).backbuffer@,
                old(self).screen_width as int,
                cursor_x as int,
                cursor_y as int,
            ),
            final(self).windows == old(self).windows,
            final(self).backbuffer == old(self).backbuffer,
            final(self).screen_width == old(self).screen_width,
            final(self).screen_height == old(self).screen_height,
            final(self).pointer() == old(self).pointer(),
            final(self).cursor_drawn() == old(self).cursor_drawn(),
            final(self).next_id() == old(self).next_id(),
            final(self).next_z() == old(self).next_z(),
    {
        restore_box(
            &mut self.hardware_framebuffer,
            &self.backbuffer,
            self.screen_width,
            self.screen_height,
            cursor_x,
            cursor_y,
        );
    }

    /// Moves the cursor in the screen picture only: the box under the old
    /// cursor comes back from the backbuffer and the cursor is drawn at
    /// the mouse position, without composing the desktop again.
    pub fn update_cursor_only(&mut self)
        requires
            old(self).wf(),
        ensures
            final(self).wf(),
            final(self).hardware_framebuffer@ == with_cursor(
                match old(self).cursor_drawn() {
                    Some(p) => restored(
                        old(self).hardware_framebuffer@,
                        old(self).backbuffer@,
                        old(self).screen_width as int,
                        p.0 as int,
                        p.1 as int,
                    ),
                    None => old(self).hardware_framebuffer@,
                },
                old(self).screen_width as int,
                old(self).mouse_x as int,
                old(self).mouse_y as int,
            ),
            final(self).cursor_drawn() == Some((old(self).mouse_x, old(self).mouse_y)),
            final(self).windows == old(self).windows,
            final(self).backbuffer == old(self).backbuffer,
            final(self).screen_width == old(self).screen_width,
            final(self).screen_height == old(self).screen_height,
            final(self).pointer() == old(self).pointer(),
            final(self).next_id() == old(self).next_id(),
            final(self).next_z() == old(self).next_z(),
    {
        if self.cursor_visible {
            let x = self.cursor_drawn_x;
            let y = self.cursor_drawn_y;
            self.restore_cursor_area(x, y);
        }
        draw_cursor_impl(
            &mut self.hardware_framebuffer,
            self.screen_width,
            self.screen_height,
            self.mouse_x,
            self.mouse_y,
        );
        self.cursor_drawn_x = self.mouse_x;
        self.cursor_drawn_y = self.mouse_y;
        self.cursor_visible = true;
    }

    /// Composes the desktop: the background gradient, then each window's
    /// content and frame in drawing order, into the backbuffer; the screen
    /// picture is that backbuffer with the cursor drawn on it.
    pub fn draw(&mut self)
        requires
            old(self).wf(),
        ensures
            final(self).wf(),
            final(self).backbuffer@ == composite(
                background(old(self).screen_width as int, old(self).screen_height as int),
                old(self).screen_width as int,
                windows_in_draw_order(old(self).windows@),
            ),
            final(self).hardware_framebuffer@ == with_cursor(
                final(self).backbuffer@,
                old(self).screen_width as int,
                old(self).mouse_x as int,
                old(self).mouse_y as int,
            ),
            final(self).cursor_drawn() == Some((old(self).mouse_x, old(self).mouse_y)),
            final(self).windows == old(self).windows,
            final(self).screen_width == old(self).screen_width,
            final(self).screen_height == old(self).screen_height,
            final(self).pointer() == old(self).pointer(),
            final(self).next_id() == old(self).next_id(),
            final(self).next_z() == old(self).next_z(),
    {
        let screen_width = self.screen_width;
        let screen_height = self.screen_height;
        let ghost w = screen_width as int;
        let ghost bg = background(w, screen_height as int);
        fill_background(&mut self.backbuffer, screen_width, screen_height);
        let order = draw_order_exec(&self.windows);
        let ghost ordered = windows_in_draw_order(self.windows@);
        proof {
            assert(composite(bg, w, ordered.take(0)) == bg);
        }
        let mut k: usize = 0;
        while k < order.len()
            invariant
                k <= order@.len(),
                self.wf(),
                order@ == draw_order(self.windows@),
                forall|j: int| 0 <= j < order@.len() ==> #[trigger] order@[j] < self.windows@.len(),
                ordered == windows_in_draw_order(self.windows@),
                ordered.len() == order@.len(),
                screen_width == self.screen_width,
                screen_height == self.screen_height,
                w == screen_width as int,
                self.windows == old(self).windows,
                self.pointer() == old(self).pointer(),
                self.cursor_drawn() == old(self).cursor_drawn(),
                self.screen_width == old(self).screen_width,
                self.screen_height == old(self).screen_height,
                self.next_id() == old(self).next_id(),
                self.next_z() == old(self).next_z(),
                self.backbuffer@ == composite(bg, w, ordered.take(k as int)),
            decreases order@.len() - k,
        {
            let index = order[k];
            proof {
                assert(ordered.take(k + 1).drop_last() =~= ordered.take(k as int));
                assert(ordered[k as int] == self.windows@[index as int]);
            }
            composite_window(&mut self.backbuffer, screen_width, screen_height, &self.windows[index]);
            draw_window_border_impl(&mut self.backbuffer, screen_width, screen_height, &self.windows[index]);
            k = k + 1;
        }
        proof {
            assert(ordered.take(k as int) =~= ordered);
        }
        self.hardware_framebuffer = copy_of(&self.backbuffer);
        draw_cursor_impl(
            &mut self.hardware_framebuffer,
            screen_width,
            screen_height,
            self.mouse_x,
            self.mouse_y,
        );
        self.cursor_drawn_x = self.mouse_x;
        self.cursor_drawn_y = self.mouse_y;
        self.cursor_visible = true;
    }

    /// The position of the window with id `id` in the table, if any.
    fn find_window(&self, id: u64) -> (r: Option<usize>)
        requires
            ids_increasing(self.windows@),
        ensures
            r matches Some(i) ==> i < self.windows@.len() && self.windows@[i as int].id == id,
            r is None ==> !has_window(self.windows@, id),
            r is Some <==> self.window_table().contains_key(id),
    {
        let mut i: usize = 0;
        while i < self.windows.len()
            invariant
                i <= self.windows@.len(),
                forall|j: int| 0 <= j < i ==> #[trigger] self.windows@[j].id != id,
            decreases self.windows@.len() - i,
        {
            if self.windows[i].id == id {
                return Some(i);
            }
            i = i + 1;
        }
        None
    }

    /// Removes the window with id `id`; returns whether there was one.
    pub fn destroy_window(&mut self, id: u64) -> (r: bool)
        requires
            old(self).wf(),
        ensures
            final(self).wf(),
            r == old(self).window_table().contains_key(id),
            final(self).window_table() == old(self).window_table().remove(id),
            final(self).pointer() == old(self).pointer(),
            final(self).cursor_drawn() == old(self).cursor_drawn(),
            final(self).next_id() == old(self).next_id(),
            final(self).next_z() == old(self).next_z(),
            final(self).screen_width == old(self).screen_width,
            final(self).screen_height == old(self).screen_height,
            final(self).backbuffer == old(self).backbuffer,
            final(self).hardware_framebuffer == old(self).hardware_framebuffer,
    {
        match self.find_window(id) {
            Some(i) => {
                let ghost before = self.windows@;
                let _ = self.windows.remove(i);
                proof {
                    lemma_window_map_remove(before, i as int);
                    assert(self.windows@ == before.remove(i as int));
                }
                true
            },
            None => {
                proof {
                    assert(window_map(self.windows@).remove(id) =~= window_map(self.windows@));
                }
                false
            },
        }
    }

    /// Replaces the pixels of window `id` with `user_buffer`, which must
    /// hold exactly as many pixels; returns whether it did.
    pub fn update_window_pixels(&mut self, id: u64, user_buffer: &[u32]) -> (r: bool)
        requires
            old(self).wf(),
        ensures
            final(self).wf(),
            r == (old(self).window_table().contains_key(id) && user_buffer@.len()
                == old(self).window_table()[id].pixels@.len()),
            r ==> final(self).window_table().contains_key(id) && final(self).window_table() == old(self).window_table().insert(
                id,
                final(self).window_table()[id],
            ) && final(self).window_table()[id].pixels@ == user_buffer@ && final(self).window_table()[id].same_frame(
                old(self).window_table()[id],
            ),
            !r ==> final(self).window_table() == old(self).window_table(),
            final(self).pointer() == old(self).pointer(),
            final(self).cursor_drawn() == old(self).cursor_drawn(),
            final(self).next_id() == old(self).next_id(),
            final(self).next_z() == old(self).next_z(),
            final(self).screen_width == old(self).screen_width,
            final(self).screen_height == old(self).screen_height,
            final(self).backbuffer == old(self).backbuffer,
            final(self).hardware_framebuffer == old(self).hardware_framebuffer,
    {
        match self.find_window(id) {
            Some(i) => {
                proof {
                    lemma_window_map_at(self.windows@, i as int);
                }
                if user_buffer.len() != self.windows[i].pixels.len() {
                    return false;
                }
                let ghost before = self.windows@;
                let mut pixels: Vec<u32> = Vec::new();
                pixels.extend_from_slice(user_buffer);
                proof {
                    assert forall|k: int| 0 <= k < pixels@.len() implies pixels@[k] == user_buffer@[k] by {
                        assert(vstd::pervasive::cloned::<u32>(user_buffer@[k], pixels@[k]));
                    }
                    assert(pixels@ =~= user_buffer@);
                }
                let mut window = self.windows.remove(i);
                window.pixels = pixels;
                self.windows.insert(i, window);
                proof {
                    assert(self.windows@ =~= before.update(i as int, self.windows@[i as int]));
                }
                proof {
                    lemma_window_map_update(before, i as int, self.windows@[i as int]);
                    lemma_window_map_at(self.windows@, i as int);
                }
                true
            },
            None => false,
        }
    }

    /// Fills the part of the rectangle at (`x`, `y`) of `width` by
    /// `height` inside window `id` with `color`; returns whether the window
    /// exists.
    pub fn fill_window_rect(&mut self, id: u64, x: usize, y: usize, width: usize, height: usize, color: u32) -> (r:
        bool)
        requires
            old(self).wf(),
        ensures
            final(self).wf(),
            r == old(self).window_table().contains_key(id),
            r ==> final(self).window_table() == old(self).window_table().insert(id, final(self).window_table()[id])
                && final(self).window_table()[id].rect_filled_from(
                old(self).window_table()[id],
                x as int,
                y as int,
                width as int,
                height as int,
                color,
            ),
            !r ==> final(self).window_table() == old(self).window_table(),
            final(self).pointer() == old(self).pointer(),
            final(self).cursor_drawn() == old(self).cursor_drawn(),
            final(self).next_id() == old(self).next_id(),
            final(self).next_z() == old(self).next_z(),
            final(self).screen_width == old(self).screen_width,
            final(self).screen_height == old(self).screen_height,
            final(self).backbuffer == old(self).backbuffer,
            final(self).hardware_framebuffer == old(self).hardware_framebuffer,
    {
        match self.find_window(id) {
            Some(i) => {
                proof {
                    lemma_window_map_at(self.windows@, i as int);
                }
                let ghost before = self.windows@;
                let mut window = self.windows.remove(i);
                window.fill_rect(x, y, width, height, color);
                self.windows.insert(i, window);
                proof {
                    assert(self.windows@ =~= before.update(i as int, self.windows@[i as int]));
                    lemma_window_map_update(before, i as int, self.windows@[i as int]);
                    lemma_window_map_at(self.windows@, i as int);
                }
                true
            },
            None => false,
        }
    }

    /// Draws a string into window `id` as `Window::draw_string` does;
    /// returns whether the window exists.
    pub fn draw_window_string(
        &mut self,
        id: u64,
        x: usize,
        y: usize,
        glyphs: &[TextGlyph],
        ascent: i32,
        line_height: i32,
        color: Color,
        scale: usize,
    ) -> (r: bool)
        requires
            old(self).wf(),
            shapes_fit(glyphs@),
        ensures
            final(self).wf(),
            r == old(self).window_table().contains_key(id),
            r ==> final(self).window_table() == old(self).window_table().insert(id, final(self).window_table()[id])
                && final(self).window_table()[id].string_drawn_from(
                old(self).window_table()[id],
                x,
                y,
                glyphs@,
                ascent,
                line_height,
                color,
                scale,
            ),
            !r ==> final(self).window_table() == old(self).window_table(),
            final(self).pointer() == old(self).pointer(),
            final(self).cursor_drawn() == old(self).cursor_drawn(),
            final(self).next_id() == old(self).next_id(),
            final(self).next_z() == old(self).next_z(),
            final(self).screen_width == old(self).screen_width,
            final(self).screen_height == old(self).screen_height,
            final(self).backbuffer == old(self).backbuffer,
            final(self).hardware_framebuffer == old(self).hardware_framebuffer,
    {
        match self.find_window(id) {
            Some(i) => {
                proof {
                    lemma_window_map_at(self.windows@, i as int);
                }
                let ghost before = self.windows@;
                let mut window = self.windows.remove(i);
                window.draw_string(x, y, glyphs, ascent, line_height, color, scale);
                self.windows.insert(i, window);
                proof {
                    assert(self.windows@ =~= before.update(i as int, self.windows@[i as int]));
                    lemma_window_map_update(before, i as int, self.windows@[i as int]);
                    lemma_window_map_at(self.windows@, i as int);
                }
                true
            },
            None => false,
        }
    }

    /// Gives window `id` the title `title` and fills it with `color`;
    /// returns whether the window exists.
    pub fn prepare_window(&mut self, id: u64, title: &str, color: u32) -> (r: bool)
        requires
            old(self).wf(),
        ensures
            final(self).wf(),
            r == old(self).window_table().contains_key(id),
            r ==> final(self).window_table() == old(self).window_table().insert(id, final(self).window_table()[id])
                && final(self).window_table()[id].title@ == title.spec_bytes()
                && final(self).window_table()[id].pixels@ == Seq::new(
                old(self).window_table()[id].pixels@.len(),
                |i: int| color,
            ) && final(self).window_table()[id].id == old(self).window_table()[id].id
                && final(self).window_table()[id].x == old(self).window_table()[id].x
                && final(self).window_table()[id].y == old(self).window_table()[id].y
                && final(self).window_table()[id].width == old(self).window_table()[id].width
                && final(self).window_table()[id].height == old(self).window_table()[id].height
                && final(self).window_table()[id].z_index == old(self).window_table()[id].z_index,
            !r ==> final(self).window_table() == old(self).window_table(),
            final(self).pointer() == old(self).pointer(),
            final(self).cursor_drawn() == old(self).cursor_drawn(),
            final(self).next_id() == old(self).next_id(),
            final(self).next_z() == old(self).next_z(),
            final(self).screen_width == old(self).screen_width,
            final(self).screen_height == old(self).screen_height,
            final(self).backbuffer == old(self).backbuffer,
            final(self).hardware_framebuffer == old(self).hardware_framebuffer,
    {
        match self.find_window(id) {
            Some(i) => {
                proof {
                    lemma_window_map_at(self.windows@, i as int);
                }
                let ghost before = self.windows@;
                let mut window = self.windows.remove(i);
                window.set_title(title);
                window.clear(color);
                self.windows.insert(i, window);
                proof {
                    assert(self.windows@ =~= before.update(i as int, self.windows@[i as int]));
                    lemma_window_map_update(before, i as int, self.windows@[i as int]);
                    lemma_window_map_at(self.windows@, i as int);
                }
                true
            },
            None => false,
        }
    }

    /// The bit of `button` in the button bitmap.
    pub fn mouse_button_mask(button: MouseButton) -> (r: u8)
        ensures
            r == button_mask(button),
    {
        match button {
            MouseButton::Left => MOUSE_BUTTON_LEFT,
            MouseButton::Right => MOUSE_BUTTON_RIGHT,
            MouseButton::Middle => MOUSE_BUTTON_MIDDLE,
            MouseButton::Button4 => MOUSE_BUTTON_4,
            MouseButton::Button5 => MOUSE_BUTTON_5,
        }
    }

    /// Holds the cursor on the screen.
    pub fn clamp_mouse(&mut self)
        requires
            old(self).wf(),
        ensures
            final(self).pointer() == (Pointer {
                x: clamp_position(old(self).mouse_x, old(self).mouse_y, old(self).screen_width, old(self).screen_height).0,
                y: clamp_position(old(self).mouse_x, old(self).mouse_y, old(self).screen_width, old(self).screen_height).1,
                ..old(self).pointer()
            }),
            final(self).same_except_pointer(*old(self)),
    {
        if self.screen_width == 0 || self.screen_height == 0 {
            self.mouse_x = 0;
            self.mouse_y = 0;
            return;
        }
        let max_x = (self.screen_width - 1) as i32;
        let max_y = (self.screen_height - 1) as i32;
        self.mouse_x = clamp_coordinate(self.mouse_x, max_x);
        self.mouse_y = clamp_coordinate(self.mouse_y, max_y);
    }

    /// Everything but the pointer is unchanged.
    pub open spec fn same_except_pointer(&self, other: Compositor) -> bool {
        &&& self.windows == other.windows
        &&& self.screen_width == other.screen_width
        &&& self.screen_height == other.screen_height
        &&& self.hardware_framebuffer == other.hardware_framebuffer
        &&& self.backbuffer == other.backbuffer
        &&& self.cursor_drawn() == other.cursor_drawn()
        &&& self.next_id() == other.next_id()
        &&& self.next_z() == other.next_z()
    }

    /// Applies one mouse event to the pointer; returns whether it concerns
    /// the pointer.
    fn apply_mouse_event(&mut self, event: InputEvent) -> (r: bool)
        requires
            old(self).wf(),
        ensures
            final(self).wf(),
            final(self).pointer() == pointer_step(
                old(self).pointer(),
                event,
                old(self).screen_width,
                old(self).screen_height,
            ),
            final(self).same_except_pointer(*old(self)),
            r == is_pointer_event(event),
    {
        match event {
            InputEvent::MouseMove { x, y } => {
                self.mouse_x = add_saturating_i32(self.mouse_x, x);
                self.mouse_y = add_saturating_i32(self.mouse_y, y);
                self.clamp_mouse();
                true
            },
            InputEvent::MouseButtonDown(button) => {
                let mask = Self::mouse_button_mask(button);
                self.mouse_buttons = self.mouse_buttons | mask;
                if button == MouseButton::Left {
                    self.left_button_down = true;
                    self.click_start_x = self.mouse_x;
                    self.click_start_y = self.mouse_y;
                }
                true
            },
            InputEvent::MouseButtonUp(button) => {
                let mask = Self::mouse_button_mask(button);
                self.mouse_buttons = self.mouse_buttons & !mask;
                if button == MouseButton::Left {
                    if self.left_button_down {
                        self.left_button_down = false;
                        self.click_x = self.click_start_x;
                        self.click_y = self.click_start_y;
                        self.click_pending = true;
                    }
                }
                true
            },
            InputEvent::MouseWheel { .. } => true,
            InputEvent::KeyDown { .. } | InputEvent::KeyUp { .. } => false,
        }
    }

    /// Takes up to `MOUSE_EVENTS_PER_UPDATE` events from the mouse queue
    /// and applies them in order; returns whether any of them concerned
    /// the pointer.  Only a press followed by a release of the left button
    /// leaves a click.
    pub fn update_mouse(&mut self, input: &mut InputState) -> (r: bool)
        requires
            old(self).wf(),
        ensures
            final(self).wf(),
            ({
                let q = old(input).mouse_queue();
                let n = if q.len() < MOUSE_EVENTS_PER_UPDATE { q.len() as int } else { MOUSE_EVENTS_PER_UPDATE as int };
                &&& final(input).mouse_queue() == q.subrange(n, q.len() as int)
                &&& final(self).pointer() == pointer_steps(
                    old(self).pointer(),
                    q.subrange(0, n),
                    old(self).screen_width,
                    old(self).screen_height,
                )
                &&& r == exists|i: int| 0 <= i < n && is_pointer_event(#[trigger] q[i])
            }),
            final(self).same_except_pointer(*old(self)),
            final(input).keyboard_queue() == old(input).keyboard_queue(),
            final(input).last_report() == old(input).last_report(),
            final(input).buttons() == old(input).buttons(),
            final(input).position() == old(input).position(),
            final(input).current_modifiers() == old(input).current_modifiers(),
            final(input).keyboard_seen() == old(input).keyboard_seen(),
            final(input).mouse_seen() == old(input).mouse_seen(),
    {
        let ghost q = old(input).mouse_queue();
        let ghost start = self.pointer();
        let mut changed = false;
        let mut count: usize = 0;
        while count < MOUSE_EVENTS_PER_UPDATE
            invariant_except_break
                count <= MOUSE_EVENTS_PER_UPDATE,
                count <= q.len(),
            invariant
                self.wf(),
                self.same_except_pointer(*old(self)),
                input.mouse_queue() == q.subrange(count as int, q.len() as int),
                self.pointer() == pointer_steps(start, q.subrange(0, count as int), self.screen_width, self.screen_height),
                changed == exists|i: int| 0 <= i < count && is_pointer_event(#[trigger] q[i]),
                input.keyboard_queue() == old(input).keyboard_queue(),
                input.last_report() == old(input).last_report(),
                input.buttons() == old(input).buttons(),
                input.position() == old(input).position(),
                input.current_modifiers() == old(input).current_modifiers(),
                input.keyboard_seen() == old(input).keyboard_seen(),
                input.mouse_seen() == old(input).mouse_seen(),
                start == old(self).pointer(),
                q == old(input).mouse_queue(),
            ensures
                count <= q.len(),
                count <= MOUSE_EVENTS_PER_UPDATE,
                count == MOUSE_EVENTS_PER_UPDATE || count == q.len(),
                input.mouse_queue() == q.subrange(count as int, q.len() as int),
            decreases MOUSE_EVENTS_PER_UPDATE - count,
        {
            let event = match poll_mouse_event(input) {
                Some(event) => event,
                None => break,
            };
            proof {
                assert(q.subrange(0, count + 1).drop_last() =~= q.subrange(0, count as int));
                assert(event == q[count as int]);
            }
            let concerned = self.apply_mouse_event(event);
            changed = changed || concerned;
            count = count + 1;
            proof {
                assert(q.subrange(count as int, q.len() as int) =~= old(input).mouse_queue().subrange(count as int, q.len() as int));
            }
        }
        changed
    }

    /// Takes the waiting click when it happened exactly at (`x`, `y`).
    /// Never moves or presses anything; a click at a negative position is
    /// dropped.
    pub fn sys_click(&mut self, x: usize, y: usize) -> (r: bool)
        requires
            old(self).wf(),
        ensures
            final(self).wf(),
            (r, final(self).pointer()) == take_click(old(self).pointer(), x, y),
            final(self).same_except_pointer(*old(self)),
    {
        if !self.click_pending {
            return false;
        }
        if self.click_x < 0 || self.click_y < 0 {
            self.click_pending = false;
            return false;
        }
        let click_x = self.click_x as usize;
        let click_y = self.click_y as usize;
        if click_x != x || click_y != y {
            return false;
        }
        self.click_pending = false;
        true
    }

    /// Takes the waiting click when it happened inside the rectangle at
    /// (`x`, `y`) of `width` by `height`.
    pub fn sys_click_rect(&mut self, x: usize, y: usize, width: usize, height: usize) -> (r: bool)
        requires
            old(self).wf(),
        ensures
            final(self).wf(),
            (r, final(self).pointer()) == take_click_in_rect(old(self).pointer(), x, y, width, height),
            final(self).same_except_pointer(*old(self)),
    {
        if !self.click_pending {
            return false;
        }
        if self.click_x < 0 || self.click_y < 0 {
            self.click_pending = false;
            return false;
        }
        let click_x = self.click_x as usize;
        let click_y = self.click_y as usize;
        if width == 0 || height == 0 {
            return false;
        }
        let right = match x.checked_add(width) {
            Some(value) => value,
            None => return false,
        };
        let bottom = match y.checked_add(height) {
            Some(value) => value,
            None => return false,
        };
        let inside = click_x >= x && click_x < right && click_y >= y && click_y < bottom;
        if !inside {
            return false;
        }
        self.click_pending = false;
        true
    }

    /// The cursor position.
    pub fn mouse_position(&self) -> (r: (i32, i32))
        ensures
            r == (self.mouse_x, self.mouse_y),
    {
        (self.mouse_x, self.mouse_y)
    }

    /// The button bitmap.
    pub fn mouse_buttons(&self) -> (r: u8)
        ensures
            r == self.mouse_buttons,
    {
        self.mouse_buttons
    }

    /// Whether the left button is held.
    pub fn left_mouse_pressed(&self) -> (r: bool)
        ensures
            r == (self.mouse_buttons & MOUSE_BUTTON_LEFT != 0),
    {
        self.mouse_buttons & MOUSE_BUTTON_LEFT != 0
    }

    /// Whether the right button is held.
    pub fn right_mouse_pressed(&self) -> (r: bool)
        ensures
            r == (self.mouse_buttons & MOUSE_BUTTON_RIGHT != 0),
    {
        self.mouse_buttons & MOUSE_BUTTON_RIGHT != 0
    }

    /// Whether the middle button is held.
    pub fn middle_mouse_pressed(&self) -> (r: bool)
        ensures
            r == (self.mouse_buttons & MOUSE_BUTTON_MIDDLE != 0),
    {
        self.mouse_buttons & MOUSE_BUTTON_MIDDLE != 0
    }

    proof fn lemma_pushed(&self, before: Seq<Window>, id: u64)
        requires
            self.windows@ == before.push(self.windows@.last()),
            self.windows@.last().id == id,
            forall|i: int| 0 <= i < before.len() ==> #[trigger] before[i].id != id,
            ids_increasing(before),
            ids_increasing(self.windows@),
        ensures
            window_map(self.windows@) == window_map(before).insert(id, window_map(self.windows@)[id]),
    {
        let after = self.windows@;
        let n = before.len() as int;
        lemma_window_map_at(after, n);
        assert forall|k: u64| #[trigger] window_map(after).contains_key(k) <==> window_map(before).insert(
            id,
            window_map(after)[id],
        ).contains_key(k) by {
            if has_window(after, k) {
                let i = choose|i: int| 0 <= i < after.len() && #[trigger] after[i].id == k;
                if i != n {
                    assert(before[i].id == k);
                }
            }
            if has_window(before, k) {
                let i = choose|i: int| 0 <= i < before.len() && #[trigger] before[i].id == k;
                assert(after[i].id == k);
            }
        }
        assert forall|k: u64| #[trigger] window_map(after).contains_key(k) implies window_map(after)[k]
            == window_map(before).insert(id, window_map(after)[id])[k] by {
            if k != id {
                let i = choose|i: int| 0 <= i < after.len() && #[trigger] after[i].id == k;
                assert(i != n);
                assert(before[i] == after[i]);
                lemma_window_map_at(after, i);
                lemma_window_map_at(before, i);
            }
        }
        assert(window_map(after) =~= window_map(before).insert(id, window_map(after)[id]));
    }
}

/// Sets screen pixel (`x`, `y`) to `color` when it is on the screen.
fn set_pixel_clamped_impl(
    framebuffer: &mut Vec<u32>,
    screen_width: usize,
    screen_height: usize,
    x: i64,
    y: i64,
    color: u32,
)
    requires
        old(framebuffer)@.len() == screen_width * screen_height,
        screen_width <= MAX_SCREEN_DIMENSION,
        screen_height <= MAX_SCREEN_DIMENSION,
        screen_width * screen_height <= usize::MAX,
    ensures
        final(framebuffer)@ == if 0 <= x < screen_width && 0 <= y < screen_height {
            old(framebuffer)@.update(grid_index(screen_width as int, x as int, y as int), color)
        } else {
            old(framebuffer)@
        },
{
    if x >= 0 && x < screen_width as i64 && y >= 0 && y < screen_height as i64 {
        proof {
            lemma_grid_index(screen_width as int, screen_height as int, x as int, y as int);
        }
        let idx = (y as usize) * screen_width + x as usize;
        framebuffer.set(idx, color);
    }
}

/// Fills `buffer` with the desktop gradient of a `screen_width` by
/// `screen_height` screen.
fn fill_background(buffer: &mut Vec<u32>, screen_width: usize, screen_height: usize)
    requires
        old(buffer)@.len() == screen_width * screen_height,
        screen_width <= MAX_SCREEN_DIMENSION,
        screen_height <= MAX_SCREEN_DIMENSION,
        screen_width * screen_height <= usize::MAX,
    ensures
        final(buffer)@ == background(screen_width as int, screen_height as int),
{
    let ghost w = screen_width as int;
    let ghost h = screen_height as int;
    let divisor: u64 = if screen_height >= 1 { screen_height as u64 } else { 1 };
    let mut y: usize = 0;
    while y < screen_height
        invariant
            y <= screen_height,
            w == screen_width as int,
            h == screen_height as int,
            divisor == (if h >= 1 { h } else { 1 }),
            screen_width <= MAX_SCREEN_DIMENSION,
            screen_height <= MAX_SCREEN_DIMENSION,
            screen_width * screen_height <= usize::MAX,
            buffer@.len() == w * h,
            forall|k: int| 0 <= k < y * w ==> #[trigger] buffer@[k] == background_row_color(row_of(k, w), h),
        decreases screen_height - y,
    {
        let ratio: u64 = (y as u64 * 255) / divisor;
        proof {
            assert(ratio <= 255) by (nonlinear_arith)
                requires
                    ratio == (y * 255) / (divisor as int),
                    y < divisor,
                    divisor >= 1,
            ;
        }
        let r = (15 + ratio / 15) as u32;
        let g = (23 + ratio / 10) as u32;
        let b = (42 + ratio / 6) as u32;
        let bg_color: u32 = 0xFF00_0000u32 | (r << 16) | (g << 8) | b;
        proof {
            assert(bg_color == background_row_color(y as int, h));
            assert(y * w + w == (y + 1) * w) by (nonlinear_arith);
            assert(y * w + w <= w * h) by (nonlinear_arith)
                requires
                    y < h,
                    0 <= w,
            ;
        }
        let row_start = y * screen_width;
        let mut x: usize = 0;
        while x < screen_width
            invariant
                y < screen_height,
                x <= screen_width,
                w == screen_width as int,
                h == screen_height as int,
                row_start == y * w,
                y * w + w <= w * h,
                bg_color == background_row_color(y as int, h),
                screen_width * screen_height <= usize::MAX,
                buffer@.len() == w * h,
                forall|k: int| 0 <= k < y * w + x ==> #[trigger] buffer@[k] == background_row_color(row_of(k, w), h),
            decreases screen_width - x,
        {
            proof {
                lemma_grid_coordinates(w, x as int, y as int);
            }
            buffer.set(row_start + x, bg_color);
            x = x + 1;
        }
        proof {
            assert((y + 1) * w == y * w + w) by (nonlinear_arith);
        }
        y = y + 1;
    }
    proof {
        assert(y * w == w * h) by (nonlinear_arith)
            requires
                y == h,
        ;
        assert(buffer@ =~= background(w, h));
    }
}

/// Copies back the box around a cursor drawn at (`cursor_x`, `cursor_y`)
/// from `clean` into `picture`.
fn restore_box(
    picture: &mut Vec<u32>,
    clean: &Vec<u32>,
    screen_width: usize,
    screen_height: usize,
    cursor_x: i32,
    cursor_y: i32,
)
    requires
        old(picture)@.len() == screen_width * screen_height,
        clean@.len() == screen_width * screen_height,
        screen_width <= MAX_SCREEN_DIMENSION,
        screen_height <= MAX_SCREEN_DIMENSION,
        screen_width * screen_height <= usize::MAX,
    ensures
        final(picture)@ == restored(
            old(picture)@,
            clean@,
            screen_width as int,
            cursor_x as int,
            cursor_y as int,
        ),
{
    let ghost base = picture@;
    let ghost w = screen_width as int;
    let ghost h = screen_height as int;
    let ghost cx = cursor_x as int;
    let ghost cy = cursor_y as int;
    let left = cursor_x as i64 - CURSOR_RESTORE_PADDING;
    let top = cursor_y as i64 - CURSOR_RESTORE_PADDING;
    let right = cursor_x as i64 + CURSOR_WIDTH as i64 + CURSOR_RESTORE_PADDING;
    let bottom = cursor_y as i64 + CURSOR_HEIGHT as i64 + CURSOR_RESTORE_PADDING;
    let sw = screen_width as i64;
    let sh = screen_height as i64;
    let start_x = if left > 0 { left } else { 0 };
    let start_y = if top > 0 { top } else { 0 };
    let end_x = if right < sw - 1 { right } else { sw - 1 };
    let end_y = if bottom < sh - 1 { bottom } else { sh - 1 };
    if start_x > end_x || start_y > end_y {
        proof {
            assert forall|i: int| 0 <= i < base.len() implies !in_restore_box(cx, cy, #[trigger] column_of(i, w), row_of(i, w)) by {
                lemma_grid_index_split(w, h, i);
            }
            assert(restored(base, clean@, w, cx, cy) =~= base);
        }
        return;
    }
    let mut y = start_y;
    while y <= end_y
        invariant
            start_y <= y <= end_y + 1,
            0 <= start_x <= end_x < sw,
            0 <= start_y <= end_y < sh,
            w == sw,
            h == sh,
            w == screen_width as int,
            h == screen_height as int,
            0 < screen_width <= MAX_SCREEN_DIMENSION,
            0 < screen_height <= MAX_SCREEN_DIMENSION,
            screen_width * screen_height <= usize::MAX,
            base.len() == w * h,
            clean@.len() == w * h,
            picture@ == copied(
                base,
                clean@,
                w,
                |a: int, b: int| start_x <= a <= end_x && start_y <= b < y,
            ),
        decreases end_y + 1 - y,
    {
        let mut x = start_x;
        while x <= end_x
            invariant
                start_y <= y <= end_y,
                start_x <= x <= end_x + 1,
                0 <= start_x <= end_x < sw,
                0 <= start_y <= end_y < sh,
                w == sw,
                h == sh,
                w == screen_width as int,
                h == screen_height as int,
                0 < screen_width <= MAX_SCREEN_DIMENSION,
                0 < screen_height <= MAX_SCREEN_DIMENSION,
                screen_width * screen_height <= usize::MAX,
                base.len() == w * h,
                clean@.len() == w * h,
                picture@ == copied(
                    base,
                    clean@,
                    w,
                    |a: int, b: int| (start_x <= a <= end_x && start_y <= b < y) || (b == y && start_x <= a < x),
                ),
            decreases end_x + 1 - x,
        {
            proof {
                lemma_grid_index(w, h, x as int, y as int);
            }
            let index = (y as usize) * screen_width + x as usize;
            let value = clean[index];
            proof {
                lemma_copy_pixel(
                    base,
                    clean@,
                    w,
                    h,
                    |a: int, b: int| (start_x <= a <= end_x && start_y <= b < y) || (b == y && start_x <= a < x),
                    |a: int, b: int| (start_x <= a <= end_x && start_y <= b < y) || (b == y && start_x <= a < x + 1),
                    x as int,
                    y as int,
                );
            }
            picture.set(index, value);
            x = x + 1;
        }
        proof {
            assert(copied(
                base,
                clean@,
                w,
                |a: int, b: int| (start_x <= a <= end_x && start_y <= b < y) || (b == y && start_x <= a < x),
            ) =~= copied(base, clean@, w, |a: int, b: int| start_x <= a <= end_x && start_y <= b < y + 1));
        }
        y = y + 1;
    }
    proof {
        assert forall|i: int| 0 <= i < base.len() implies #[trigger] picture@[i] == restored(base, clean@, w, cx, cy)[i] by {
            lemma_grid_index_split(w, h, i);
        }
        assert(picture@ =~= restored(base, clean@, w, cx, cy));
    }
}

/// The position in `indices` of the first window with the lowest z-index.
fn lowest_position_exec(windows: &Vec<Window>, indices: &Vec<usize>) -> (r: usize)
    requires
        indices@.len() > 0,
        forall|k: int| 0 <= k < indices@.len() ==> #[trigger] indices@[k] < windows@.len(),
    ensures
        r == lowest_position(windows@, indices@),
        r < indices@.len(),
{
    let mut best: usize = 0;
    let mut k: usize = 1;
    proof {
        assert(indices@.take(1).len() == 1);
    }
    while k < indices.len()
        invariant
            1 <= k <= indices@.len(),
            best < k,
            best == lowest_position(windows@, indices@.take(k as int)),
            forall|j: int| 0 <= j < indices@.len() ==> #[trigger] indices@[j] < windows@.len(),
        decreases indices@.len() - k,
    {
        proof {
            assert(indices@.take(k + 1).drop_last() =~= indices@.take(k as int));
        }
        if windows[indices[k]].z_index < windows[indices[best]].z_index {
            best = k;
        }
        k = k + 1;
    }
    proof {
        assert(indices@.take(k as int) =~= indices@);
    }
    best
}

/// The window positions in drawing order: by z-index, and by table order
/// among equal z-indices.
fn draw_order_exec(windows: &Vec<Window>) -> (r: Vec<usize>)
    ensures
        r@ == draw_order(windows@),
        forall|k: int| 0 <= k < r@.len() ==> #[trigger] r@[k] < windows@.len(),
{
    let n = windows.len();
    let mut remaining: Vec<usize> = Vec::new();
    let mut i: usize = 0;
    while i < n
        invariant
            i <= n,
            n == windows@.len(),
            remaining@ == all_indices(i as nat),
        decreases n - i,
    {
        remaining.push(i);
        proof {
            assert(remaining@ =~= all_indices((i + 1) as nat));
        }
        i = i + 1;
    }
    let mut order: Vec<usize> = Vec::new();
    proof {
        assert(order@.add(order_from(windows@, remaining@)) =~= draw_order(windows@));
    }
    while remaining.len() > 0
        invariant
            n == windows@.len(),
            order@.add(order_from(windows@, remaining@)) == draw_order(windows@),
            forall|k: int| 0 <= k < remaining@.len() ==> #[trigger] remaining@[k] < n,
            forall|k: int| 0 <= k < order@.len() ==> #[trigger] order@[k] < n,
        decreases remaining@.len(),
    {
        let ghost before = remaining@;
        let ghost done = order@;
        let p = lowest_position_exec(windows, &remaining);
        let chosen = remaining.remove(p);
        order.push(chosen);
        proof {
            assert(order_from(windows@, before) == seq![chosen].add(order_from(windows@, remaining@)));
            assert(order@.add(order_from(windows@, remaining@)) =~= done.add(order_from(windows@, before)));
        }
    }
    proof {
        assert(order_from(windows@, remaining@) =~= Seq::<usize>::empty());
        assert(order@.add(order_from(windows@, remaining@)) =~= order@);
    }
    order
}

/// The ARGB pixel `source` drawn over `destination`.
fn over_exec(destination: u32, source: u32) -> (r: u32)
    ensures
        r == over(destination, source),
{
    let alpha = channel_exec(source, 24);
    if alpha == 255 {
        source
    } else if alpha > 0 {
        let r = mix_exec(channel_exec(source, 16), channel_exec(destination, 16), alpha);
        let g = mix_exec(channel_exec(source, 8), channel_exec(destination, 8), alpha);
        let b = mix_exec(channel_exec(source, 0), channel_exec(destination, 0), alpha);
        0xFF00_0000u32 | (r << 16) | (g << 8) | b
    } else {
        destination
    }
}

/// Draws window `win`'s content over the screen picture `buffer`, clipped
/// to the screen.
fn composite_window(buffer: &mut Vec<u32>, screen_width: usize, screen_height: usize, win: &Window)
    requires
        old(buffer)@.len() == screen_width * screen_height,
        screen_width <= MAX_SCREEN_DIMENSION,
        screen_height <= MAX_SCREEN_DIMENSION,
        screen_width * screen_height <= usize::MAX,
        win.wf(),
    ensures
        final(buffer)@ == content_layer(old(buffer)@, screen_width as int, *win),
{
    let ghost base = buffer@;
    let ghost w = screen_width as int;
    let ghost h = screen_height as int;
    let start_x: i64 = if win.x < 0 { 0 } else { win.x as i64 };
    let start_y: i64 = if win.y < 0 { 0 } else { win.y as i64 };
    let end_x_raw: i64 = win.x as i64 + win.width as i64;
    let end_y_raw: i64 = win.y as i64 + win.height as i64;
    let end_x_clip: i64 = if (screen_width as i64) < end_x_raw { screen_width as i64 } else { end_x_raw };
    let end_y_clip: i64 = if (screen_height as i64) < end_y_raw { screen_height as i64 } else { end_y_raw };
    let end_x: i64 = if end_x_clip < 0 { 0 } else { end_x_clip };
    let end_y: i64 = if end_y_clip < 0 { 0 } else { end_y_clip };
    if start_x >= end_x || start_y >= end_y {
        proof {
            assert forall|i: int| 0 <= i < base.len() implies #[trigger] content_layer(base, w, *win)[i] == base[i] by {
                lemma_grid_index_split(w, h, i);
            }
            assert(content_layer(base, w, *win) =~= base);
        }
        return;
    }
    proof {
        assert(base =~= content_drawn(base, w, *win, |a: int, b: int| false));
    }
    let mut py = start_y;
    while py < end_y
        invariant
            start_y <= py <= end_y,
            0 <= start_x < end_x <= w,
            0 <= start_y < end_y <= h,
            start_x == (if win.x < 0 { 0 } else { win.x as int }),
            start_y == (if win.y < 0 { 0 } else { win.y as int }),
            end_x == (if w < win.x + win.width { w } else { win.x + win.width }),
            end_y == (if h < win.y + win.height { h } else { win.y + win.height }),
            w == screen_width as int,
            h == screen_height as int,
            0 < screen_width <= MAX_SCREEN_DIMENSION,
            0 < screen_height <= MAX_SCREEN_DIMENSION,
            screen_width * screen_height <= usize::MAX,
            win.wf(),
            base.len() == w * h,
            buffer@ == content_drawn(base, w, *win, |a: int, b: int| start_x <= a < end_x && start_y <= b < py),
        decreases end_y - py,
    {
        let mut px = start_x;
        while px < end_x
            invariant
                start_y <= py < end_y,
                start_x <= px <= end_x,
                0 <= start_x < end_x <= w,
                0 <= start_y < end_y <= h,
                start_x == (if win.x < 0 { 0 } else { win.x as int }),
                start_y == (if win.y < 0 { 0 } else { win.y as int }),
                end_x == (if w < win.x + win.width { w } else { win.x + win.width }),
                end_y == (if h < win.y + win.height { h } else { win.y + win.height }),
                w == screen_width as int,
                h == screen_height as int,
                0 < screen_width <= MAX_SCREEN_DIMENSION,
                0 < screen_height <= MAX_SCREEN_DIMENSION,
                screen_width * screen_height <= usize::MAX,
                win.wf(),
                base.len() == w * h,
                buffer@ == content_drawn(
                    base,
                    w,
                    *win,
                    |a: int, b: int| (start_x <= a < end_x && start_y <= b < py) || (b == py && start_x <= a < px),
                ),
            decreases end_x - px,
        {
            let win_x = (px - win.x as i64) as usize;
            let win_y = (py - win.y as i64) as usize;
            proof {
                lemma_grid_index(win.width as int, win.height as int, win_x as int, win_y as int);
                lemma_grid_index(w, h, px as int, py as int);
                crate::wm::window::lemma_window_size(win.width as int, win.height as int);
            }
            let win_idx = win_y * win.width + win_x;
            let screen_idx = (py as usize) * screen_width + px as usize;
            let pixel = win.pixels[win_idx];
            proof {
                lemma_content_pixel(
                    base,
                    w,
                    h,
                    *win,
                    |a: int, b: int| (start_x <= a < end_x && start_y <= b < py) || (b == py && start_x <= a < px),
                    |a: int, b: int| (start_x <= a < end_x && start_y <= b < py) || (b == py && start_x <= a < px + 1),
                    px as int,
                    py as int,
                );
            }
            let destination = buffer[screen_idx];
            buffer.set(screen_idx, over_exec(destination, pixel));
            px = px + 1;
        }
        proof {
            assert(content_drawn(
                base,
                w,
                *win,
                |a: int, b: int| (start_x <= a < end_x && start_y <= b < py) || (b == py && start_x <= a < end_x),
            ) =~= content_drawn(base, w, *win, |a: int, b: int| start_x <= a < end_x && start_y <= b < py + 1));
        }
        py = py + 1;
    }
    proof {
        assert forall|i: int| 0 <= i < base.len() implies #[trigger] buffer@[i] == content_layer(base, w, *win)[i] by {
            lemma_grid_index_split(w, h, i);
        }
        assert(buffer@ =~= content_layer(base, w, *win));
    }
}

/// Draws the one-pixel frame of window `win`, clipped to the screen.
fn draw_window_border_impl(buffer: &mut Vec<u32>, screen_width: usize, screen_height: usize, win: &Window)
    requires
        old(buffer)@.len() == screen_width * screen_height,
        screen_width <= MAX_SCREEN_DIMENSION,
        screen_height <= MAX_SCREEN_DIMENSION,
        screen_width * screen_height <= usize::MAX,
        win.wf(),
    ensures
        final(buffer)@ == frame_layer(old(buffer)@, screen_width as int, *win),
{
    let ghost base = buffer@;
    let ghost w = screen_width as int;
    let ghost h = screen_height as int;
    if screen_width == 0 || screen_height == 0 {
        proof {
            assert(base.len() == 0) by (nonlinear_arith)
                requires
                    base.len() == w * h,
                    w == 0 || h == 0,
            ;
            assert(frame_layer(base, w, *win) =~= base);
        }
        return;
    }
    let border_color = WINDOW_BORDER_COLOR;
    let start_x: i64 = win.x as i64;
    let start_y: i64 = win.y as i64;
    let end_x: i64 = win.x as i64 + win.width as i64 - 1;
    let end_y: i64 = win.y as i64 + win.height as i64 - 1;
    if end_x < start_x || end_y < start_y {
        return;
    }
    proof {
        assert(base =~= painted(base, w, border_color, |a: int, b: int| false));
    }
    let mut x = start_x;
    while x <= end_x
        invariant
            start_x <= x <= end_x + 1,
            start_x == win.x,
            start_y == win.y,
            end_x == win.x + win.width - 1,
            end_y == win.y + win.height - 1,
            win.wf(),
            border_color == WINDOW_BORDER_COLOR,
            w == screen_width as int,
            h == screen_height as int,
            0 < screen_width <= MAX_SCREEN_DIMENSION,
            0 < screen_height <= MAX_SCREEN_DIMENSION,
            screen_width * screen_height <= usize::MAX,
            base.len() == w * h,
            buffer@ == painted(base, w, border_color, |a: int, b: int| (b == start_y || b == end_y) && start_x <= a < x),
        decreases end_x + 1 - x,
    {
        proof {
            lemma_paint_pixel(
                base,
                w,
                h,
                border_color,
                |a: int, b: int| (b == start_y || b == end_y) && start_x <= a < x,
                |a: int, b: int| ((b == start_y || b == end_y) && start_x <= a < x) || (a == x && b == start_y),
                x as int,
                start_y as int,
            );
            lemma_paint_pixel(
                base,
                w,
                h,
                border_color,
                |a: int, b: int| ((b == start_y || b == end_y) && start_x <= a < x) || (a == x && b == start_y),
                |a: int, b: int|
                    ((b == start_y || b == end_y) && start_x <= a < x) || (a == x && b == start_y) || (a == x && b
                        == end_y),
                x as int,
                end_y as int,
            );
        }
        set_pixel_clamped_impl(buffer, screen_width, screen_height, x, start_y, border_color);
        set_pixel_clamped_impl(buffer, screen_width, screen_height, x, end_y, border_color);
        proof {
            assert(painted(
                base,
                w,
                border_color,
                |a: int, b: int|
                    ((b == start_y || b == end_y) && start_x <= a < x) || (a == x && b == start_y) || (a == x && b
                        == end_y),
            ) =~= painted(base, w, border_color, |a: int, b: int| (b == start_y || b == end_y) && start_x <= a < x + 1));
        }
        x = x + 1;
    }
    let mut y = start_y;
    while y <= end_y
        invariant
            start_y <= y <= end_y + 1,
            start_x == win.x,
            start_y == win.y,
            end_x == win.x + win.width - 1,
            end_y == win.y + win.height - 1,
            win.wf(),
            border_color == WINDOW_BORDER_COLOR,
            w == screen_width as int,
            h == screen_height as int,
            0 < screen_width <= MAX_SCREEN_DIMENSION,
            0 < screen_height <= MAX_SCREEN_DIMENSION,
            screen_width * screen_height <= usize::MAX,
            base.len() == w * h,
            buffer@ == painted(
                base,
                w,
                border_color,
                |a: int, b: int|
                    ((b == start_y || b == end_y) && start_x <= a <= end_x) || ((a == start_x || a == end_x)
                        && start_y <= b < y),
            ),
        decreases end_y + 1 - y,
    {
        proof {
            lemma_paint_pixel(
                base,
                w,
                h,
                border_color,
                |a: int, b: int|
                    ((b == start_y || b == end_y) && start_x <= a <= end_x) || ((a == start_x || a == end_x)
                        && start_y <= b < y),
                |a: int, b: int|
                    ((b == start_y || b == end_y) && start_x <= a <= end_x) || ((a == start_x || a == end_x)
                        && start_y <= b < y) || (a == start_x && b == y),
                start_x as int,
                y as int,
            );
            lemma_paint_pixel(
                base,
                w,
                h,
                border_color,
                |a: int, b: int|
                    ((b == start_y || b == end_y) && start_x <= a <= end_x) || ((a == start_x || a == end_x)
                        && start_y <= b < y) || (a == start_x && b == y),
                |a: int, b: int|
                    ((b == start_y || b == end_y) && start_x <= a <= end_x) || ((a == start_x || a == end_x)
                        && start_y <= b < y) || (a == start_x && b == y) || (a == end_x && b == y),
                end_x as int,
                y as int,
            );
        }
        set_pixel_clamped_impl(buffer, screen_width, screen_height, start_x, y, border_color);
        set_pixel_clamped_impl(buffer, screen_width, screen_height, end_x, y, border_color);
        proof {
            assert(painted(
                base,
                w,
                border_color,
                |a: int, b: int|
                    ((b == start_y || b == end_y) && start_x <= a <= end_x) || ((a == start_x || a == end_x)
                        && start_y <= b < y) || (a == start_x && b == y) || (a == end_x && b == y),
            ) =~= painted(
                base,
                w,
                border_color,
                |a: int, b: int|
                    ((b == start_y || b == end_y) && start_x <= a <= end_x) || ((a == start_x || a == end_x)
                        && start_y <= b < y + 1),
            ));
        }
        y = y + 1;
    }
    proof {
        assert(painted(
            base,
            w,
            border_color,
            |a: int, b: int|
                ((b == start_y || b == end_y) && start_x <= a <= end_x) || ((a == start_x || a == end_x) && start_y
                    <= b < end_y + 1),
        ) =~= frame_layer(base, w, *win));
    }
}

/// The number of pixels of row `row` of the arrow cursor.
fn cursor_row_width_exec(row: usize) -> (r: usize)
    ensures
        r == cursor_row_width(row as int),
{
    if row < 11 {
        row + 1
    } else if row == 11 {
        9
    } else if row == 12 {
        7
    } else if row == 13 {
        5
    } else if row == 14 {
        3
    } else if row == 15 {
        2
    } else {
        0
    }
}

/// Draws the arrow cursor with its tip at (`x`, `y`); the parts off the
/// screen are skipped.
fn draw_cursor_impl(framebuffer: &mut Vec<u32>, screen_width: usize, screen_height: usize, x: i32, y: i32)
    requires
        old(framebuffer)@.len() == screen_width * screen_height,
        screen_width <= MAX_SCREEN_DIMENSION,
        screen_height <= MAX_SCREEN_DIMENSION,
        screen_width * screen_height <= usize::MAX,
    ensures
        final(framebuffer)@ == with_cursor(old(framebuffer)@, screen_width as int, x as int, y as int),
{
    let ghost base = framebuffer@;
    let ghost w = screen_width as int;
    if screen_width == 0 || screen_height == 0 {
        proof {
            assert(base.len() == 0) by (nonlinear_arith)
                requires
                    base.len() == w * screen_height,
                    w == 0 || screen_height == 0,
            ;
            assert(with_cursor(base, w, x as int, y as int) =~= base);
        }
        return;
    }
    let ghost cx = x as int;
    let ghost cy = y as int;
    let x = x as i64;
    let y = y as i64;
    proof {
        assert(base =~= painted(base, w, CURSOR_COLOR, |a: int, b: int| false));
    }
    let mut row: usize = 0;
    while row < 16
        invariant
            row <= 16,
            w == screen_width as int,
            0 < screen_width <= MAX_SCREEN_DIMENSION,
            0 < screen_height <= MAX_SCREEN_DIMENSION,
            base.len() == screen_width * screen_height,
            screen_width * screen_height <= usize::MAX,
            i32::MIN <= cx <= i32::MAX,
            i32::MIN <= cy <= i32::MAX,
            x == cx,
            y == cy,
            framebuffer@ == painted(
                base,
                w,
                CURSOR_COLOR,
                |a: int, b: int| 0 <= b - cy < row && 0 <= a - cx < cursor_row_width(b - cy),
            ),
        decreases 16 - row,
    {
        let width = cursor_row_width_exec(row);
        let row_y = y + row as i64;
        let mut col: usize = 0;
        while col < width
            invariant
                row < 16,
                col <= width,
                width == cursor_row_width(row as int),
                row_y == cy + row,
                w == screen_width as int,
                0 < screen_width <= MAX_SCREEN_DIMENSION,
                0 < screen_height <= MAX_SCREEN_DIMENSION,
                base.len() == screen_width * screen_height,
                screen_width * screen_height <= usize::MAX,
                i32::MIN <= cx <= i32::MAX,
                i32::MIN <= cy <= i32::MAX,
                width <= 11,
                x == cx,
                y == cy,
                framebuffer@ == painted(
                    base,
                    w,
                    CURSOR_COLOR,
                    |a: int, b: int|
                        (0 <= b - cy < row && 0 <= a - cx < cursor_row_width(b - cy)) || (b - cy == row && 0
                            <= a - cx < col),
                ),
            decreases width - col,
        {
            let px = x + col as i64;
            proof {
                lemma_paint_pixel(
                    base,
                    w,
                    screen_height as int,
                    CURSOR_COLOR,
                    |a: int, b: int|
                        (0 <= b - cy < row && 0 <= a - cx < cursor_row_width(b - cy)) || (b - cy == row && 0
                            <= a - cx < col),
                    |a: int, b: int|
                        (0 <= b - cy < row && 0 <= a - cx < cursor_row_width(b - cy)) || (b - cy == row && 0
                            <= a - cx < col + 1),
                    px as int,
                    row_y as int,
                );
            }
            set_pixel_clamped_impl(framebuffer, screen_width, screen_height, px, row_y, CURSOR_COLOR);
            col = col + 1;
        }
        proof {
            assert(painted(
                base,
                w,
                CURSOR_COLOR,
                |a: int, b: int|
                    (0 <= b - cy < row && 0 <= a - cx < cursor_row_width(b - cy)) || (b - cy == row && 0 <= a
                        - cx < width),
            ) =~= painted(
                base,
                w,
                CURSOR_COLOR,
                |a: int, b: int| 0 <= b - cy < row + 1 && 0 <= a - cx < cursor_row_width(b - cy),
            ));
        }
        row = row + 1;
    }
    proof {
        assert(painted(
            base,
            w,
            CURSOR_COLOR,
            |a: int, b: int| 0 <= b - cy < 16 && 0 <= a - cx < cursor_row_width(b - cy),
        ) =~= with_cursor(base, w, cx, cy));
    }
}

/// `a + b`, held at the bounds of `i32`.
pub(crate) fn add_saturating_i32(a: i32, b: i32) -> (r: i32)
    ensures
        r == saturating_add_i32(a, b),
{
    let wide = a as i64 + b as i64;
    if wide > i32::MAX as i64 {
        i32::MAX
    } else if wide < i32::MIN as i64 {
        i32::MIN
    } else {
        wide as i32
    }
}

/// `v` held between zero and `high`.
fn clamp_coordinate(v: i32, high: i32) -> (r: i32)
    requires
        0 <= high,
    ensures
        r == clamp_i32(v, 0, high),
{
    if v < 0 {
        0
    } else if v > high {
        high
    } else {
        v
    }
}

/// A copy of a pixel buffer.
fn copy_of(source: &Vec<u32>) -> (r: Vec<u32>)
    ensures
        r@ == source@,
{
    let mut v: Vec<u32> = Vec::with_capacity(source.len());
    let mut i: usize = 0;
    while i < source.len()
        invariant
            i <= source@.len(),
            v@ == source@.take(i as int),
        decreases source@.len() - i,
    {
        v.push(source[i]);
        proof {
            assert(v@ =~= source@.take(i + 1));
        }
        i = i + 1;
    }
    proof {
        assert(source@.take(i as int) =~= source@);
    }
    v
}

/// A buffer of `n` copies of `value`.
fn filled(n: usize, value: u32) -> (r: Vec<u32>)
    ensures
        r@ == Seq::new(n as nat, |i: int| value),
{
    let mut v: Vec<u32> = Vec::with_capacity(n);
    let mut i: usize = 0;
    while i < n
        invariant
            0 <= i <= n,
            v@ == Seq::new(i as nat, |k: int| value),
        decreases n - i,
    {
        v.push(value);
        proof {
            assert(v@ =~= Seq::new((i + 1) as nat, |k: int| value));
        }
        i = i + 1;
    }
    v
}

} // verus!
