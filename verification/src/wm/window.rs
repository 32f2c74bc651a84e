//! A window: a position, a z-order and its own ARGB pixel buffer.

use vstd::prelude::*;

use crate::graphics::Color;
use crate::graphics::draw::GlyphRaster;
use crate::input::saturating_add_i32;
use crate::wm::compositor::add_saturating_i32;
use vstd::string::StringSliceAdditionalSpecFns;

verus! {

/// Largest window width.
pub const MAX_WINDOW_WIDTH: usize = 4096;

/// Largest window height.
pub const MAX_WINDOW_HEIGHT: usize = 4096;

/// Largest number of pixels of one window.
pub const MAX_WINDOW_PIXELS: usize = 16777216;

/// The colour a new window is filled with.
pub const WINDOW_BACKGROUND: u32 = 0xFF18_1825;

// ============================================================
// Row-major pixel grids
// ============================================================

/// The index of pixel (`x`, `y`) in a row-major grid `width` pixels wide.
pub open spec fn grid_index(width: int, x: int, y: int) -> int {
    y * width + x
}

/// Every pixel of a `width` by `height` grid has an index inside it.
pub proof fn lemma_grid_index(width: int, height: int, x: int, y: int)
    by (nonlinear_arith)
    requires
        0 <= x < width,
        0 <= y < height,
    ensures
        0 <= grid_index(width, x, y) < width * height,
        y * width <= grid_index(width, x, y),
{
}

/// A window within the size limits has at most `MAX_WINDOW_PIXELS`
/// pixels.
pub proof fn lemma_window_size(width: int, height: int)
    by (nonlinear_arith)
    requires
        0 <= width <= MAX_WINDOW_WIDTH,
        0 <= height <= MAX_WINDOW_HEIGHT,
    ensures
        width * height <= MAX_WINDOW_PIXELS,
{
}

/// Two pixels of a grid with the same index are the same pixel.
pub proof fn lemma_grid_index_injective(width: int, x1: int, y1: int, x2: int, y2: int)
    requires
        0 <= x1 < width,
        0 <= x2 < width,
        0 <= y1,
        0 <= y2,
        grid_index(width, x1, y1) == grid_index(width, x2, y2),
    ensures
        x1 == x2,
        y1 == y2,
{
    if y1 < y2 {
        assert(y1 * width + width <= y2 * width) by (nonlinear_arith)
            requires
                y1 < y2,
                width > 0,
        ;
    } else if y2 < y1 {
        assert(y2 * width + width <= y1 * width) by (nonlinear_arith)
            requires
                y2 < y1,
                width > 0,
        ;
    }
}

/// The pixel at (`x`, `y`) of a row-major grid `width` pixels wide.
pub open spec fn pixel_at(pixels: Seq<u32>, width: int, x: int, y: int) -> u32 {
    pixels[grid_index(width, x, y)]
}

// ============================================================
// Pixel blending
// ============================================================

/// One 8-bit channel of `value` at bit `shift`.
pub open spec fn channel(value: u32, shift: u32) -> u32 {
    (value >> shift) & 0xFF
}

/// `source` over `background` at opacity `alpha` out of 255, per channel.
pub open spec fn mix(source: u32, background: u32, alpha: u32) -> u32 {
    ((source * alpha + background * (255 - alpha)) / 255) as u32
}

/// An opaque ARGB pixel from its three colour channels.
pub open spec fn argb(r: u32, g: u32, b: u32) -> u32 {
    0xFF00_0000u32 | (r << 16u32) | (g << 8u32) | b
}

/// A colour as an opaque ARGB pixel.
pub open spec fn color_argb(color: Color) -> u32 {
    argb(color.r as u32, color.g as u32, color.b as u32)
}

/// The pixel that results from drawing `color` at opacity `alpha` over
/// `background`.
pub open spec fn blended(background: u32, color: Color, alpha: u8) -> u32 {
    if alpha == 0 {
        background
    } else if alpha == 255 {
        color_argb(color)
    } else {
        argb(
            mix(color.r as u32, channel(background, 16), alpha as u32),
            mix(color.g as u32, channel(background, 8), alpha as u32),
            mix(color.b as u32, channel(background, 0), alpha as u32),
        )
    }
}

pub(crate) fn channel_exec(value: u32, shift: u32) -> (r: u32)
    requires
        shift < 32,
    ensures
        r == channel(value, shift),
        r <= 255,
{
    proof {
        assert((value >> shift) & 0xFFu32 <= 255) by (bit_vector);
    }
    (value >> shift) & 0xFF
}

pub(crate) fn mix_exec(source: u32, background: u32, alpha: u32) -> (r: u32)
    requires
        source <= 255,
        background <= 255,
        alpha <= 255,
    ensures
        r == mix(source, background, alpha),
        r <= 255,
{
    proof {
        assert(source * alpha + background * (255 - alpha) <= 255 * 255 && (source * alpha + background * (255
            - alpha)) / 255 <= 255) by (nonlinear_arith)
            requires
                source <= 255,
                background <= 255,
                alpha <= 255,
        ;
    }
    (source * alpha + background * (255 - alpha)) / 255
}

/// Draws `color` at opacity `alpha` over the ARGB pixel `background`.
fn blend_pixel(background: u32, color: Color, alpha: u8) -> (r: u32)
    ensures
        r == blended(background, color, alpha),
{
    if alpha == 0 {
        return background;
    }
    if alpha == 255 {
        return color_to_argb(color);
    }
    let a = alpha as u32;
    let r = mix_exec(color.r as u32, channel_exec(background, 16), a);
    let g = mix_exec(color.g as u32, channel_exec(background, 8), a);
    let b = mix_exec(color.b as u32, channel_exec(background, 0), a);
    0xFF00_0000u32 | (r << 16) | (g << 8) | b
}

/// A colour as an opaque ARGB pixel.
fn color_to_argb(color: Color) -> (r: u32)
    ensures
        r == color_argb(color),
{
    0xFF00_0000u32 | ((color.r as u32) << 16) | ((color.g as u32) << 8) | (color.b as u32)
}

/// The bytes of `bytes` as a string, when they are valid UTF-8.
///
/// Calls `core::str::from_utf8`, which returns a string exactly when the
/// bytes are valid UTF-8, and then one that holds exactly those bytes.
#[verifier::external_body]
pub(crate) fn utf8_str(bytes: &[u8]) -> (r: Option<&str>)
    ensures
        r is Some <==> vstd::utf8::valid_utf8(bytes@),
        r matches Some(s) ==> s.spec_bytes() == bytes@,
{
    core::str::from_utf8(bytes).ok()
}

// ============================================================
// Window
// ============================================================

/// A window with its own row-major ARGB pixel buffer.
pub struct Window {
    pub id: u64,
    pub x: i32,
    pub y: i32,
    pub width: usize,
    pub height: usize,
    pub pixels: Vec<u32>,
    pub z_index: usize,
    pub title: Vec<u8>,
}

impl Window {
    /// A window's size is within the limits and its buffer holds one pixel
    /// per position.
    pub open spec fn wf(&self) -> bool {
        &&& 0 < self.width <= MAX_WINDOW_WIDTH
        &&& 0 < self.height <= MAX_WINDOW_HEIGHT
        &&& self.pixels@.len() == self.width * self.height
    }

    /// The same window but for its pixels.
    pub open spec fn same_frame(&self, other: Window) -> bool {
        &&& self.id == other.id
        &&& self.x == other.x
        &&& self.y == other.y
        &&& self.width == other.width
        &&& self.height == other.height
        &&& self.z_index == other.z_index
        &&& self.title == other.title
    }

    /// `self` is `before` with the part of the rectangle at (`rx`, `ry`) of
    /// `rw` by `rh` pixels inside the window set to `color`.
    pub open spec fn rect_filled_from(&self, before: Window, rx: int, ry: int, rw: int, rh: int, color: u32) -> bool {
        &&& self.wf()
        &&& self.same_frame(before)
        &&& self.pixels@.len() == before.pixels@.len()
        &&& forall|x: int, y: int|
            before.contains(x, y) ==> #[trigger] pixel_at(self.pixels@, before.width as int, x, y) == if rx <= x < rx
                + rw && ry <= y < ry + rh {
                color
            } else {
                pixel_at(before.pixels@, before.width as int, x, y)
            }
    }

    /// `self` is `before` with the part of the one-pixel outline of the
    /// rectangle at (`rx`, `ry`) of `rw` by `rh` pixels inside the window
    /// set to `color`.
    pub open spec fn outline_drawn_from(&self, before: Window, rx: int, ry: int, rw: int, rh: int, color: u32) -> bool {
        &&& self.wf()
        &&& self.same_frame(before)
        &&& self.pixels@.len() == before.pixels@.len()
        &&& forall|x: int, y: int|
            before.contains(x, y) ==> #[trigger] pixel_at(self.pixels@, before.width as int, x, y) == if on_outline(
                x,
                y,
                rx,
                ry,
                rw,
                rh,
            ) {
                color
            } else {
                pixel_at(before.pixels@, before.width as int, x, y)
            }
    }

    /// `self` is `before` with a string drawn as `draw_string` draws it.
    pub open spec fn string_drawn_from(
        &self,
        before: Window,
        x: usize,
        y: usize,
        glyphs: Seq<TextGlyph>,
        ascent: i32,
        line_height: i32,
        color: Color,
        scale: usize,
    ) -> bool {
        &&& self.wf()
        &&& self.same_frame(before)
        &&& self.pixels@.len() == before.pixels@.len()
        &&& forall|px: int, py: int|
            before.contains(px, py) ==> #[trigger] pixel_at(self.pixels@, before.width as int, px, py) == if scale
                == 0 {
                pixel_at(before.pixels@, before.width as int, px, py)
            } else {
                let placed = text_layout(
                    glyphs,
                    x as i32,
                    y as i32,
                    ascent,
                    line_height,
                    before.width as int,
                    before.height as int,
                );
                text_pixel(
                    pixel_at(before.pixels@, before.width as int, px, py),
                    px,
                    py,
                    glyphs,
                    placed,
                    placed.len() as int,
                    color,
                )
            }
    }

    /// Whether the window-relative pixel (`x`, `y`) is inside the window.
    pub open spec fn contains(&self, x: int, y: int) -> bool {
        0 <= x < self.width && 0 <= y < self.height
    }

    /// A window of the given size filled with the background colour.  The
    /// size must be non-zero and at most 4096 by 4096.
    pub fn new(id: u64, x: i32, y: i32, width: usize, height: usize, z_index: usize) -> (r: Self)
        requires
            0 < width <= MAX_WINDOW_WIDTH,
            0 < height <= MAX_WINDOW_HEIGHT,
        ensures
            r.wf(),
            r.id == id,
            r.x == x,
            r.y == y,
            r.width == width,
            r.height == height,
            r.z_index == z_index,
            r.pixels@ == Seq::new((width * height) as nat, |i: int| WINDOW_BACKGROUND),
            r.title@ == Seq::<u8>::empty(),
    {
        proof {
            assert(width * height <= MAX_WINDOW_PIXELS) by (nonlinear_arith)
                requires
                    width <= 4096,
                    height <= 4096,
            ;
        }
        let pixel_count = width * height;
        let mut pixels: Vec<u32> = Vec::with_capacity(pixel_count);
        let mut i: usize = 0;
        while i < pixel_count
            invariant
                0 <= i <= pixel_count,
                pixels@ == Seq::new(i as nat, |k: int| WINDOW_BACKGROUND),
            decreases pixel_count - i,
        {
            pixels.push(WINDOW_BACKGROUND);
            proof {
                assert(pixels@ =~= Seq::new((i + 1) as nat, |k: int| WINDOW_BACKGROUND));
            }
            i = i + 1;
        }
        Window { id, x, y, width, height, pixels, z_index, title: Vec::new() }
    }

    /// Fills the whole window with one colour.
    pub fn clear(&mut self, color: u32)
        ensures
            final(self).pixels@ == Seq::new(old(self).pixels@.len(), |i: int| color),
            final(self).id == old(self).id,
            final(self).x == old(self).x,
            final(self).y == old(self).y,
            final(self).width == old(self).width,
            final(self).height == old(self).height,
            final(self).z_index == old(self).z_index,
            final(self).title == old(self).title,
    {
        let mut i: usize = 0;
        while i < self.pixels.len()
            invariant
                0 <= i <= self.pixels@.len(),
                self.pixels@.len() == old(self).pixels@.len(),
                forall|k: int| 0 <= k < i ==> self.pixels@[k] == color,
                self.id == old(self).id,
                self.x == old(self).x,
                self.y == old(self).y,
                self.width == old(self).width,
                self.height == old(self).height,
                self.z_index == old(self).z_index,
                self.title == old(self).title,
            decreases self.pixels@.len() - i,
        {
            self.pixels.set(i, color);
            i = i + 1;
        }
        proof {
            assert(self.pixels@ =~= Seq::new(old(self).pixels@.len(), |i: int| color));
        }
    }

    /// Sets one pixel; positions outside the window are ignored.
    pub fn set_pixel(&mut self, x: usize, y: usize, color: u32)
        requires
            old(self).wf(),
        ensures
            final(self).wf(),
            x < old(self).width && y < old(self).height ==> final(self).pixels@ == old(self).pixels@.update(
                grid_index(old(self).width as int, x as int, y as int),
                color,
            ),
            !(x < old(self).width && y < old(self).height) ==> final(self).pixels@ == old(self).pixels@,
            final(self).id == old(self).id,
            final(self).x == old(self).x,
            final(self).y == old(self).y,
            final(self).width == old(self).width,
            final(self).height == old(self).height,
            final(self).z_index == old(self).z_index,
            final(self).title == old(self).title,
    {
        if x >= self.width || y >= self.height {
            return;
        }
        proof {
            lemma_grid_index(self.width as int, self.height as int, x as int, y as int);
            lemma_window_size(self.width as int, self.height as int);
        }
        let index = y * self.width + x;
        self.pixels.set(index, color);
    }

    /// Fills the part of the rectangle at (`rx`, `ry`) of `rw` by `rh`
    /// pixels that lies inside the window.
    pub fn fill_rect(&mut self, rx: usize, ry: usize, rw: usize, rh: usize, color: u32)
        requires
            old(self).wf(),
        ensures
            final(self).wf(),
            final(self).pixels@.len() == old(self).pixels@.len(),
            forall|x: int, y: int|
                old(self).contains(x, y) ==> #[trigger] pixel_at(final(self).pixels@, old(self).width as int, x, y)
                    == if rx <= x < rx + rw && ry <= y < ry + rh {
                    color
                } else {
                    pixel_at(old(self).pixels@, old(self).width as int, x, y)
                },
            final(self).id == old(self).id,
            final(self).x == old(self).x,
            final(self).y == old(self).y,
            final(self).width == old(self).width,
            final(self).height == old(self).height,
            final(self).z_index == old(self).z_index,
            final(self).title == old(self).title,
    {
        if rx >= self.width || ry >= self.height {
            return;
        }
        let end_x = if rw > self.width - rx { self.width } else { rx + rw };
        let end_y = if rh > self.height - ry { self.height } else { ry + rh };
        let width = self.width;
        let ghost w = width as int;
        let ghost old_pixels = self.pixels@;
        let mut y = ry;
        while y < end_y
            invariant
                self.wf(),
                w == width as int,
                width == self.width,
                self.width == old(self).width,
                self.height == old(self).height,
                ry <= y <= end_y <= self.height,
                rx <= end_x <= self.width,
                end_x == (if rw > self.width - rx { self.width as int } else { rx + rw }),
                end_y == (if rh > self.height - ry { self.height as int } else { ry + rh }),
                old_pixels == old(self).pixels@,
                self.pixels@.len() == old_pixels.len(),
                forall|px: int, py: int|
                    0 <= px < w && 0 <= py < self.height ==> #[trigger] pixel_at(self.pixels@, w, px, py) == if rx
                        <= px < end_x && ry <= py < y {
                        color
                    } else {
                        pixel_at(old_pixels, w, px, py)
                    },
                self.id == old(self).id,
                self.x == old(self).x,
                self.y == old(self).y,
                self.z_index == old(self).z_index,
                self.title == old(self).title,
            decreases end_y - y,
        {
            proof {
                lemma_grid_index(w, self.height as int, 0, y as int);
                lemma_window_size(w, self.height as int);
            }
            let row_start = y * width;
            let mut x = rx;
            while x < end_x
                invariant
                    self.wf(),
                    w == width as int,
                    width == self.width,
                    self.width == old(self).width,
                    self.height == old(self).height,
                    ry <= y < end_y <= self.height,
                    rx <= x <= end_x <= self.width,
                    row_start == y * width,
                    old_pixels == old(self).pixels@,
                    self.pixels@.len() == old_pixels.len(),
                    forall|px: int, py: int|
                        0 <= px < w && 0 <= py < self.height ==> #[trigger] pixel_at(self.pixels@, w, px, py) == if (rx
                            <= px < end_x && ry <= py < y) || (rx <= px < x && py == y) {
                            color
                        } else {
                            pixel_at(old_pixels, w, px, py)
                        },
                    self.id == old(self).id,
                    self.x == old(self).x,
                    self.y == old(self).y,
                    self.z_index == old(self).z_index,
                    self.title == old(self).title,
                decreases end_x - x,
            {
                proof {
                    lemma_grid_index(w, self.height as int, x as int, y as int);
                    lemma_window_size(w, self.height as int);
                }
                let ghost before = self.pixels@;
                self.pixels.set(row_start + x, color);
                proof {
                    assert forall|px: int, py: int| 0 <= px < w && 0 <= py < self.height implies #[trigger] pixel_at(
                        self.pixels@,
                        w,
                        px,
                        py,
                    ) == if (rx <= px < end_x && ry <= py < y) || (rx <= px < x + 1 && py == y) {
                        color
                    } else {
                        pixel_at(old_pixels, w, px, py)
                    } by {
                        lemma_grid_index(w, self.height as int, px, py);
                        if grid_index(w, px, py) == grid_index(w, x as int, y as int) {
                            lemma_grid_index_injective(w, px, py, x as int, y as int);
                        } else {
                            assert(pixel_at(self.pixels@, w, px, py) == pixel_at(before, w, px, py));
                        }
                    }
                }
                x = x + 1;
            }
            y = y + 1;
        }
    }

    /// Blends a glyph's coverage map into the window: coverage byte
    /// (`gx`, `gy`) of a `glyph_width`-wide map draws `color` at that
    /// opacity onto window pixel (`left + gx`, `top + gy`), when that pixel
    /// is inside the window and the coverage is not zero.
    pub fn blit_glyph(
        &mut self,
        left: i32,
        top: i32,
        glyph_width: usize,
        glyph_height: usize,
        coverage: &[u8],
        color: Color,
    )
        requires
            old(self).wf(),
            coverage@.len() == glyph_width * glyph_height,
        ensures
            final(self).wf(),
            final(self).pixels@.len() == old(self).pixels@.len(),
            forall|x: int, y: int|
                old(self).contains(x, y) ==> #[trigger] pixel_at(final(self).pixels@, old(self).width as int, x, y)
                    == glyph_pixel(
                    pixel_at(old(self).pixels@, old(self).width as int, x, y),
                    x - left,
                    y - top,
                    glyph_width as int,
                    glyph_height as int,
                    coverage@,
                    color,
                ),
            final(self).id == old(self).id,
            final(self).x == old(self).x,
            final(self).y == old(self).y,
            final(self).width == old(self).width,
            final(self).height == old(self).height,
            final(self).z_index == old(self).z_index,
            final(self).title == old(self).title,
    {
        let width = self.width;
        let height = self.height;
        let coverage_len = coverage.len();
        let ghost w = width as int;
        let ghost old_pixels = self.pixels@;
        let mut gy: usize = 0;
        while gy < glyph_height
            invariant
                self.wf(),
                w == width as int,
                width == self.width,
                height == self.height,
                self.width == old(self).width,
                self.height == old(self).height,
                0 <= gy <= glyph_height,
                coverage@.len() == glyph_width * glyph_height,
                coverage_len == coverage@.len(),
                old_pixels == old(self).pixels@,
                self.pixels@.len() == old_pixels.len(),
                forall|px: int, py: int|
                    0 <= px < w && 0 <= py < height ==> #[trigger] pixel_at(self.pixels@, w, px, py) == if py - top
                        < gy {
                        glyph_pixel(
                            pixel_at(old_pixels, w, px, py),
                            px - left,
                            py - top,
                            glyph_width as int,
                            glyph_height as int,
                            coverage@,
                            color,
                        )
                    } else {
                        pixel_at(old_pixels, w, px, py)
                    },
                self.id == old(self).id,
                self.x == old(self).x,
                self.y == old(self).y,
                self.z_index == old(self).z_index,
                self.title == old(self).title,
            decreases glyph_height - gy,
        {
            let dst_y = top as i128 + gy as i128;
            let mut gx: usize = 0;
            while gx < glyph_width
                invariant
                    self.wf(),
                    w == width as int,
                    width == self.width,
                    height == self.height,
                    self.width == old(self).width,
                    self.height == old(self).height,
                    0 <= gy < glyph_height,
                    0 <= gx <= glyph_width,
                    dst_y == top + gy,
                    coverage@.len() == glyph_width * glyph_height,
                    coverage_len == coverage@.len(),
                    old_pixels == old(self).pixels@,
                    self.pixels@.len() == old_pixels.len(),
                    forall|px: int, py: int|
                        0 <= px < w && 0 <= py < height ==> #[trigger] pixel_at(self.pixels@, w, px, py) == if py
                            - top < gy || (py - top == gy && px - left < gx) {
                            glyph_pixel(
                                pixel_at(old_pixels, w, px, py),
                                px - left,
                                py - top,
                                glyph_width as int,
                                glyph_height as int,
                                coverage@,
                                color,
                            )
                        } else {
                            pixel_at(old_pixels, w, px, py)
                        },
                    self.id == old(self).id,
                    self.x == old(self).x,
                    self.y == old(self).y,
                    self.z_index == old(self).z_index,
                    self.title == old(self).title,
                decreases glyph_width - gx,
            {
                proof {
                    lemma_grid_index(glyph_width as int, glyph_height as int, gx as int, gy as int);
                }
                let alpha = coverage[gy * glyph_width + gx];
                let dst_x = left as i128 + gx as i128;
                let ghost before = self.pixels@;
                if alpha != 0 && dst_y >= 0 && dst_y < height as i128 && dst_x >= 0 && dst_x < width as i128 {
                    let px = dst_x as usize;
                    let py = dst_y as usize;
                    proof {
                        lemma_grid_index(w, height as int, px as int, py as int);
                        lemma_window_size(w, height as int);
                    }
                    let index = py * width + px;
                    let value = blend_pixel(self.pixels[index], color, alpha);
                    self.pixels.set(index, value);
                }
                proof {
                    assert forall|qx: int, qy: int| 0 <= qx < w && 0 <= qy < height implies #[trigger] pixel_at(
                        self.pixels@,
                        w,
                        qx,
                        qy,
                    ) == if qy - top < gy || (qy - top == gy && qx - left < gx + 1) {
                        glyph_pixel(
                            pixel_at(old_pixels, w, qx, qy),
                            qx - left,
                            qy - top,
                            glyph_width as int,
                            glyph_height as int,
                            coverage@,
                            color,
                        )
                    } else {
                        pixel_at(old_pixels, w, qx, qy)
                    } by {
                        lemma_grid_index(w, height as int, qx, qy);
                        assert(pixel_at(before, w, qx, qy) == if qy - top < gy || (qy - top == gy && qx - left
                            < gx) {
                            glyph_pixel(
                                pixel_at(old_pixels, w, qx, qy),
                                qx - left,
                                qy - top,
                                glyph_width as int,
                                glyph_height as int,
                                coverage@,
                                color,
                            )
                        } else {
                            pixel_at(old_pixels, w, qx, qy)
                        });
                        if alpha != 0 && dst_y >= 0 && dst_y < height && dst_x >= 0 && dst_x < width {
                            let px = dst_x as int;
                            let py = dst_y as int;
                            lemma_grid_index(w, height as int, px, py);
                            if grid_index(w, qx, qy) == grid_index(w, px, py) {
                                lemma_grid_index_injective(w, qx, qy, px, py);
                            } else {
                                assert(pixel_at(self.pixels@, w, qx, qy) == pixel_at(before, w, qx, qy));
                            }
                        }
                    }
                }
                gx = gx + 1;
            }
            gy = gy + 1;
        }
    }

    /// Draws a string, given as what the font made of each of its
    /// characters, with its first line's top-left corner at (`x`, `y`): a
    /// line break returns to `x` one line lower (and ends the string once
    /// that line starts below the window), a carriage return returns to
    /// `x`, a character without a shape only moves on, and a shape is
    /// blended in at its offsets from the baseline, `ascent` below the line
    /// top, before the pen moves on (ending the string once it is past the
    /// right edge).  Nothing is drawn for an empty string or scale 0.
    pub fn draw_string(
        &mut self,
        x: usize,
        y: usize,
        glyphs: &[TextGlyph],
        ascent: i32,
        line_height: i32,
        color: Color,
        scale: usize,
    )
        requires
            old(self).wf(),
            shapes_fit(glyphs@),
        ensures
            final(self).string_drawn_from(*old(self), x, y, glyphs@, ascent, line_height, color, scale),
    {
        if glyphs.len() == 0 || scale == 0 {
            return;
        }
        let width = self.width;
        let height = self.height;
        let ghost w = width as int;
        let ghost h = height as int;
        let ghost old_pixels = self.pixels@;
        let ghost start = *self;
        let x0 = x as i32;
        let mut cx: i32 = x0;
        let mut cy: i32 = y as i32;
        let mut done = false;
        let mut i: usize = 0;
        let ghost mut placed: Seq<(i32, i32, int)> = Seq::empty();
        let ghost total = text_layout(glyphs@, x as i32, y as i32, ascent, line_height, w, h);
        while i < glyphs.len() && !done
            invariant
                self.wf(),
                self.same_frame(start),
                start == *old(self),
                w == width as int,
                h == height as int,
                width == self.width,
                height == self.height,
                old_pixels == old(self).pixels@,
                self.pixels@.len() == old_pixels.len(),
                shapes_fit(glyphs@),
                0 <= i <= glyphs@.len(),
                total == text_layout(glyphs@, x as i32, y as i32, ascent, line_height, w, h),
                x0 == x as i32,
                !done ==> total == placed + layout_from(glyphs@, i as int, x0, cx, cy, ascent, line_height, w, h),
                done ==> total == placed,
                forall|k: int| 0 <= k < placed.len() ==> 0 <= #[trigger] placed[k].2 < glyphs@.len(),
                forall|px: int, py: int|
                    0 <= px < w && 0 <= py < h ==> #[trigger] pixel_at(self.pixels@, w, px, py) == text_pixel(
                        pixel_at(old_pixels, w, px, py),
                        px,
                        py,
                        glyphs@,
                        placed,
                        placed.len() as int,
                        color,
                    ),
            decreases glyphs@.len() - i,
        {
            match &glyphs[i] {
                TextGlyph::LineBreak => {
                    cx = x0;
                    cy = add_saturating_i32(cy, line_height);
                    if cy >= height as i32 {
                        done = true;
                    }
                },
                TextGlyph::CarriageReturn => {
                    cx = x0;
                },
                TextGlyph::Blank { advance } => {
                    cx = add_saturating_i32(cx, *advance);
                },
                TextGlyph::Shape { raster, advance } => {
                    let baseline = add_saturating_i32(cy, ascent);
                    let left = add_saturating_i32(cx, raster.offset_x);
                    let top = add_saturating_i32(baseline, raster.offset_y);
                    let ghost before = self.pixels@;
                    self.blit_glyph(left, top, raster.width, raster.height, raster.coverage.as_slice(), color);
                    proof {
                        let ghost prev = placed;
                        placed = placed.push((left, top, i as int));
                        assert forall|px: int, py: int| 0 <= px < w && 0 <= py < h implies #[trigger] pixel_at(
                            self.pixels@,
                            w,
                            px,
                            py,
                        ) == text_pixel(
                            pixel_at(old_pixels, w, px, py),
                            px,
                            py,
                            glyphs@,
                            placed,
                            placed.len() as int,
                            color,
                        ) by {
                            assert(pixel_at(before, w, px, py) == text_pixel(
                                pixel_at(old_pixels, w, px, py),
                                px,
                                py,
                                glyphs@,
                                prev,
                                prev.len() as int,
                                color,
                            ));
                            lemma_text_pixel_prefix(pixel_at(old_pixels, w, px, py), px, py, glyphs@, placed, prev.len() as int, color);
                            assert(placed.subrange(0, placed.len() - 1) =~= prev);
                            assert(placed[placed.len() - 1] == (left, top, i as int));
                            assert(glyphs@[i as int] == TextGlyph::Shape { raster: *raster, advance: *advance });
                        }
                    }
                    cx = add_saturating_i32(cx, *advance);
                    if cx >= width as i32 {
                        done = true;
                    }
                },
            }
            proof {
                if !done {
                    assert(total == placed + layout_from(glyphs@, i + 1, x0, cx, cy, ascent, line_height, w, h));
                }
            }
            i = i + 1;
        }
    }

    /// Replaces the title.
    pub fn set_title(&mut self, title: &str)
        ensures
            final(self).title@ == title.spec_bytes(),
            vstd::utf8::valid_utf8(final(self).title@),
            vstd::utf8::decode_utf8(final(self).title@) == title@,
            final(self).pixels == old(self).pixels,
            final(self).id == old(self).id,
            final(self).x == old(self).x,
            final(self).y == old(self).y,
            final(self).width == old(self).width,
            final(self).height == old(self).height,
            final(self).z_index == old(self).z_index,
    {
        self.title.clear();
        self.title.extend_from_slice(title.as_bytes());
        proof {
            assert(self.title@ == vstd::utf8::encode_utf8(title@));
            vstd::utf8::encode_utf8_valid_utf8(title@);
            vstd::utf8::encode_utf8_decode_utf8(title@);
        }
    }

    /// The title; empty when the stored bytes are not valid UTF-8.
    pub fn title(&self) -> (r: &str)
        ensures
            vstd::utf8::valid_utf8(self.title@) ==> r.spec_bytes() == self.title@ && r@ == vstd::utf8::decode_utf8(
                self.title@,
            ),
            !vstd::utf8::valid_utf8(self.title@) ==> r@.len() == 0,
    {
        match utf8_str(self.title.as_slice()) {
            Some(s) => {
                proof {
                    vstd::utf8::encode_utf8_decode_utf8(s@);
                }
                s
            },
            None => {
                proof {
                    reveal_strlit("");
                }
                ""
            },
        }
    }
}

/// The window pixel `background` after blending a glyph whose coverage
/// byte at glyph position (`gx`, `gy`) lands on it; pixels outside the
/// glyph and zero coverage leave it unchanged.
pub open spec fn glyph_pixel(
    background: u32,
    gx: int,
    gy: int,
    glyph_width: int,
    glyph_height: int,
    coverage: Seq<u8>,
    color: Color,
) -> u32 {
    if 0 <= gx < glyph_width && 0 <= gy < glyph_height {
        blended(background, color, coverage[grid_index(glyph_width, gx, gy)])
    } else {
        background
    }
}


/// What the font made of one character of a string.
pub enum TextGlyph {
    /// `\n`: back to the start of the next line.
    LineBreak,
    /// `\r`: back to the start of the line.
    CarriageReturn,
    /// A character the font has no shape for: the pen moves on by `advance`.
    Blank { advance: i32 },
    /// A shape to blend in, after which the pen moves on by `advance`.
    Shape { raster: GlyphRaster, advance: i32 },
}

/// Every shape holds one coverage byte per pixel.
pub open spec fn shapes_fit(glyphs: Seq<TextGlyph>) -> bool {
    forall|i: int|
        0 <= i < glyphs.len() ==> (#[trigger] glyphs[i] matches TextGlyph::Shape { raster, .. } ==> raster.coverage@.len()
            == raster.width * raster.height)
}

/// Where the shapes from glyph `i` onwards go, as (left, top, glyph index),
/// with the pen at (`cx`, `cy`), lines starting at `x`, in a window of
/// `width` by `height` pixels.
pub open spec fn layout_from(
    glyphs: Seq<TextGlyph>,
    i: int,
    x: i32,
    cx: i32,
    cy: i32,
    ascent: i32,
    line_height: i32,
    width: int,
    height: int,
) -> Seq<(i32, i32, int)>
    decreases glyphs.len() - i,
{
    if i < 0 || i >= glyphs.len() {
        Seq::empty()
    } else {
        match glyphs[i] {
            TextGlyph::LineBreak => {
                let next_y = saturating_add_i32(cy, line_height);
                if next_y >= height {
                    Seq::empty()
                } else {
                    layout_from(glyphs, i + 1, x, x, next_y, ascent, line_height, width, height)
                }
            },
            TextGlyph::CarriageReturn => layout_from(glyphs, i + 1, x, x, cy, ascent, line_height, width, height),
            TextGlyph::Blank { advance } => layout_from(
                glyphs,
                i + 1,
                x,
                saturating_add_i32(cx, advance),
                cy,
                ascent,
                line_height,
                width,
                height,
            ),
            TextGlyph::Shape { raster, advance } => {
                let left = saturating_add_i32(cx, raster.offset_x);
                let top = saturating_add_i32(saturating_add_i32(cy, ascent), raster.offset_y);
                let next_x = saturating_add_i32(cx, advance);
                seq![(left, top, i)] + if next_x >= width {
                    Seq::empty()
                } else {
                    layout_from(glyphs, i + 1, x, next_x, cy, ascent, line_height, width, height)
                }
            },
        }
    }
}

/// Where the shapes of a string drawn at (`x`, `y`) go.
pub open spec fn text_layout(
    glyphs: Seq<TextGlyph>,
    x: i32,
    y: i32,
    ascent: i32,
    line_height: i32,
    width: int,
    height: int,
) -> Seq<(i32, i32, int)> {
    layout_from(glyphs, 0, x, x, y, ascent, line_height, width, height)
}

/// Window pixel (`x`, `y`), first `background`, after the first `k`
/// placed shapes are blended in, in order.
pub open spec fn text_pixel(
    background: u32,
    x: int,
    y: int,
    glyphs: Seq<TextGlyph>,
    placed: Seq<(i32, i32, int)>,
    k: int,
    color: Color,
) -> u32
    decreases k,
{
    if k <= 0 {
        background
    } else {
        let below = text_pixel(background, x, y, glyphs, placed, k - 1, color);
        let (left, top, index) = placed[k - 1];
        match glyphs[index] {
            TextGlyph::Shape { raster, .. } => glyph_pixel(
                below,
                x - left,
                y - top,
                raster.width as int,
                raster.height as int,
                raster.coverage@,
                color,
            ),
            _ => below,
        }
    }
}

/// Blending in the first `k` shapes depends only on those shapes.
pub proof fn lemma_text_pixel_prefix(
    background: u32,
    x: int,
    y: int,
    glyphs: Seq<TextGlyph>,
    placed: Seq<(i32, i32, int)>,
    k: int,
    color: Color,
)
    requires
        0 <= k < placed.len(),
    ensures
        text_pixel(background, x, y, glyphs, placed, k, color) == text_pixel(
            background,
            x,
            y,
            glyphs,
            placed.subrange(0, placed.len() - 1),
            k,
            color,
        ),
    decreases k,
{
    if k > 0 {
        lemma_text_pixel_prefix(background, x, y, glyphs, placed, k - 1, color);
    }
}

/// Whether (`x`, `y`) lies on the one-pixel outline of the rectangle at
/// (`rx`, `ry`) of `rw` by `rh` pixels: its top or bottom row, or its left
/// or right column.
pub open spec fn on_outline(x: int, y: int, rx: int, ry: int, rw: int, rh: int) -> bool {
    ||| rx <= x < rx + rw && (y == ry || y == ry + rh - 1)
    ||| ry <= y < ry + rh && (x == rx || x == rx + rw - 1)
}

} // verus!
