//! Drawing into the frame buffer: pixels, rectangles, borders, a
//! progress bar, a status dot and alpha-blended pixels.
//!
//! A pixel at (x, y) occupies bytes `(y * stride + x) * bytes_per_pixel`
//! on; its first one (grey) or three (RGB or BGR order) bytes hold the
//! colour. A format whose pixels are too small for its channels is not
//! drawn into.

use vstd::prelude::*;
use crate::graphics::buffer::{Geometry, GraphicsBuffers, GraphicsStorage, PixelFormat};
use crate::graphics::color::Color;

verus! {

/// The colour bytes of a pixel in `format` with `bpp` bytes per pixel.
pub open spec fn channel_count(format: PixelFormat, bpp: usize) -> int {
    match format {
        PixelFormat::Rgb => if bpp >= 3 {
            3
        } else {
            0
        },
        PixelFormat::Bgr => if bpp >= 3 {
            3
        } else {
            0
        },
        PixelFormat::U8 => if bpp >= 1 {
            1
        } else {
            0
        },
        PixelFormat::Unknown => 0,
    }
}

/// The byte of colour `color` at position `c` of a pixel in `format`.
pub open spec fn channel_value(format: PixelFormat, color: Color, c: int) -> u8 {
    match format {
        PixelFormat::Rgb => if c == 0 {
            color.r
        } else if c == 1 {
            color.g
        } else {
            color.b
        },
        PixelFormat::Bgr => if c == 0 {
            color.b
        } else if c == 1 {
            color.g
        } else {
            color.r
        },
        PixelFormat::U8 => color.r,
        PixelFormat::Unknown => 0,
    }
}

/// Whether buffer byte `k` is a colour byte of a pixel inside the
/// rectangle of columns `x0..x1` and rows `y0..y1`.
pub open spec fn byte_in_rect(b: Geometry, k: int, x0: int, y0: int, x1: int, y1: int) -> bool {
    let bpp = b.bytes_per_pixel as int;
    let stride = b.stride as int;
    let p = k / bpp;
    &&& y0 <= p / stride < y1
    &&& x0 <= p % stride < x1
    &&& k % bpp < channel_count(b.pixel_format, b.bytes_per_pixel)
}

/// `frame` with the rectangle of columns `x0..x1` and rows `y0..y1` in
/// `color`.
pub open spec fn rect_painted(frame: Seq<u8>, b: Geometry, x0: int, y0: int, x1: int, y1: int, color: Color) -> Seq<u8> {
    Seq::new(
        frame.len(),
        |k: int|
            if byte_in_rect(b, k, x0, y0, x1, y1) {
                channel_value(b.pixel_format, color, k % (b.bytes_per_pixel as int))
            } else {
                frame[k]
            },
    )
}

/// `frame` after a rectangle at (`x`, `y`) of `w` by `h` pixels is drawn:
/// nothing when it starts off screen or is empty, else the part on
/// screen.
pub open spec fn rect_drawn(frame: Seq<u8>, b: Geometry, x: int, y: int, w: int, h: int, color: Color) -> Seq<u8> {
    if x >= b.width || y >= b.height || w == 0 || h == 0 {
        frame
    } else {
        rect_painted(
            frame,
            b,
            x,
            y,
            if x + w < b.width {
                x + w
            } else {
                b.width as int
            },
            if y + h < b.height {
                y + h
            } else {
                b.height as int
            },
            color,
        )
    }
}

/// Where a byte sits: for a pixel `p = py * stride + px` (with `px` below
/// the stride), byte `k` lies in the pixel's bytes exactly when `k` over
/// the pixel size is `p`, and then it is the byte `k - p * bpp` of it.
pub proof fn lemma_byte_position(k: int, bpp: int, stride: int, px: int, py: int)
    requires
        k >= 0,
        bpp > 0,
        stride > 0,
        0 <= px < stride,
        py >= 0,
    ensures
        ((py * stride + px) * bpp <= k < (py * stride + px) * bpp + bpp) <==> (k / bpp == py * stride + px),
        k / bpp == py * stride + px ==> k % bpp == k - (py * stride + px) * bpp,
        (k / bpp == py * stride + px) <==> ((k / bpp) / stride == py && (k / bpp) % stride == px),
        k / bpp >= 0,
        0 <= k % bpp < bpp,
{
    let p = py * stride + px;
    let q = k / bpp;
    let r = k % bpp;
    vstd::arithmetic::div_mod::lemma_fundamental_div_mod(k, bpp);
    vstd::arithmetic::div_mod::lemma_mod_pos_bound(k, bpp);
    vstd::arithmetic::div_mod::lemma_div_pos_is_pos(k, bpp);
    vstd::arithmetic::mul::lemma_mul_is_commutative(bpp, q);
    if p * bpp <= k < p * bpp + bpp {
        vstd::arithmetic::div_mod::lemma_fundamental_div_mod_converse(k, bpp, p, k - p * bpp);
    }
    if q == p {
        assert(k == p * bpp + r);
    }
    if q != p {
        if q < p {
            assert(q * bpp + bpp <= p * bpp) by (nonlinear_arith)
                requires
                    q < p,
                    bpp > 0,
            ;
        } else {
            assert(q * bpp >= p * bpp + bpp) by (nonlinear_arith)
                requires
                    q > p,
                    bpp > 0,
            ;
        }
    }
    vstd::arithmetic::div_mod::lemma_fundamental_div_mod(q, stride);
    vstd::arithmetic::div_mod::lemma_mod_pos_bound(q, stride);
    vstd::arithmetic::mul::lemma_mul_is_commutative(stride, q / stride);
    if q == p {
        vstd::arithmetic::div_mod::lemma_fundamental_div_mod_converse(q, stride, py, px);
    }
}

/// Writes the colour bytes of one pixel starting at `offset`.
fn write_pixel(frame: &mut Vec<u8>, offset: usize, format: PixelFormat, bpp: usize, color: Color)
    requires
        offset + channel_count(format, bpp) <= old(frame)@.len(),
    ensures
        final(frame)@.len() == old(frame)@.len(),
        forall|k: int|
            0 <= k < old(frame)@.len() ==> #[trigger] final(frame)@[k] == if offset <= k < offset + channel_count(
                format,
                bpp,
            ) {
                channel_value(format, color, k - offset)
            } else {
                old(frame)@[k]
            },
{
    let len = frame.len();
    match format {
        PixelFormat::Rgb => {
            if bpp >= 3 {
                frame.set(offset, color.r);
                frame.set(offset + 1, color.g);
                frame.set(offset + 2, color.b);
            }
        },
        PixelFormat::Bgr => {
            if bpp >= 3 {
                frame.set(offset, color.b);
                frame.set(offset + 1, color.g);
                frame.set(offset + 2, color.r);
            }
        },
        PixelFormat::U8 => {
            if bpp >= 1 {
                frame.set(offset, color.r);
            }
        },
        PixelFormat::Unknown => {},
    }
}

/// Paints the rectangle of columns `x0..x1` and rows `y0..y1`, which lies
/// on screen.
fn paint_rect(b: &mut GraphicsBuffers, x0: usize, y0: usize, x1: usize, y1: usize, color: Color)
    requires
        old(b).wf(),
        x0 <= x1 <= old(b).width,
        y0 <= y1 <= old(b).height,
    ensures
        final(b).wf(),
        final(b).frame@ == rect_painted(old(b).frame@, old(b).geometry(), x0 as int, y0 as int, x1 as int, y1 as int, color),
        final(b).base == old(b).base,
        final(b).width == old(b).width,
        final(b).height == old(b).height,
        final(b).stride == old(b).stride,
        final(b).bytes_per_pixel == old(b).bytes_per_pixel,
        final(b).pixel_format == old(b).pixel_format,
{
    let ghost g = old(b).geometry();
    let ghost original = old(b).frame@;
    let bpp = b.bytes_per_pixel;
    let stride = b.stride;
    let format = b.pixel_format;
    if bpp == 0 || x0 == x1 {
        proof {
            if bpp == 0 {
                assert(original.len() == 0) by (nonlinear_arith)
                    requires
                        original.len() == g.stride * g.height * bpp,
                        bpp == 0,
                ;
            }
            assert(b.frame@ =~= rect_painted(original, g, x0 as int, y0 as int, x1 as int, y1 as int, color));
        }
        return;
    }
    let mut py = y0;
    while py < y1
        invariant
            y0 <= py <= y1,
            x0 < x1 <= g.width,
            y1 <= g.height,
            bpp == g.bytes_per_pixel,
            bpp > 0,
            stride == g.stride,
            format == g.pixel_format,
            b.wf(),
            b.base == old(b).base,
            b.width == g.width,
            b.height == g.height,
            b.stride == g.stride,
            b.bytes_per_pixel == g.bytes_per_pixel,
            b.pixel_format == g.pixel_format,
            original.len() == b.frame@.len(),
            b.frame@ == rect_painted(original, g, x0 as int, y0 as int, x1 as int, py as int, color),
        decreases y1 - py,
    {
        let mut px = x0;
        while px < x1
            invariant
                y0 <= py < y1,
                x0 <= px <= x1,
                x0 < x1 <= g.width,
                y1 <= g.height,
                bpp == g.bytes_per_pixel,
                bpp > 0,
                stride == g.stride,
                format == g.pixel_format,
                b.wf(),
                b.base == old(b).base,
                b.width == g.width,
                b.height == g.height,
                b.stride == g.stride,
                b.bytes_per_pixel == g.bytes_per_pixel,
                b.pixel_format == g.pixel_format,
                original.len() == b.frame@.len(),
                forall|k: int|
                    0 <= k < original.len() ==> #[trigger] b.frame@[k] == if byte_in_rect(
                        g,
                        k,
                        x0 as int,
                        y0 as int,
                        x1 as int,
                        py as int,
                    ) || byte_in_rect(g, k, x0 as int, py as int, px as int, py + 1) {
                        channel_value(format, color, k % (bpp as int))
                    } else {
                        original[k]
                    },
            decreases x1 - px,
        {
            let len = b.frame.len();
            proof {
                assert((py * stride + px) * bpp + bpp <= stride * g.height * bpp && py * stride + px < stride
                    * g.height && stride * g.height <= stride * g.height * bpp && py * stride <= py * stride + px)
                    by (nonlinear_arith)
                    requires
                        py < g.height,
                        px < stride,
                        bpp > 0,
                ;
            }
            let row = py * stride;
            let pixel = row + px;
            let offset = pixel * bpp;
            let ghost before = b.frame@;
            proof {
                assert(channel_count(format, bpp) <= bpp);
            }
            write_pixel(&mut b.frame, offset, format, bpp, color);
            proof {
                assert forall|k: int| 0 <= k < original.len() implies #[trigger] b.frame@[k] == if byte_in_rect(
                    g,
                    k,
                    x0 as int,
                    y0 as int,
                    x1 as int,
                    py as int,
                ) || byte_in_rect(g, k, x0 as int, py as int, px + 1, py + 1) {
                    channel_value(format, color, k % (bpp as int))
                } else {
                    original[k]
                } by {
                    lemma_byte_position(k, bpp as int, stride as int, px as int, py as int);
                }
            }
            px = px + 1;
        }
        proof {
            assert(b.frame@ =~= rect_painted(original, g, x0 as int, y0 as int, x1 as int, py + 1, color));
        }
        py = py + 1;
    }
}

/// Draws a rectangle at (`x`, `y`) of `width` by `height` pixels, cut to
/// the screen.
pub fn draw_rect(storage: &mut GraphicsStorage, x: usize, y: usize, width: usize, height: usize, color: Color)
    requires
        old(storage).wf(),
    ensures
        final(storage).wf(),
        match old(storage).state {
            Some(b) => final(storage).state matches Some(n) && n.frame@ == rect_drawn(
                b.frame@,
                b.geometry(),
                x as int,
                y as int,
                width as int,
                height as int,
                color,
            ) && n.base == b.base && n.width == b.width && n.height == b.height && n.stride == b.stride
                && n.bytes_per_pixel == b.bytes_per_pixel && n.pixel_format == b.pixel_format,
            None => final(storage).state is None,
        },
{
    match storage.state.take() {
        Some(mut b) => {
            if !(x >= b.width || y >= b.height || width == 0 || height == 0) {
                let x_end = if x.saturating_add(width) < b.width {
                    x.saturating_add(width)
                } else {
                    b.width
                };
                let y_end = if y.saturating_add(height) < b.height {
                    y.saturating_add(height)
                } else {
                    b.height
                };
                paint_rect(&mut b, x, y, x_end, y_end, color);
            }
            storage.state = Some(b);
        },
        None => {},
    }
}

/// Draws one pixel, if it is on screen.
pub fn draw_pixel(storage: &mut GraphicsStorage, x: usize, y: usize, color: Color)
    requires
        old(storage).wf(),
    ensures
        final(storage).wf(),
        match old(storage).state {
            Some(b) => final(storage).state matches Some(n) && n.frame@ == rect_drawn(
                b.frame@,
                b.geometry(),
                x as int,
                y as int,
                1,
                1,
                color,
            ) && n.base == b.base && n.width == b.width && n.height == b.height && n.stride == b.stride
                && n.bytes_per_pixel == b.bytes_per_pixel && n.pixel_format == b.pixel_format,
            None => final(storage).state is None,
        },
{
    draw_rect(storage, x, y, 1, 1, color)
}

/// Fills the whole screen with `color`.
pub fn clear_screen(storage: &mut GraphicsStorage, color: Color)
    requires
        old(storage).wf(),
    ensures
        final(storage).wf(),
        match old(storage).state {
            Some(b) => final(storage).state matches Some(n) && n.frame@ == rect_drawn(
                b.frame@,
                b.geometry(),
                0,
                0,
                b.width as int,
                b.height as int,
                color,
            ) && n.base == b.base && n.width == b.width && n.height == b.height && n.stride == b.stride
                && n.bytes_per_pixel == b.bytes_per_pixel && n.pixel_format == b.pixel_format,
            None => final(storage).state is None,
        },
{
    let w = crate::graphics::buffer::width(storage);
    let h = crate::graphics::buffer::height(storage);
    draw_rect(storage, 0, 0, w, h, color)
}

/// `frame` after the one-pixel border of the box at (`x`, `y`) of `w` by
/// `h` is drawn: top, bottom, left and right edges in turn; nothing for a
/// box narrower or lower than two pixels.
pub open spec fn border_drawn(frame: Seq<u8>, b: Geometry, x: int, y: int, w: int, h: int, color: Color) -> Seq<u8> {
    if w < 2 || h < 2 {
        frame
    } else {
        let top = rect_drawn(frame, b, x, y, w, 1, color);
        let bottom = rect_drawn(top, b, x, y + h - 1, w, 1, color);
        let left = rect_drawn(bottom, b, x, y, 1, h, color);
        rect_drawn(left, b, x + w - 1, y, 1, h, color)
    }
}

/// Draws the one-pixel border of the box at (`x`, `y`) of `width` by
/// `height`.
pub fn draw_border(storage: &mut GraphicsStorage, x: usize, y: usize, width: usize, height: usize, color: Color)
    requires
        old(storage).wf(),
        width >= 2 && height >= 2 ==> x + width - 1 <= usize::MAX && y + height - 1 <= usize::MAX,
    ensures
        final(storage).wf(),
        match old(storage).state {
            Some(b) => final(storage).state matches Some(n) && n.frame@ == border_drawn(
                b.frame@,
                b.geometry(),
                x as int,
                y as int,
                width as int,
                height as int,
                color,
            ) && n.base == b.base && n.width == b.width && n.height == b.height && n.stride == b.stride
                && n.bytes_per_pixel == b.bytes_per_pixel && n.pixel_format == b.pixel_format,
            None => final(storage).state is None,
        },
{
    if width < 2 || height < 2 {
        return;
    }
    draw_rect(storage, x, y, width, 1, color);
    draw_rect(storage, x, y + (height - 1), width, 1, color);
    draw_rect(storage, x, y, 1, height, color);
    draw_rect(storage, x + (width - 1), y, 1, height, color);
}

/// The width of the filled part of a progress bar `width` wide at
/// `progress` percent (capped at 100), inside its one-pixel border.
pub open spec fn progress_fill(width: int, progress: int) -> int {
    let p = if progress < 100 {
        progress
    } else {
        100
    };
    (width - 2) * p / 100
}

/// `frame` after a progress bar is drawn: a black box, its border, and
/// the filled part in `color`.
pub open spec fn progress_bar_drawn(
    frame: Seq<u8>,
    b: Geometry,
    x: int,
    y: int,
    w: int,
    h: int,
    progress: int,
    color: Color,
) -> Seq<u8> {
    let black = Color { r: 0, g: 0, b: 0, a: 255 };
    let border = Color { r: 55, g: 70, b: 95, a: 255 };
    let boxed = border_drawn(rect_drawn(frame, b, x, y, w, h, black), b, x, y, w, h, border);
    if w <= 2 || h <= 2 || progress_fill(w, progress) == 0 {
        boxed
    } else {
        rect_drawn(boxed, b, x + 1, y + 1, progress_fill(w, progress), h - 2, color)
    }
}

/// Draws a progress bar at (`x`, `y`) of `width` by `height` showing
/// `progress` percent.
pub fn draw_progress_bar(
    storage: &mut GraphicsStorage,
    x: usize,
    y: usize,
    width: usize,
    height: usize,
    progress: usize,
    color: Color,
)
    requires
        old(storage).wf(),
        x + width <= usize::MAX,
        y + height <= usize::MAX,
    ensures
        final(storage).wf(),
        match old(storage).state {
            Some(b) => final(storage).state matches Some(n) && n.frame@ == progress_bar_drawn(
                b.frame@,
                b.geometry(),
                x as int,
                y as int,
                width as int,
                height as int,
                progress as int,
                color,
            ) && n.base == b.base && n.width == b.width && n.height == b.height && n.stride == b.stride
                && n.bytes_per_pixel == b.bytes_per_pixel && n.pixel_format == b.pixel_format,
            None => final(storage).state is None,
        },
{
    let progress = if progress < 100 {
        progress
    } else {
        100
    };
    draw_rect(storage, x, y, width, height, Color::black());
    draw_border(storage, x, y, width, height, Color::border());
    if width <= 2 || height <= 2 {
        return;
    }
    proof {
        assert((width - 2) * progress <= (width - 2) * 100) by (nonlinear_arith)
            requires
                progress <= 100,
                width >= 2,
        ;
        assert((width - 2) * 100 <= usize::MAX * 100);
    }
    let fill = ((width - 2) as u128 * progress as u128 / 100) as usize;
    proof {
        assert(fill == (width - 2) * progress / 100);
        assert((width - 2) * progress / 100 <= width - 2) by (nonlinear_arith)
            requires
                progress <= 100,
                width >= 2,
        ;
    }
    if fill > 0 {
        draw_rect(storage, x + 1, y + 1, fill, height - 2, color);
    }
}

/// Draws a five-by-five status dot at (`x`, `y`).
pub fn draw_status_dot(storage: &mut GraphicsStorage, x: usize, y: usize, color: Color)
    requires
        old(storage).wf(),
    ensures
        final(storage).wf(),
        match old(storage).state {
            Some(b) => final(storage).state matches Some(n) && n.frame@ == rect_drawn(
                b.frame@,
                b.geometry(),
                x as int,
                y as int,
                5,
                5,
                color,
            ) && n.base == b.base && n.width == b.width && n.height == b.height && n.stride == b.stride
                && n.bytes_per_pixel == b.bytes_per_pixel && n.pixel_format == b.pixel_format,
            None => final(storage).state is None,
        },
{
    draw_rect(storage, x, y, 5, 5, color)
}

/// Channel `source` blended over `destination` at opacity `alpha`.
pub open spec fn blend(source: u8, destination: u8, alpha: u8) -> u8 {
    ((source * alpha + destination * (255 - alpha)) / 255) as u8
}

/// `frame` after `color` is blended over the pixel at byte `offset`: each
/// colour byte mixes the colour's channel with what was there (a grey
/// pixel mixes its one byte with the red channel).
pub open spec fn pixel_blended(frame: Seq<u8>, offset: int, format: PixelFormat, bpp: usize, color: Color) -> Seq<u8> {
    Seq::new(
        frame.len(),
        |k: int|
            if offset <= k < offset + channel_count(format, bpp) {
                blend(channel_value(format, color, k - offset), frame[k], color.a)
            } else {
                frame[k]
            },
    )
}

/// `frame` after `color` is drawn with its alpha at (`x`, `y`): nothing
/// when fully transparent or off screen, a plain pixel when opaque, else
/// a blend.
pub open spec fn alpha_pixel_drawn(frame: Seq<u8>, b: Geometry, x: int, y: int, color: Color) -> Seq<u8> {
    if color.a == 0 {
        frame
    } else if color.a == 255 {
        rect_drawn(frame, b, x, y, 1, 1, color)
    } else if x >= b.width || y >= b.height {
        frame
    } else {
        pixel_blended(
            frame,
            (y * b.stride + x) * b.bytes_per_pixel,
            b.pixel_format,
            b.bytes_per_pixel,
            color,
        )
    }
}

fn blend_exec(source: u8, destination: u8, alpha: u8) -> (r: u8)
    ensures
        r == blend(source, destination, alpha),
{
    proof {
        assert(source * alpha + destination * (255 - alpha) <= 255 * 255) by (nonlinear_arith)
            requires
                source <= 255,
                destination <= 255,
                alpha <= 255,
        ;
    }
    let s = source as u32;
    let d = destination as u32;
    let a = alpha as u32;
    ((s * a + d * (255 - a)) / 255) as u8
}

/// Draws `color` at (`x`, `y`) blended by its alpha over what is there.
pub fn draw_pixel_alpha(storage: &mut GraphicsStorage, x: usize, y: usize, color: Color)
    requires
        old(storage).wf(),
    ensures
        final(storage).wf(),
        match old(storage).state {
            Some(b) => final(storage).state matches Some(n) && n.frame@ == alpha_pixel_drawn(
                b.frame@,
                b.geometry(),
                x as int,
                y as int,
                color,
            ) && n.base == b.base && n.width == b.width && n.height == b.height && n.stride == b.stride
                && n.bytes_per_pixel == b.bytes_per_pixel && n.pixel_format == b.pixel_format,
            None => final(storage).state is None,
        },
{
    if color.a == 0 {
        return;
    }
    if color.a == 255 {
        draw_pixel(storage, x, y, color);
        return;
    }
    match storage.state.take() {
        Some(mut b) => {
            if x < b.width && y < b.height {
                let bpp = b.bytes_per_pixel;
                let format = b.pixel_format;
                let len = b.frame.len();
                proof {
                    assert((y * b.stride + x) * bpp + bpp <= b.stride * b.height * bpp && y * b.stride + x < b.stride
                        * b.height && (bpp > 0 ==> b.stride * b.height <= b.stride * b.height * bpp) && y * b.stride
                        <= y * b.stride + x) by (nonlinear_arith)
                        requires
                            y < b.height,
                            x < b.width <= b.stride,
                    ;
                }
                if bpp == 0 {
                    storage.state = Some(b);
                    proof {
                        assert(pixel_blended(old(storage).state->0.frame@, (y * b.stride + x) * bpp, format, bpp, color)
                            =~= old(storage).state->0.frame@);
                    }
                    return;
                }
                let row = y * b.stride;
                let pixel = row + x;
                let offset = pixel * bpp;
                let ghost before = b.frame@;
                match format {
                    PixelFormat::Rgb | PixelFormat::Bgr => {
                        if bpp >= 3 {
                            let d0 = b.frame[offset];
                            let d1 = b.frame[offset + 1];
                            let d2 = b.frame[offset + 2];
                            let (c0, c1, c2) = match format {
                                PixelFormat::Rgb => (color.r, color.g, color.b),
                                _ => (color.b, color.g, color.r),
                            };
                            b.frame.set(offset, blend_exec(c0, d0, color.a));
                            b.frame.set(offset + 1, blend_exec(c1, d1, color.a));
                            b.frame.set(offset + 2, blend_exec(c2, d2, color.a));
                        }
                    },
                    PixelFormat::U8 => {
                        if bpp >= 1 {
                            let d0 = b.frame[offset];
                            b.frame.set(offset, blend_exec(color.r, d0, color.a));
                        }
                    },
                    PixelFormat::Unknown => {},
                }
                proof {
                    assert(b.frame@ =~= pixel_blended(before, offset as int, format, bpp, color));
                }
            }
            storage.state = Some(b);
        },
        None => {},
    }
}

/// A rasterised glyph: its bitmap's placement relative to the pen
/// position on the baseline, its size and one coverage byte per pixel,
/// row by row.
pub struct GlyphRaster {
    pub offset_x: i32,
    pub offset_y: i32,
    pub width: usize,
    pub height: usize,
    pub coverage: Vec<u8>,
}

/// The opacity of a glyph pixel with `coverage` in a colour of alpha `a`.
pub open spec fn glyph_alpha(coverage: u8, a: u8) -> u8 {
    (coverage * a / 255) as u8
}

/// `frame` after glyph pixels `i` onwards (row by row) are blended in at
/// the glyph origin (`origin_x`, `origin_y`): uncovered pixels and pixels
/// left of or above the screen are skipped.
pub open spec fn glyph_drawn_from(
    frame: Seq<u8>,
    b: Geometry,
    coverage: Seq<u8>,
    width: int,
    height: int,
    origin_x: int,
    origin_y: int,
    color: Color,
    i: int,
) -> Seq<u8>
    decreases width * height - i,
{
    if i < 0 || width <= 0 || i >= width * height {
        frame
    } else {
        let gx = i % width;
        let gy = i / width;
        let px = origin_x + gx;
        let py = origin_y + gy;
        let cov = coverage[i];
        let next = if cov == 0 || px < 0 || py < 0 {
            frame
        } else {
            alpha_pixel_drawn(
                frame,
                b,
                px,
                py,
                Color { r: color.r, g: color.g, b: color.b, a: glyph_alpha(cov, color.a) },
            )
        };
        glyph_drawn_from(next, b, coverage, width, height, origin_x, origin_y, color, i + 1)
    }
}

/// Draws a rasterised character with the top of its line box at (`x`,
/// `y`): the glyph's origin sits `ascent` below `y` on the baseline, and
/// each covered pixel is blended in at the colour's alpha scaled by its
/// coverage. Nothing is drawn at scale 0.
pub fn draw_char(
    storage: &mut GraphicsStorage,
    x: usize,
    y: usize,
    glyph: &GlyphRaster,
    ascent: i32,
    color: Color,
    scale: usize,
)
    requires
        old(storage).wf(),
        x <= i32::MAX,
        y <= i32::MAX,
        glyph.width <= i32::MAX,
        glyph.height <= i32::MAX,
        glyph.coverage@.len() >= glyph.width * glyph.height,
    ensures
        final(storage).wf(),
        match old(storage).state {
            Some(b) => final(storage).state matches Some(n) && n.frame@ == (if scale == 0 {
                b.frame@
            } else {
                glyph_drawn_from(
                    b.frame@,
                    b.geometry(),
                    glyph.coverage@,
                    glyph.width as int,
                    glyph.height as int,
                    x + glyph.offset_x,
                    y + ascent + glyph.offset_y,
                    color,
                    0,
                )
            }) && n.base == b.base && n.geometry() == b.geometry(),
            None => final(storage).state is None,
        },
{
    if scale == 0 {
        return;
    }
    let origin_x: i64 = x as i64 + glyph.offset_x as i64;
    let origin_y: i64 = y as i64 + ascent as i64 + glyph.offset_y as i64;
    let w = glyph.width;
    let h = glyph.height;
    if w == 0 {
        return;
    }
    let coverage_len = glyph.coverage.len();
    let count = w * h;
    let ghost geo = match old(storage).state {
        Some(b) => b.geometry(),
        None => arbitrary(),
    };
    let ghost target = match old(storage).state {
        Some(b) => glyph_drawn_from(b.frame@, geo, glyph.coverage@, w as int, h as int, origin_x as int, origin_y as int, color, 0),
        None => Seq::empty(),
    };
    let mut i: usize = 0;
    while i < count
        invariant
            i <= count,
            count == w * h,
            w > 0,
            w == glyph.width,
            h == glyph.height,
            glyph.coverage@.len() >= count,
            w <= i32::MAX,
            h <= i32::MAX,
            storage.wf(),
            origin_x == x + glyph.offset_x,
            origin_y == y + ascent + glyph.offset_y,
            x <= i32::MAX,
            y <= i32::MAX,
            match old(storage).state {
                Some(b) => storage.state matches Some(n) && target == glyph_drawn_from(
                    n.frame@,
                    geo,
                    glyph.coverage@,
                    w as int,
                    h as int,
                    origin_x as int,
                    origin_y as int,
                    color,
                    i as int,
                ) && n.base == b.base && n.geometry() == geo && geo == b.geometry(),
                None => storage.state is None,
            },
        decreases count - i,
    {
        let gx = i % w;
        let gy = i / w;
        proof {
            vstd::arithmetic::div_mod::lemma_fundamental_div_mod(i as int, w as int);
            assert(gy < h) by (nonlinear_arith)
                requires
                    i < w * h,
                    gy == i / w,
                    w > 0,
            ;
        }
        let coverage = glyph.coverage[i];
        let px: i64 = origin_x + gx as i64;
        let py: i64 = origin_y + gy as i64;
        let ghost frame_before = storage.state->0.frame@;
        if coverage != 0 && px >= 0 && py >= 0 {
            proof {
                assert(coverage * color.a <= 255 * 255) by (nonlinear_arith)
                    requires
                        coverage <= 255,
                        color.a <= 255,
                ;
            }
            let alpha = ((coverage as u32) * (color.a as u32) / 255) as u8;
            let pixel_color = Color { r: color.r, g: color.g, b: color.b, a: alpha };
            if px as u64 <= usize::MAX as u64 && py as u64 <= usize::MAX as u64 {
                draw_pixel_alpha(storage, px as usize, py as usize, pixel_color);
            } else {
                proof {
                    if storage.state is Some {
                        let n = storage.state->0;
                        assert(alpha_pixel_drawn(frame_before, geo, px as int, py as int, pixel_color) == frame_before);
                    }
                }
            }
        }
        i = i + 1;
    }
}

/// A line of text to draw with the font at (`x`, `y`), the top of its
/// line box, in `color` at `scale`.
#[derive(Clone, Copy, Debug)]
pub struct TextItem {
    pub x: usize,
    pub y: usize,
    pub text: &'static str,
    pub color: Color,
    pub scale: usize,
}

} // verus!
