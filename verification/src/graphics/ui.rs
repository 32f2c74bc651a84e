//! The static desktop picture: a vertical gradient with scanlines and a
//! centred panel, built once into the base buffer.

use vstd::prelude::*;
use crate::graphics::buffer::{begin_frame, copy_bytes, Geometry, GraphicsStorage};
use crate::graphics::color::Color;
use crate::graphics::draw::{
    border_drawn,
    byte_in_rect,
    channel_value,
    draw_border,
    draw_rect,
    rect_drawn,
};

verus! {

/// How far down the gradient row `y` of `height` rows is, 0 to 255.
pub open spec fn gradient_level(y: int, height: int) -> int {
    if height > 1 {
        y * 255 / (height - 1)
    } else {
        0
    }
}

/// The colour of background row `y`: every fourth row a scanline, the
/// others a dark blue gradient brightening downwards.
pub open spec fn background_color(y: int, height: int) -> Color {
    if y % 4 == 0 {
        Color { r: 20, g: 25, b: 40, a: 255 }
    } else {
        let t = gradient_level(y, height);
        Color { r: (7 + t / 14) as u8, g: (9 + t / 12) as u8, b: (18 + t / 4) as u8, a: 255 }
    }
}

/// `frame` with every screen row in its background colour.
pub open spec fn background_drawn(frame: Seq<u8>, b: Geometry) -> Seq<u8> {
    Seq::new(
        frame.len(),
        |k: int|
            if byte_in_rect(b, k, 0, 0, b.width as int, b.height as int) {
                channel_value(
                    b.pixel_format,
                    background_color((k / (b.bytes_per_pixel as int)) / (b.stride as int), b.height as int),
                    k % (b.bytes_per_pixel as int),
                )
            } else {
                frame[k]
            },
    )
}

/// The panel's size along a screen side of `side` pixels: three quarters
/// of it, or ten pixels less on a small screen.
pub open spec fn panel_extent(side: int) -> int {
    if side > 100 {
        side * 3 / 4
    } else if side >= 10 {
        side - 10
    } else {
        0
    }
}

/// `frame` with the panel drawn: its shadow, body, top highlight and
/// border, the cyan and purple accent stripe and three status lights.
pub open spec fn panel_drawn(frame: Seq<u8>, b: Geometry) -> Seq<u8> {
    let w = panel_extent(b.width as int);
    let h = panel_extent(b.height as int);
    let x = (b.width - w) / 2;
    let y = (b.height - h) / 2;
    let accent = if w < 180 {
        w
    } else {
        180
    };
    let shadow = rect_drawn(frame, b, x + 4, y + 4, w, h, Color { r: 5, g: 7, b: 12, a: 255 });
    let body = rect_drawn(shadow, b, x, y, w, h, Color { r: 20, g: 25, b: 35, a: 255 });
    let light = rect_drawn(body, b, x, y, w, 2, Color { r: 30, g: 37, b: 50, a: 255 });
    let bordered = border_drawn(light, b, x, y, w, h, Color { r: 55, g: 70, b: 95, a: 255 });
    let cyan = rect_drawn(bordered, b, x, y, accent, 3, Color { r: 80, g: 225, b: 255, a: 255 });
    let purple = rect_drawn(cyan, b, x + accent, y, w - accent, 3, Color { r: 175, g: 120, b: 255, a: 255 });
    let led1 = rect_drawn(purple, b, x + 12, y + 14, 4, 4, Color { r: 100, g: 255, b: 145, a: 255 });
    let led2 = rect_drawn(led1, b, x + 20, y + 14, 4, 4, Color { r: 80, g: 225, b: 255, a: 255 });
    rect_drawn(led2, b, x + 28, y + 14, 4, 4, Color { r: 175, g: 120, b: 255, a: 255 })
}

/// Paints every row of the frame in its background colour.
fn draw_background(storage: &mut GraphicsStorage)
    requires
        old(storage).wf(),
        old(storage).state matches Some(b) ==> b.height * 255 <= usize::MAX,
    ensures
        final(storage).wf(),
        match old(storage).state {
            Some(b) => final(storage).state matches Some(n) && n.frame@ == background_drawn(b.frame@, b.geometry()) && n.base
                == b.base && n.width == b.width && n.height == b.height && n.stride == b.stride && n.bytes_per_pixel
                == b.bytes_per_pixel && n.pixel_format == b.pixel_format,
            None => final(storage).state is None,
        },
{
    let ghost g = match old(storage).state {
        Some(b) => b,
        None => arbitrary(),
    };
    if storage.state.is_none() {
        return;
    }
    let width = crate::graphics::buffer::width(storage);
    let height = crate::graphics::buffer::height(storage);
    let ghost original = g.frame@;
    let ghost bpp = g.bytes_per_pixel as int;
    let ghost stride = g.stride as int;
    let mut y: usize = 0;
    while y < height
        invariant
            y <= height,
            old(storage).state == Some(g),
            bpp == g.bytes_per_pixel as int,
            stride == g.stride as int,
            original == g.frame@,
            width == g.width,
            height == g.height,
            height * 255 <= usize::MAX,
            storage.wf(),
            storage.state matches Some(n) && n.base == g.base && n.width == g.width && n.height == g.height
                && n.stride == g.stride && n.bytes_per_pixel == g.bytes_per_pixel && n.pixel_format == g.pixel_format
                && n.frame@ == Seq::new(
                original.len(),
                |k: int|
                    if byte_in_rect(g.geometry(), k, 0, 0, width as int, y as int) {
                        channel_value(
                            g.pixel_format,
                            background_color((k / bpp) / stride, height as int),
                            k % bpp,
                        )
                    } else {
                        original[k]
                    },
            ),
        decreases height - y,
    {
        let color = if y % 4 == 0 {
            Color { r: 20, g: 25, b: 40, a: 255 }
        } else {
            let t: usize = if height > 1 {
                proof {
                    assert(y * 255 / (height - 1) <= 255) by (nonlinear_arith)
                        requires
                            y < height,
                            height > 1,
                    ;
                }
                y * 255 / (height - 1)
            } else {
                0
            };
            let level = t as u8;
            Color {
                r: 7u8.saturating_add(level / 14),
                g: 9u8.saturating_add(level / 12),
                b: 18u8.saturating_add(level / 4),
                a: 255,
            }
        };
        proof {
            assert(color == background_color(y as int, height as int));
        }
        let ghost before = storage.state->0.frame@;
        proof {
            assert(storage.state->0.geometry() == g.geometry());
        }
        draw_rect(storage, 0, y, width, 1, color);
        proof {
            let n = storage.state->0;
            let geo = g.geometry();
            assert(n.frame@ == rect_drawn(before, geo, 0, y as int, width as int, 1, color));
            assert forall|k: int| 0 <= k < original.len() implies #[trigger] n.frame@[k] == (if byte_in_rect(
                geo,
                k,
                0,
                0,
                width as int,
                y + 1,
            ) {
                channel_value(g.pixel_format, background_color((k / bpp) / stride, height as int), k % bpp)
            } else {
                original[k]
            }) by {
                if width > 0 && byte_in_rect(geo, k, 0, y as int, width as int, y + 1) {
                    assert((k / bpp) / stride == y);
                }
            }
            assert(n.frame@ =~= Seq::new(
                original.len(),
                |k: int|
                    if byte_in_rect(geo, k, 0, 0, width as int, y + 1) {
                        channel_value(
                            g.pixel_format,
                            background_color((k / bpp) / stride, height as int),
                            k % bpp,
                        )
                    } else {
                        original[k]
                    },
            ));
        }
        y = y + 1;
    }
    proof {
        assert(storage.state->0.frame@ =~= background_drawn(original, g.geometry()));
    }
}

/// Draws the panel into the frame.
fn draw_panel(storage: &mut GraphicsStorage)
    requires
        old(storage).wf(),
        old(storage).state matches Some(b) ==> b.width * 3 <= usize::MAX && b.height * 3 <= usize::MAX,
    ensures
        final(storage).wf(),
        match old(storage).state {
            Some(b) => final(storage).state matches Some(n) && n.frame@ == panel_drawn(b.frame@, b.geometry()) && n.base
                == b.base && n.width == b.width && n.height == b.height && n.stride == b.stride && n.bytes_per_pixel
                == b.bytes_per_pixel && n.pixel_format == b.pixel_format,
            None => final(storage).state is None,
        },
{
    if storage.state.is_none() {
        return;
    }
    let width = crate::graphics::buffer::width(storage);
    let height = crate::graphics::buffer::height(storage);
    let panel_width = if width > 100 {
        (width * 3) / 4
    } else {
        width.saturating_sub(10)
    };
    let panel_height = if height > 100 {
        (height * 3) / 4
    } else {
        height.saturating_sub(10)
    };
    let panel_x = width.saturating_sub(panel_width) / 2;
    let panel_y = height.saturating_sub(panel_height) / 2;
    proof {
        assert(panel_width <= width && panel_height <= height);
    }
    draw_rect(storage, panel_x + 4, panel_y + 4, panel_width, panel_height, Color::shadow());
    draw_rect(storage, panel_x, panel_y, panel_width, panel_height, Color::panel());
    draw_rect(storage, panel_x, panel_y, panel_width, 2, Color::panel_light());
    draw_border(storage, panel_x, panel_y, panel_width, panel_height, Color::border());
    let accent_width = if panel_width < 180 {
        panel_width
    } else {
        180
    };
    draw_rect(storage, panel_x, panel_y, accent_width, 3, Color::cyan());
    draw_rect(storage, panel_x + accent_width, panel_y, panel_width - accent_width, 3, Color::purple());
    let led_y = panel_y + 14;
    draw_rect(storage, panel_x + 12, led_y, 4, 4, Color::green());
    draw_rect(storage, panel_x + 20, led_y, 4, 4, Color::cyan());
    draw_rect(storage, panel_x + 28, led_y, 4, 4, Color::purple());
}

/// Builds the base picture: the background gradient with its scanlines,
/// then the panel over it; afterwards frame and base both hold it.
pub fn build_base(storage: &mut GraphicsStorage)
    requires
        old(storage).wf(),
        old(storage).state matches Some(b) ==> b.width * 3 <= usize::MAX && b.height * 255 <= usize::MAX,
    ensures
        final(storage).wf(),
        match old(storage).state {
            Some(b) => final(storage).state matches Some(n) && n.frame@ == panel_drawn(background_drawn(b.base@, b.geometry()), b.geometry())
                && n.base@ == n.frame@ && n.width == b.width && n.height == b.height && n.stride == b.stride
                && n.bytes_per_pixel == b.bytes_per_pixel && n.pixel_format == b.pixel_format,
            None => final(storage).state is None,
        },
{
    begin_frame(storage);
    draw_background(storage);
    draw_panel(storage);
    match storage.state.take() {
        Some(mut b) => {
            copy_bytes(&mut b.base, &b.frame);
            storage.state = Some(b);
        },
        None => {},
    }
}

/// Where the panel lies on a `width` by `height` screen: its left and
/// top edges, width and height, centred.
pub open spec fn panel_bounds_of(width: int, height: int) -> (int, int, int, int) {
    let w = panel_extent(width);
    let h = panel_extent(height);
    ((width - w) / 2, (height - h) / 2, w, h)
}

/// The panel's bounds on a `width` by `height` screen.
pub fn panel_bounds(width: usize, height: usize) -> (r: (usize, usize, usize, usize))
    requires
        width * 3 <= usize::MAX,
        height * 3 <= usize::MAX,
    ensures
        (r.0 as int, r.1 as int, r.2 as int, r.3 as int) == panel_bounds_of(width as int, height as int),
        r.0 + r.2 <= width,
        r.1 + r.3 <= height,
{
    let panel_width = if width > 100 {
        (width * 3) / 4
    } else {
        width.saturating_sub(10)
    };
    let panel_height = if height > 100 {
        (height * 3) / 4
    } else {
        height.saturating_sub(10)
    };
    let panel_x = (width - panel_width) / 2;
    let panel_y = (height - panel_height) / 2;
    (panel_x, panel_y, panel_width, panel_height)
}

} // verus!
