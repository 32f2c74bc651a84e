//! The window manager: windows and the compositor that draws them.

pub mod compositor;
pub mod window;

pub use compositor::Compositor;
pub use window::Window;

use vstd::prelude::*;

verus! {

/// A compositor for a `width` by `height` screen.
pub fn init(width: usize, height: usize) -> (r: Compositor)
    requires
        width <= compositor::MAX_SCREEN_DIMENSION,
        height <= compositor::MAX_SCREEN_DIMENSION,
        width * height <= usize::MAX,
    ensures
        r.wf(),
        r.screen_width == width,
        r.screen_height == height,
        r.windows@.len() == 0,
        r.backbuffer@ == Seq::new((width * height) as nat, |i: int| compositor::DESKTOP_COLOR),
        r.cursor_drawn() is None,
        r.next_id() == 1,
{
    Compositor::init(width, height)
}

} // verus!
