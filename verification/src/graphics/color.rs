//! RGBA colours.

use vstd::prelude::*;

verus! {

/// An 8-bit-per-channel colour with alpha.
#[derive(Clone, Copy, Debug, PartialEq, Eq, Structural)]
pub struct Color {
    pub r: u8,
    pub g: u8,
    pub b: u8,
    pub a: u8,
}

impl Color {
    /// The palette colour black.
    pub fn black() -> (c: Color)
        ensures
            c == (Color { r: 0, g: 0, b: 0, a: 255 }),
    {
        Color { r: 0, g: 0, b: 0, a: 255 }
    }

    /// The palette colour white.
    pub fn white() -> (c: Color)
        ensures
            c == (Color { r: 245, g: 248, b: 255, a: 255 }),
    {
        Color { r: 245, g: 248, b: 255, a: 255 }
    }

    /// The palette colour text dim.
    pub fn text_dim() -> (c: Color)
        ensures
            c == (Color { r: 150, g: 165, b: 185, a: 255 }),
    {
        Color { r: 150, g: 165, b: 185, a: 255 }
    }

    /// The palette colour green.
    pub fn green() -> (c: Color)
        ensures
            c == (Color { r: 100, g: 255, b: 145, a: 255 }),
    {
        Color { r: 100, g: 255, b: 145, a: 255 }
    }

    /// The palette colour green dark.
    pub fn green_dark() -> (c: Color)
        ensures
            c == (Color { r: 35, g: 110, b: 65, a: 255 }),
    {
        Color { r: 35, g: 110, b: 65, a: 255 }
    }

    /// The palette colour blue.
    pub fn blue() -> (c: Color)
        ensures
            c == (Color { r: 100, g: 165, b: 255, a: 255 }),
    {
        Color { r: 100, g: 165, b: 255, a: 255 }
    }

    /// The palette colour cyan.
    pub fn cyan() -> (c: Color)
        ensures
            c == (Color { r: 80, g: 225, b: 255, a: 255 }),
    {
        Color { r: 80, g: 225, b: 255, a: 255 }
    }

    /// The palette colour purple.
    pub fn purple() -> (c: Color)
        ensures
            c == (Color { r: 175, g: 120, b: 255, a: 255 }),
    {
        Color { r: 175, g: 120, b: 255, a: 255 }
    }

    /// The palette colour panel.
    pub fn panel() -> (c: Color)
        ensures
            c == (Color { r: 20, g: 25, b: 35, a: 255 }),
    {
        Color { r: 20, g: 25, b: 35, a: 255 }
    }

    /// The palette colour panel light.
    pub fn panel_light() -> (c: Color)
        ensures
            c == (Color { r: 30, g: 37, b: 50, a: 255 }),
    {
        Color { r: 30, g: 37, b: 50, a: 255 }
    }

    /// The palette colour border.
    pub fn border() -> (c: Color)
        ensures
            c == (Color { r: 55, g: 70, b: 95, a: 255 }),
    {
        Color { r: 55, g: 70, b: 95, a: 255 }
    }

    /// The palette colour shadow.
    pub fn shadow() -> (c: Color)
        ensures
            c == (Color { r: 5, g: 7, b: 12, a: 255 }),
    {
        Color { r: 5, g: 7, b: 12, a: 255 }
    }

    /// This colour with its alpha replaced.
    pub fn with_alpha(self, a: u8) -> (r: Self)
        ensures
            r == (Color { a, ..self }),
    {
        Color { a, ..self }
    }
}

} // verus!
