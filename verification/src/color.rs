use vstd::prelude::*;

verus! {

/// A pixel of the decoded raster: red, green, blue and alpha, eight bits each.
#[derive(Clone, Copy, Debug, PartialEq, Eq, Structural)]
pub struct Color {
    pub r: u8,
    pub g: u8,
    pub b: u8,
    pub a: u8,
}

impl Color {
    pub fn new(r: u8, g: u8, b: u8, a: u8) -> (color: Self)
        ensures
            color == (Color { r, g, b, a }),
    {
        Color { r: r, g: g, b: b, a: a }
    }

    /// The grey pixel of level `v`, fully opaque.
    pub open spec fn grey(v: u8) -> Color {
        Color { r: v, g: v, b: v, a: 255 }
    }

    /// Whether the three colour channels hold the same level.
    pub open spec fn is_grey(self) -> bool {
        self.r == self.g && self.g == self.b
    }
}

/// A pixel with sixteen bits for each channel, as the deepest formats store it.
#[derive(Clone, Copy, Debug, PartialEq, Eq, Structural)]
pub struct Color16 {
    pub r: u16,
    pub g: u16,
    pub b: u16,
    pub a: u16,
}

impl Color16 {
    pub fn new(r: u16, g: u16, b: u16, a: u16) -> (color: Self)
        ensures
            color == (Color16 { r, g, b, a }),
    {
        Color16 { r: r, g: g, b: b, a: a }
    }
}

} // verus!
