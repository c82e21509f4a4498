use vstd::prelude::*;

use super::grid_position::GridPosition;

verus! {

/// A colour with red, green, blue and alpha channels.
#[derive(Debug, Clone, Copy, PartialEq, Eq, Structural, Hash)]
pub struct Color {
    pub r: u8,
    pub g: u8,
    pub b: u8,
    pub a: u8,
}

/// The opaque colour with the given channels.
pub open spec fn rgb(r: u8, g: u8, b: u8) -> Color {
    Color { r, g, b, a: 255 }
}

impl Color {
    pub fn from_rgb(r: u8, g: u8, b: u8) -> (c: Color)
        ensures
            c == rgb(r, g, b),
    {
        Color { r, g, b, a: 255 }
    }

    pub fn black() -> (c: Color)
        ensures
            c == rgb(0, 0, 0),
    {
        Color::from_rgb(0, 0, 0)
    }

    pub fn red() -> (c: Color)
        ensures
            c == rgb(255, 0, 0),
    {
        Color::from_rgb(255, 0, 0)
    }
}

/// One filled cell: where it is and how it is drawn.
#[derive(Debug, Clone, Copy, PartialEq, Eq, Structural, Hash)]
pub struct Pixel {
    pub position: GridPosition,
    pub color: Color,
}

impl Pixel {
    pub fn new(position: GridPosition, color: Color) -> (r: Self)
        ensures
            r == (Pixel { position, color }),
    {
        Pixel { position, color }
    }
}

} // verus!
