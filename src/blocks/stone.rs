use vstd::prelude::*;

use crate::components::cell_size::CellSize;
use crate::components::grid_position::{GridPosition, Viewport};
use crate::components::pixel::{rgb, Color, Pixel};

use super::block::{Block, Material};

verus! {

/// Stone never moves and is never falling.
#[derive(Debug, Clone, Copy, PartialEq, Eq, Structural, Hash)]
pub struct Stone {
    pub pixel: Pixel,
    pub falling: bool,
}

impl Stone {
    /// Newly placed stone: grey and at rest.
    pub open spec fn fresh(position: GridPosition) -> Stone {
        Stone { pixel: Pixel { position, color: rgb(98, 95, 89) }, falling: false }
    }
}

impl Block for Stone {
    open spec fn pixel_spec(&self) -> Pixel {
        self.pixel
    }

    open spec fn falling_spec(&self) -> bool {
        self.falling
    }

    fn new(position: GridPosition) -> (r: Self)
        ensures
            r == Stone::fresh(position),
    {
        Stone { pixel: Pixel::new(position, Color::from_rgb(98, 95, 89)), falling: false }
    }

    fn get_pixel(&self) -> (r: &Pixel) {
        &self.pixel
    }

    fn set_position(&mut self, position: GridPosition) {
        self.pixel.position = position;
    }

    fn get_position(&self) -> (r: GridPosition) {
        self.pixel.position
    }

    fn is_falling(&self) -> (r: bool) {
        self.falling
    }

    fn apply_gravity(&mut self, _viewport: Viewport, _blocks: &Vec<Material>, _cell_size: CellSize)
        ensures
            *final(self) == *old(self),
    {
    }

    fn apply_motion(&mut self, _viewport: Viewport, _blocks: &Vec<Material>, _cell_size: CellSize)
        ensures
            *final(self) == *old(self),
    {
    }
}

} // verus!
