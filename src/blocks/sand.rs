use vstd::prelude::*;

use crate::components::cell_size::CellSize;
use crate::components::directions::Direction;
use crate::components::grid_position::{GridPosition, Viewport};
use crate::components::pixel::{rgb, Color, Pixel};

use super::block::{
    distinct_positions, find_block, gravity_target, position_taken, slide_target, Block, Material,
};

verus! {

/// Relies on `rand::random::<bool>`: a fair coin drawn from the thread-local
/// generator. Nothing is promised of the value.
#[verifier::external_body]
pub(crate) fn random_bool() -> (r: bool) {
    rand::random::<bool>()
}

/// Sand falls while the cell below is free, and at rest slides down a free
/// diagonal. It is drawn red while falling and black at rest.
#[derive(Debug, Clone, Copy, PartialEq, Eq, Structural, Hash)]
pub struct Sand {
    pub pixel: Pixel,
    pub falling: bool,
}

impl Sand {
    /// Newly placed sand: black, and falling until its first gravity step.
    pub open spec fn fresh(position: GridPosition) -> Sand {
        Sand { pixel: Pixel { position, color: rgb(0, 0, 0) }, falling: true }
    }

    pub open spec fn after_gravity(
        self,
        viewport: Viewport,
        blocks: Seq<Material>,
        cell_size: CellSize,
    ) -> Sand {
        match gravity_target(self.pixel.position, blocks, viewport, cell_size) {
            Some(t) => Sand { pixel: Pixel { position: t, color: rgb(255, 0, 0) }, falling: true },
            None => Sand {
                pixel: Pixel { position: self.pixel.position, color: rgb(0, 0, 0) },
                falling: false,
            },
        }
    }

    pub open spec fn after_motion(
        self,
        viewport: Viewport,
        blocks: Seq<Material>,
        cell_size: CellSize,
        go_left: bool,
    ) -> Sand {
        if self.falling {
            self
        } else {
            match slide_target(self.pixel.position, blocks, viewport, cell_size, go_left) {
                Some(t) => Sand { pixel: Pixel { position: t, color: self.pixel.color }, falling: false },
                None => self,
            }
        }
    }

    /// The motion step with the choice between two open diagonals given:
    /// `go_left` takes the bottom-left one.
    pub fn apply_motion_with(
        &mut self,
        viewport: Viewport,
        blocks: &Vec<Material>,
        cell_size: CellSize,
        go_left: bool,
    )
        requires
            cell_size.wf(),
            old(self).pixel.position.neighbours_fit(cell_size),
            distinct_positions(blocks@),
        ensures
            *final(self) == old(self).after_motion(viewport, blocks@, cell_size, go_left),
    {
        if self.falling {
            return ;
        }
        let position = self.pixel.position;
        let bottom = position.neighbour_in(Direction::Bottom, cell_size);
        match find_block(blocks, bottom) {
            None => {
                return ;
            },
            Some(below) => {
                if below.is_falling() {
                    return ;
                }
            },
        }
        let left = self.offset_bottom_left(cell_size);
        let right = self.offset_bottom_right(cell_size);
        let left_empty = !position_taken(blocks, left);
        let right_empty = !position_taken(blocks, right);
        let next_position: GridPosition;
        if left_empty && right_empty {
            if go_left {
                next_position = left;
            } else {
                next_position = right;
            }
        } else if left_empty {
            next_position = left;
        } else if right_empty {
            next_position = right;
        } else {
            return ;
        }
        if position_taken(blocks, next_position) || next_position.is_offscreen(viewport) {
            return ;
        }
        self.set_position(next_position);
    }
}

impl Block for Sand {
    open spec fn pixel_spec(&self) -> Pixel {
        self.pixel
    }

    open spec fn falling_spec(&self) -> bool {
        self.falling
    }

    fn new(position: GridPosition) -> (r: Self)
        ensures
            r == Sand::fresh(position),
    {
        Sand { pixel: Pixel::new(position, Color::black()), falling: true }
    }

    fn get_pixel(&self) -> (r: &Pixel) {
        &self.pixel
    }

    fn set_position(&mut self, position: GridPosition) {
        self.pixel.position = position;
    }

    fn get_position(&self) -> (r: GridPosition) {
        self.pixel.position
    }

    fn is_falling(&self) -> (r: bool) {
        self.falling
    }

    fn apply_gravity(&mut self, viewport: Viewport, blocks: &Vec<Material>, cell_size: CellSize)
        ensures
            *final(self) == old(self).after_gravity(viewport, blocks@, cell_size),
    {
        let next_position = self.should_apply_gravity(viewport, blocks, cell_size);
        match next_position {
            Some(position) => {
                self.falling = true;
                self.set_position(position);
            },
            None => {
                self.falling = false;
            },
        }
        if self.falling {
            self.pixel.color = Color::red();
        } else {
            self.pixel.color = Color::black();
        }
    }

    fn apply_motion(&mut self, viewport: Viewport, blocks: &Vec<Material>, cell_size: CellSize)
        ensures
            exists|go_left: bool|
                *final(self) == old(self).after_motion(viewport, blocks@, cell_size, go_left),
    {
        let go_left = random_bool();
        self.apply_motion_with(viewport, blocks, cell_size, go_left);
    }
}

} // verus!
