use vstd::prelude::*;

verus! {

/// The size in pixels of one cell of the grid.
#[derive(Debug, Clone, Copy, PartialEq, Eq, Structural, Hash)]
pub struct CellSize {
    pub width: i32,
    pub height: i32,
}

impl CellSize {
    /// A usable cell size has a positive width and height.
    pub open spec fn wf(self) -> bool {
        self.width > 0 && self.height > 0
    }

    pub fn new(width: i32, height: i32) -> (r: Self)
        ensures
            r.width == width,
            r.height == height,
    {
        CellSize { width, height }
    }
}

} // verus!
