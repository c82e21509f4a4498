use vstd::prelude::*;

use super::cell_size::CellSize;
use super::grid_position::GridPosition;

verus! {

/// The eight neighbours of a cell, and the cell itself (`Middle`).
///
/// ```text
/// TopLeft    | Top    | TopRight
/// Left       | Middle | Right
/// BottomLeft | Bottom | BottomRight
/// ```
#[derive(Debug, Clone, Copy, PartialEq, Eq, Structural, Hash)]
pub enum Direction {
    TopLeft,
    Top,
    TopRight,
    Left,
    Middle,
    Right,
    BottomLeft,
    Bottom,
    BottomRight,
}

impl Direction {
    /// Horizontal step in cells: -1 to the left, 1 to the right.
    pub open spec fn dx(self) -> int {
        match self {
            Direction::TopLeft | Direction::Left | Direction::BottomLeft => -1,
            Direction::Top | Direction::Middle | Direction::Bottom => 0,
            Direction::TopRight | Direction::Right | Direction::BottomRight => 1,
        }
    }

    /// Vertical step in cells: -1 up, 1 down (pixel rows grow downwards).
    pub open spec fn dy(self) -> int {
        match self {
            Direction::TopLeft | Direction::Top | Direction::TopRight => -1,
            Direction::Left | Direction::Middle | Direction::Right => 0,
            Direction::BottomLeft | Direction::Bottom | Direction::BottomRight => 1,
        }
    }

    /// The offset of this neighbour for cells of `cell_size`.
    pub open spec fn offset(self, cell_size: CellSize) -> GridPosition {
        GridPosition::at_lattice(self.dx(), self.dy(), cell_size)
    }

    /// An offset moves at most one cell along each axis.
    pub proof fn lemma_offset_bounds(self, cell_size: CellSize)
        requires
            cell_size.wf(),
        ensures
            -cell_size.width <= self.dx() * cell_size.width <= cell_size.width,
            -cell_size.height <= self.dy() * cell_size.height <= cell_size.height,
            self.offset(cell_size).x == self.dx() * cell_size.width,
            self.offset(cell_size).y == self.dy() * cell_size.height,
    {
    }

    /// The offset of this neighbour for cells of `cell_size`. The cell has no
    /// offset from itself, so `Middle` is not asked for.
    pub fn get_offset(&self, cell_size: CellSize) -> (r: GridPosition)
        requires
            *self != Direction::Middle,
            cell_size.wf(),
        ensures
            r == self.offset(cell_size),
    {
        match self {
            Direction::TopLeft => GridPosition::new(-1, -1, cell_size),
            Direction::Top => GridPosition::new(0, -1, cell_size),
            Direction::TopRight => GridPosition::new(1, -1, cell_size),
            Direction::Left => GridPosition::new(-1, 0, cell_size),
            Direction::Right => GridPosition::new(1, 0, cell_size),
            Direction::BottomLeft => GridPosition::new(-1, 1, cell_size),
            Direction::Bottom => GridPosition::new(0, 1, cell_size),
            Direction::BottomRight => GridPosition::new(1, 1, cell_size),
            Direction::Middle => GridPosition::new(0, 0, cell_size),
        }
    }

    /// The eight neighbours, row by row from the top left.
    pub open spec fn neighbours_spec() -> Seq<Direction> {
        seq![
            Direction::TopLeft,
            Direction::Top,
            Direction::TopRight,
            Direction::Left,
            Direction::Right,
            Direction::BottomLeft,
            Direction::Bottom,
            Direction::BottomRight,
        ]
    }

    /// The eight neighbours, row by row from the top left.
    pub fn neighbours() -> (r: Vec<Direction>)
        ensures
            r@ == Self::neighbours_spec(),
    {
        vec![
            Direction::TopLeft,
            Direction::Top,
            Direction::TopRight,
            Direction::Left,
            Direction::Right,
            Direction::BottomLeft,
            Direction::Bottom,
            Direction::BottomRight,
        ]
    }
}

impl GridPosition {
    /// The neighbour of this position in direction `d`, for cells of `cell_size`.
    pub open spec fn neighbour(self, d: Direction, cell_size: CellSize) -> GridPosition {
        GridPosition {
            cell_size: self.cell_size,
            x: (self.x + d.dx() * cell_size.width) as i32,
            y: (self.y + d.dy() * cell_size.height) as i32,
        }
    }

    /// The neighbours of this position, one cell of `cell_size` away, all
    /// have coordinates that fit in `i32`.
    pub open spec fn neighbours_fit(self, cell_size: CellSize) -> bool {
        &&& i32::MIN <= self.x - cell_size.width
        &&& self.x + cell_size.width <= i32::MAX
        &&& i32::MIN <= self.y - cell_size.height
        &&& self.y + cell_size.height <= i32::MAX
    }

    /// The neighbour of this position in direction `d`.
    pub fn neighbour_in(self, d: Direction, cell_size: CellSize) -> (r: GridPosition)
        requires
            d != Direction::Middle,
            cell_size.wf(),
            self.neighbours_fit(cell_size),
        ensures
            r == self.neighbour(d, cell_size),
    {
        let offset = d.get_offset(cell_size);
        proof {
            d.lemma_offset_bounds(cell_size);
        }
        self.add(offset)
    }
}

} // verus!
