use vstd::prelude::*;

use super::cell_size::CellSize;

verus! {

/// A point in pixel coordinates, such as where the pointer is.
#[derive(Debug, Clone, Copy, PartialEq, Eq, Structural, Hash)]
pub struct Point {
    pub x: i32,
    pub y: i32,
}

/// An axis-aligned rectangle in pixel coordinates.
#[derive(Debug, Clone, Copy, PartialEq, Eq, Structural, Hash)]
pub struct Rect {
    pub x: i32,
    pub y: i32,
    pub w: i32,
    pub h: i32,
}

/// The size in pixels of the area that is drawn.
#[derive(Debug, Clone, Copy, PartialEq, Eq, Structural, Hash)]
pub struct Viewport {
    pub width: i32,
    pub height: i32,
}

/// A cell of the grid, by the pixel coordinates of its top-left corner.
///
/// Two positions are equal when their coordinates and their cell sizes are,
/// so positions of grids with different cell sizes never meet.
#[derive(Debug, Clone, Copy, PartialEq, Eq, Structural, Hash)]
pub struct GridPosition {
    pub cell_size: CellSize,
    pub x: i32,
    pub y: i32,
}

pub open spec fn fits_i32(v: int) -> bool {
    i32::MIN <= v <= i32::MAX
}

/// `a / d` rounded to the nearest integer, halves rounded up, for `a >= 0`.
pub open spec fn round_div_nonneg(a: int, d: int) -> int {
    if 2 * (a % d) >= d {
        a / d + 1
    } else {
        a / d
    }
}

/// `p / d` rounded to the nearest integer, halves rounded away from zero.
pub open spec fn round_div(p: int, d: int) -> int {
    if p >= 0 {
        round_div_nonneg(p, d)
    } else {
        -round_div_nonneg(-p, d)
    }
}

/// The lattice index of the cell nearest to the pixel coordinate `p`.
fn round_to_index(p: i32, d: i32) -> (r: i64)
    requires
        d > 0,
    ensures
        r == round_div(p as int, d as int),
{
    let a: u64 = if p >= 0 {
        p as u64
    } else {
        (-(p as i64)) as u64
    };
    let w: u64 = d as u64;
    let q: u64 = a / w;
    let rem: u64 = a % w;
    proof {
        assert(q <= a) by (nonlinear_arith)
            requires
                q == a / w,
                w > 0,
        ;
    }
    let n: i64 = if 2 * rem >= w {
        (q + 1) as i64
    } else {
        q as i64
    };
    if p >= 0 {
        n
    } else {
        -n
    }
}

impl GridPosition {
    /// The position of lattice cell `(x, y)`.
    pub open spec fn at_lattice(x: int, y: int, cell_size: CellSize) -> GridPosition {
        GridPosition {
            cell_size,
            x: (x * cell_size.width) as i32,
            y: (y * cell_size.height) as i32,
        }
    }

    /// Whether this position lies outside `viewport`: the cell's whole
    /// footprint must stay within it.
    pub open spec fn offscreen(self, viewport: Viewport) -> bool {
        ||| self.x < 0
        ||| self.x > viewport.width - self.cell_size.width
        ||| self.y < 0
        ||| self.y > viewport.height - self.cell_size.height
    }

    /// The position of lattice cell `(x, y)` of a grid of `cell_size`.
    pub fn new(x: i32, y: i32, cell_size: CellSize) -> (r: Self)
        requires
            fits_i32(x * cell_size.width),
            fits_i32(y * cell_size.height),
        ensures
            r == Self::at_lattice(x as int, y as int, cell_size),
    {
        let x = x * cell_size.width;
        let y = y * cell_size.height;
        GridPosition { cell_size, x, y }
    }

    /// The cell nearest to a point in pixel coordinates.
    pub fn from_vec2(point: Point, cell_size: CellSize) -> (r: Self)
        requires
            cell_size.wf(),
            fits_i32(round_div(point.x as int, cell_size.width as int) * cell_size.width),
            fits_i32(round_div(point.y as int, cell_size.height as int) * cell_size.height),
        ensures
            r == Self::at_lattice(
                round_div(point.x as int, cell_size.width as int),
                round_div(point.y as int, cell_size.height as int),
                cell_size,
            ),
    {
        let i = round_to_index(point.x, cell_size.width);
        let j = round_to_index(point.y, cell_size.height);
        proof {
            let w = cell_size.width as int;
            let h = cell_size.height as int;
            assert(fits_i32(i as int)) by (nonlinear_arith)
                requires
                    fits_i32(i * w),
                    w >= 1,
            ;
            assert(fits_i32(j as int)) by (nonlinear_arith)
                requires
                    fits_i32(j * h),
                    h >= 1,
            ;
        }
        Self::new(i as i32, j as i32, cell_size)
    }

    /// The top-left corner in pixel coordinates.
    pub fn as_vec2(&self) -> (r: Point)
        ensures
            r == (Point { x: self.x, y: self.y }),
    {
        Point { x: self.x, y: self.y }
    }

    /// The pixel rectangle that the cell covers.
    pub fn as_rect(&self) -> (r: Rect)
        ensures
            r == (Rect { x: self.x, y: self.y, w: self.cell_size.width, h: self.cell_size.height }),
    {
        Rect { x: self.x, y: self.y, w: self.cell_size.width, h: self.cell_size.height }
    }

    /// Whether this position is one of `blocks`.
    pub fn is_occupied(&self, blocks: &Vec<GridPosition>) -> (r: bool)
        ensures
            r == blocks@.contains(*self),
    {
        let mut i: usize = 0;
        while i < blocks.len()
            invariant
                i <= blocks@.len(),
                forall|k: int| 0 <= k < i ==> blocks@[k] != *self,
            decreases blocks@.len() - i,
        {
            if blocks[i] == *self {
                return true;
            }
            i = i + 1;
        }
        false
    }

    /// Whether this position lies outside `viewport`.
    pub fn is_offscreen(&self, viewport: Viewport) -> (r: bool)
        ensures
            r == self.offscreen(viewport),
    {
        let right = viewport.width as i64 - self.cell_size.width as i64;
        let bottom = viewport.height as i64 - self.cell_size.height as i64;
        let x = self.x as i64;
        let y = self.y as i64;
        x < 0 || x > right || y < 0 || y > bottom
    }

    /// The sum of two positions, keeping this one's cell size.
    pub fn add(self, other: Self) -> (r: Self)
        requires
            fits_i32(self.x + other.x),
            fits_i32(self.y + other.y),
        ensures
            r.cell_size == self.cell_size,
            r.x == self.x + other.x,
            r.y == self.y + other.y,
    {
        GridPosition { cell_size: self.cell_size, x: self.x + other.x, y: self.y + other.y }
    }

    /// Adds `other` to this position in place.
    pub fn add_assign(&mut self, other: Self)
        requires
            fits_i32(old(self).x + other.x),
            fits_i32(old(self).y + other.y),
        ensures
            final(self).cell_size == old(self).cell_size,
            final(self).x == old(self).x + other.x,
            final(self).y == old(self).y + other.y,
    {
        self.x = self.x + other.x;
        self.y = self.y + other.y;
    }

    /// The coordinate-wise product of two positions, keeping this one's cell size.
    pub fn mul(self, other: Self) -> (r: Self)
        requires
            fits_i32(self.x * other.x),
            fits_i32(self.y * other.y),
        ensures
            r.cell_size == self.cell_size,
            r.x == self.x * other.x,
            r.y == self.y * other.y,
    {
        GridPosition { cell_size: self.cell_size, x: self.x * other.x, y: self.y * other.y }
    }

    /// The cell nearest to a point, or `None` where that cell's coordinates
    /// do not fit in `i32`.
    pub fn try_from_vec2(point: Point, cell_size: CellSize) -> (r: Option<Self>)
        requires
            cell_size.wf(),
        ensures
            r is Some <==> fits_i32(round_div(point.x as int, cell_size.width as int) * cell_size.width)
                && fits_i32(round_div(point.y as int, cell_size.height as int) * cell_size.height),
            r is Some ==> r.unwrap() == Self::at_lattice(
                round_div(point.x as int, cell_size.width as int),
                round_div(point.y as int, cell_size.height as int),
                cell_size,
            ),
    {
        let i = round_to_index(point.x, cell_size.width);
        let j = round_to_index(point.y, cell_size.height);
        proof {
            let w = cell_size.width as int;
            let h = cell_size.height as int;
            assert(-0x8000_0000 <= i <= 0x8000_0000);
            assert(-0x8000_0000 <= j <= 0x8000_0000);
            assert(-0x4000_0000_0000_0000 <= i * w <= 0x4000_0000_0000_0000) by (nonlinear_arith)
                requires
                    -0x8000_0000 <= i <= 0x8000_0000,
                    0 < w <= 0x7fff_ffff,
            ;
            assert(-0x4000_0000_0000_0000 <= j * h <= 0x4000_0000_0000_0000) by (nonlinear_arith)
                requires
                    -0x8000_0000 <= j <= 0x8000_0000,
                    0 < h <= 0x7fff_ffff,
            ;
        }
        let x = i * cell_size.width as i64;
        let y = j * cell_size.height as i64;
        if x < i32::MIN as i64 || x > i32::MAX as i64 || y < i32::MIN as i64 || y > i32::MAX as i64 {
            return None;
        }
        Some(Self::from_vec2(point, cell_size))
    }
}

} // verus!
