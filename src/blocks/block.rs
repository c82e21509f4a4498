use vstd::prelude::*;

use crate::components::block_types::BlockType;
use crate::components::cell_size::CellSize;
use crate::components::directions::Direction;
use crate::components::grid_position::{GridPosition, Viewport};
use crate::components::pixel::Pixel;

use super::sand::Sand;
use super::stone::Stone;

verus! {

/// A material in a cell of the grid.
#[derive(Debug, Clone, Copy, PartialEq, Eq, Structural, Hash)]
pub enum Material {
    Sand(Sand),
    Stone(Stone),
}

impl Material {
    pub open spec fn pixel_of(self) -> Pixel {
        match self {
            Material::Sand(s) => s.pixel,
            Material::Stone(s) => s.pixel,
        }
    }

    pub open spec fn position_of(self) -> GridPosition {
        self.pixel_of().position
    }

    pub open spec fn falling_of(self) -> bool {
        match self {
            Material::Sand(s) => s.falling,
            Material::Stone(s) => s.falling,
        }
    }

    pub open spec fn kind_of(self) -> BlockType {
        match self {
            Material::Sand(_) => BlockType::Sand,
            Material::Stone(_) => BlockType::Stone,
        }
    }

    /// A freshly placed material of `kind` at `position`.
    pub open spec fn spawned(kind: BlockType, position: GridPosition) -> Material
        recommends
            kind.is_material(),
    {
        match kind {
            BlockType::Stone => Material::Stone(Stone::fresh(position)),
            _ => Material::Sand(Sand::fresh(position)),
        }
    }

    /// The material after one tick's gravity and motion against `blocks`;
    /// `go_left` picks the diagonal when both are open.
    pub open spec fn stepped(
        self,
        viewport: Viewport,
        blocks: Seq<Material>,
        cell_size: CellSize,
        go_left: bool,
    ) -> Material {
        match self {
            Material::Sand(s) => Material::Sand(
                s.after_gravity(viewport, blocks, cell_size).after_motion(
                    viewport,
                    blocks,
                    cell_size,
                    go_left,
                ),
            ),
            Material::Stone(s) => Material::Stone(s),
        }
    }

    pub fn new(kind: BlockType, position: GridPosition) -> (r: Material)
        requires
            kind.is_material(),
        ensures
            r == Material::spawned(kind, position),
    {
        match kind {
            BlockType::Stone => Material::Stone(Stone::new(position)),
            _ => Material::Sand(Sand::new(position)),
        }
    }

    pub fn get_pixel(&self) -> (r: Pixel)
        ensures
            r == self.pixel_of(),
    {
        match self {
            Material::Sand(s) => s.pixel,
            Material::Stone(s) => s.pixel,
        }
    }

    pub fn get_position(&self) -> (r: GridPosition)
        ensures
            r == self.position_of(),
    {
        match self {
            Material::Sand(s) => s.pixel.position,
            Material::Stone(s) => s.pixel.position,
        }
    }

    pub fn is_falling(&self) -> (r: bool)
        ensures
            r == self.falling_of(),
    {
        match self {
            Material::Sand(s) => s.falling,
            Material::Stone(s) => s.falling,
        }
    }

    /// Gravity, then (for a material at rest) motion, against the snapshot
    /// `blocks`.
    pub fn step(&mut self, viewport: Viewport, blocks: &Vec<Material>, cell_size: CellSize, go_left: bool)
        requires
            cell_size.wf(),
            old(self).position_of().neighbours_fit(cell_size),
            distinct_positions(blocks@),
        ensures
            *final(self) == old(self).stepped(viewport, blocks@, cell_size, go_left),
    {
        match self {
            Material::Sand(s) => {
                s.apply_gravity(viewport, blocks, cell_size);
                if !s.falling {
                    s.apply_motion_with(viewport, blocks, cell_size, go_left);
                }
            },
            Material::Stone(s) => {
                s.apply_gravity(viewport, blocks, cell_size);
                s.apply_motion(viewport, blocks, cell_size);
            },
        }
    }
}

/// Whether some material of `blocks` is at `p`.
pub open spec fn occupied(blocks: Seq<Material>, p: GridPosition) -> bool {
    exists|i: int| 0 <= i < blocks.len() && #[trigger] blocks[i].position_of() == p
}

/// No two materials of `blocks` share a position.
pub open spec fn distinct_positions(blocks: Seq<Material>) -> bool {
    forall|i: int, j: int|
        0 <= i < blocks.len() && 0 <= j < blocks.len() && i != j ==> #[trigger] blocks[i].position_of()
            != #[trigger] blocks[j].position_of()
}

/// The material at `p`, if any.
pub open spec fn block_at(blocks: Seq<Material>, p: GridPosition) -> Option<Material> {
    if occupied(blocks, p) {
        Some(blocks[choose|i: int| 0 <= i < blocks.len() && #[trigger] blocks[i].position_of() == p])
    } else {
        None
    }
}

/// Where a material at `p` falls to: the cell below, if that is free and on screen.
pub open spec fn gravity_target(
    p: GridPosition,
    blocks: Seq<Material>,
    viewport: Viewport,
    cell_size: CellSize,
) -> Option<GridPosition> {
    let below = p.neighbour(Direction::Bottom, cell_size);
    if occupied(blocks, below) || below.offscreen(viewport) {
        None
    } else {
        Some(below)
    }
}

/// The diagonal that a material at rest at `p` picks: it slides only onto
/// something below that is itself at rest, towards an open diagonal below,
/// and `go_left` decides when both are open.
pub open spec fn chosen_diagonal(
    p: GridPosition,
    blocks: Seq<Material>,
    cell_size: CellSize,
    go_left: bool,
) -> Option<GridPosition> {
    let bottom = p.neighbour(Direction::Bottom, cell_size);
    let left = p.neighbour(Direction::BottomLeft, cell_size);
    let right = p.neighbour(Direction::BottomRight, cell_size);
    let left_open = !occupied(blocks, left);
    let right_open = !occupied(blocks, right);
    match block_at(blocks, bottom) {
        None => None,
        Some(m) => if m.falling_of() {
            None
        } else if left_open && right_open {
            if go_left {
                Some(left)
            } else {
                Some(right)
            }
        } else if left_open {
            Some(left)
        } else if right_open {
            Some(right)
        } else {
            None
        },
    }
}

/// Where a material at rest at `p` slides to, if anywhere: the chosen
/// diagonal, if that is free and on screen.
pub open spec fn slide_target(
    p: GridPosition,
    blocks: Seq<Material>,
    viewport: Viewport,
    cell_size: CellSize,
    go_left: bool,
) -> Option<GridPosition> {
    match chosen_diagonal(p, blocks, cell_size, go_left) {
        None => None,
        Some(t) => if occupied(blocks, t) || t.offscreen(viewport) {
            None
        } else {
            Some(t)
        },
    }
}

/// The directions among bottom-left, bottom-right and bottom (in that order)
/// whose neighbour of `p` is free.
pub open spec fn open_directions(p: GridPosition, blocks: Seq<Material>, cell_size: CellSize) -> Seq<
    Direction,
> {
    let free = |d: Direction| !occupied(blocks, p.neighbour(d, cell_size));
    (if free(Direction::BottomLeft) {
        seq![Direction::BottomLeft]
    } else {
        seq![]
    }) + (if free(Direction::BottomRight) {
        seq![Direction::BottomRight]
    } else {
        seq![]
    }) + (if free(Direction::Bottom) {
        seq![Direction::Bottom]
    } else {
        seq![]
    })
}

/// For each of `dirs` in turn whose neighbour of `p` is filled, that direction
/// and the material there.
pub open spec fn blocks_in(
    p: GridPosition,
    blocks: Seq<Material>,
    cell_size: CellSize,
    dirs: Seq<Direction>,
) -> Seq<(Direction, Material)>
    decreases dirs.len(),
{
    if dirs.len() == 0 {
        seq![]
    } else {
        let rest = blocks_in(p, blocks, cell_size, dirs.drop_last());
        match block_at(blocks, p.neighbour(dirs.last(), cell_size)) {
            Some(m) => rest.push((dirs.last(), m)),
            None => rest,
        }
    }
}

/// Whether a material of `blocks` is at `position`.
pub fn position_taken(blocks: &Vec<Material>, position: GridPosition) -> (r: bool)
    ensures
        r == occupied(blocks@, position),
{
    let mut i: usize = 0;
    while i < blocks.len()
        invariant
            i <= blocks@.len(),
            forall|k: int| 0 <= k < i ==> blocks@[k].position_of() != position,
        decreases blocks@.len() - i,
    {
        if blocks[i].get_position() == position {
            return true;
        }
        i = i + 1;
    }
    false
}

/// The material of `blocks` at `position`, if any.
pub fn find_block(blocks: &Vec<Material>, position: GridPosition) -> (r: Option<Material>)
    requires
        distinct_positions(blocks@),
    ensures
        r == block_at(blocks@, position),
{
    let mut i: usize = 0;
    while i < blocks.len()
        invariant
            distinct_positions(blocks@),
            i <= blocks@.len(),
            forall|k: int| 0 <= k < i ==> blocks@[k].position_of() != position,
        decreases blocks@.len() - i,
    {
        let m = blocks[i];
        if m.get_position() == position {
            proof {
                assert(blocks@[i as int].position_of() == position);
                assert(occupied(blocks@, position));
                let j = choose|j: int| 0 <= j < blocks@.len() && #[trigger] blocks@[j].position_of() == position;
                assert(blocks@[j].position_of() == blocks@[i as int].position_of());
            }
            return Some(m);
        }
        i = i + 1;
    }
    None
}

/// What every material can do. A grid step asks each material to fall
/// (`apply_gravity`) and then, if it is at rest, to slide (`apply_motion`),
/// both against a snapshot of the grid taken before the step.
pub trait Block: Sized {
    spec fn pixel_spec(&self) -> Pixel;

    spec fn falling_spec(&self) -> bool;

    fn new(position: GridPosition) -> (r: Self)
        ensures
            r.pixel_spec().position == position,
    ;

    fn get_pixel(&self) -> (r: &Pixel)
        ensures
            *r == self.pixel_spec(),
    ;

    fn set_position(&mut self, position: GridPosition)
        ensures
            final(self).pixel_spec() == (Pixel { position, color: old(self).pixel_spec().color }),
            final(self).falling_spec() == old(self).falling_spec(),
    ;

    fn get_position(&self) -> (r: GridPosition)
        ensures
            r == self.pixel_spec().position,
    ;

    fn is_falling(&self) -> (r: bool)
        ensures
            r == self.falling_spec(),
    ;

    /// Falls one cell if the cell below is free in `blocks` and on screen.
    fn apply_gravity(&mut self, viewport: Viewport, blocks: &Vec<Material>, cell_size: CellSize)
        requires
            cell_size.wf(),
            old(self).pixel_spec().position.neighbours_fit(cell_size),
        ensures
            final(self).pixel_spec().position == old(self).pixel_spec().position
                || gravity_target(old(self).pixel_spec().position, blocks@, viewport, cell_size)
                == Some(final(self).pixel_spec().position),
    ;

    /// Slides one cell down a diagonal, if the material is at rest.
    fn apply_motion(&mut self, viewport: Viewport, blocks: &Vec<Material>, cell_size: CellSize)
        requires
            cell_size.wf(),
            old(self).pixel_spec().position.neighbours_fit(cell_size),
            distinct_positions(blocks@),
        ensures
            final(self).pixel_spec().position == old(self).pixel_spec().position || exists|go_left: bool|
                slide_target(old(self).pixel_spec().position, blocks@, viewport, cell_size, go_left)
                    == Some(final(self).pixel_spec().position),
    ;

    /// The cell below, if the material would fall into it.
    fn should_apply_gravity(&self, viewport: Viewport, blocks: &Vec<Material>, cell_size: CellSize) -> (r:
        Option<GridPosition>)
        requires
            cell_size.wf(),
            self.pixel_spec().position.neighbours_fit(cell_size),
        ensures
            r == gravity_target(self.pixel_spec().position, blocks@, viewport, cell_size),
    {
        let position = self.get_position();
        let next_position = position.add(GridPosition::new(0, 1, cell_size));
        let is_occupied = position_taken(blocks, next_position);
        let is_offscreen = next_position.is_offscreen(viewport);
        if is_occupied || is_offscreen {
            return None;
        }
        Some(next_position)
    }

    /// Which of bottom-left, bottom-right and bottom are free.
    fn get_open_directions(&self, blocks: &Vec<Material>, cell_size: CellSize) -> (r: Vec<Direction>)
        requires
            cell_size.wf(),
            self.pixel_spec().position.neighbours_fit(cell_size),
        ensures
            r@ == open_directions(self.pixel_spec().position, blocks@, cell_size),
    {
        let position = self.get_position();
        let mut open: Vec<Direction> = Vec::new();
        let bottom_left = position.neighbour_in(Direction::BottomLeft, cell_size);
        let bottom_right = position.neighbour_in(Direction::BottomRight, cell_size);
        let bottom = position.neighbour_in(Direction::Bottom, cell_size);
        if !position_taken(blocks, bottom_left) {
            open.push(Direction::BottomLeft);
        }
        if !position_taken(blocks, bottom_right) {
            open.push(Direction::BottomRight);
        }
        if !position_taken(blocks, bottom) {
            open.push(Direction::Bottom);
        }
        proof {
            let p = position;
            let s1: Seq<Direction> = if !occupied(blocks@, p.neighbour(Direction::BottomLeft, cell_size)) {
                seq![Direction::BottomLeft]
            } else {
                seq![]
            };
            let s2: Seq<Direction> = if !occupied(blocks@, p.neighbour(Direction::BottomRight, cell_size)) {
                seq![Direction::BottomRight]
            } else {
                seq![]
            };
            let s3: Seq<Direction> = if !occupied(blocks@, p.neighbour(Direction::Bottom, cell_size)) {
                seq![Direction::Bottom]
            } else {
                seq![]
            };
            assert(open@ =~= s1 + s2 + s3);
        }
        open
    }

    /// The eight neighbours, each with the material there, if any.
    fn get_surrounding_blocks(&self, blocks: &Vec<Material>, cell_size: CellSize) -> (r: Vec<
        (Direction, Option<Material>),
    >)
        requires
            cell_size.wf(),
            self.pixel_spec().position.neighbours_fit(cell_size),
            distinct_positions(blocks@),
        ensures
            r@.len() == 8,
            forall|k: int|
                0 <= k < 8 ==> #[trigger] r@[k] == (Direction::neighbours_spec()[k], block_at(
                    blocks@,
                    self.pixel_spec().position.neighbour(Direction::neighbours_spec()[k], cell_size),
                )),
    {
        let position = self.get_position();
        let dirs = Direction::neighbours();
        let mut out: Vec<(Direction, Option<Material>)> = Vec::new();
        let mut k: usize = 0;
        while k < dirs.len()
            invariant
                dirs@ == Direction::neighbours_spec(),
                position == self.pixel_spec().position,
                cell_size.wf(),
                position.neighbours_fit(cell_size),
                distinct_positions(blocks@),
                k <= 8,
                out@.len() == k,
                forall|j: int|
                    0 <= j < k ==> #[trigger] out@[j] == (dirs@[j], block_at(
                        blocks@,
                        position.neighbour(dirs@[j], cell_size),
                    )),
            decreases 8 - k,
        {
            let d = dirs[k];
            let neighbour = position.neighbour_in(d, cell_size);
            out.push((d, find_block(blocks, neighbour)));
            k = k + 1;
        }
        out
    }

    /// For each of `directions` whose neighbour is filled, that direction and
    /// the material there.
    fn get_blocks_from_directions(
        &self,
        blocks: &Vec<Material>,
        cell_size: CellSize,
        directions: Vec<Direction>,
    ) -> (r: Vec<(Direction, Material)>)
        requires
            cell_size.wf(),
            self.pixel_spec().position.neighbours_fit(cell_size),
            distinct_positions(blocks@),
            forall|k: int| 0 <= k < directions@.len() ==> directions@[k] != Direction::Middle,
        ensures
            r@ == blocks_in(self.pixel_spec().position, blocks@, cell_size, directions@),
    {
        let position = self.get_position();
        let mut out: Vec<(Direction, Material)> = Vec::new();
        let mut k: usize = 0;
        while k < directions.len()
            invariant
                position == self.pixel_spec().position,
                cell_size.wf(),
                position.neighbours_fit(cell_size),
                distinct_positions(blocks@),
                forall|j: int| 0 <= j < directions@.len() ==> directions@[j] != Direction::Middle,
                k <= directions@.len(),
                out@ == blocks_in(position, blocks@, cell_size, directions@.take(k as int)),
            decreases directions@.len() - k,
        {
            let d = directions[k];
            let neighbour = position.neighbour_in(d, cell_size);
            let found = find_block(blocks, neighbour);
            proof {
                assert(directions@.take(k + 1).drop_last() =~= directions@.take(k as int));
            }
            match found {
                Some(m) => out.push((d, m)),
                None => {},
            }
            k = k + 1;
        }
        proof {
            assert(directions@.take(directions@.len() as int) =~= directions@);
        }
        out
    }

    fn offset_bottom_left(&self, cell_size: CellSize) -> (r: GridPosition)
        requires
            cell_size.wf(),
            self.pixel_spec().position.neighbours_fit(cell_size),
        ensures
            r == self.pixel_spec().position.neighbour(Direction::BottomLeft, cell_size),
    {
        self.get_position().neighbour_in(Direction::BottomLeft, cell_size)
    }

    fn offset_bottom_right(&self, cell_size: CellSize) -> (r: GridPosition)
        requires
            cell_size.wf(),
            self.pixel_spec().position.neighbours_fit(cell_size),
        ensures
            r == self.pixel_spec().position.neighbour(Direction::BottomRight, cell_size),
    {
        self.get_position().neighbour_in(Direction::BottomRight, cell_size)
    }
}

} // verus!
