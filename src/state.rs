//! The simulation: the grid of materials, ticks, placement and erasure.
use vstd::prelude::*;

use crate::blocks::block::{occupied, Material};
use crate::blocks::sand::random_bool;
use crate::components::block_types::BlockType;
use crate::components::cell_size::CellSize;
use crate::components::grid_position::{fits_i32, round_div, GridPosition, Point, Viewport};
use crate::grid::{
    erase_model, grid_wf, lemma_filter_distinct, not_at, is_last_at, lemma_survivor_origin, lemma_survivors_distinct, moved_all,
    count_of, lemma_count_of_contains, overwritten, spawn_model, survivors, tick_collisions, tick_model, usable,
};

verus! {

broadcast use vstd::seq_lib::group_filter_ensures;

/// A material that moves during a tick ends on a cell that is on screen, so
/// it stays usable.
pub proof fn lemma_stepped_usable(
    m: Material,
    viewport: Viewport,
    blocks: Seq<Material>,
    cell_size: CellSize,
    go_left: bool,
)
    requires
        cell_size.wf(),
        usable(m.position_of(), cell_size),
    ensures
        usable(m.stepped(viewport, blocks, cell_size, go_left).position_of(), cell_size),
{
}

/// The x coordinate of column `i` of the square around `center`.
pub open spec fn lattice_x(center: GridPosition, cell_size: CellSize, i: int) -> int {
    center.x + i * cell_size.width
}

/// The y coordinate of row `j` of the square around `center`.
pub open spec fn lattice_y(center: GridPosition, cell_size: CellSize, j: int) -> int {
    center.y + j * cell_size.height
}

/// Whether `q` is one of the cells `(i, j)`, `-range <= i, j < range`, of the
/// square around `center`.
pub open spec fn in_region(center: GridPosition, range: int, cell_size: CellSize, q: GridPosition) -> bool {
    &&& q.cell_size == center.cell_size
    &&& exists|i: int, j: int|
        -range <= i < range && -range <= j < range && q.x == #[trigger] lattice_x(center, cell_size, i)
            && q.y == #[trigger] lattice_y(center, cell_size, j)
}

/// Cell `(i, j)` of the square around `center` lies far enough from the
/// limits of `i32` to be used.
pub open spec fn region_cell_fits(center: GridPosition, cell_size: CellSize, i: int, j: int) -> bool {
    &&& i32::MIN <= lattice_x(center, cell_size, i) - cell_size.width
    &&& lattice_x(center, cell_size, i) + cell_size.width <= i32::MAX
    &&& i32::MIN <= lattice_y(center, cell_size, j) - cell_size.height
    &&& lattice_y(center, cell_size, j) + cell_size.height <= i32::MAX
}

/// Cell `(i, j)` of the square around `center`.
pub open spec fn region_cell(center: GridPosition, cell_size: CellSize, i: int, j: int) -> GridPosition {
    GridPosition {
        cell_size: center.cell_size,
        x: lattice_x(center, cell_size, i) as i32,
        y: lattice_y(center, cell_size, j) as i32,
    }
}

/// `after` is `before` with a fresh material of `kind` on every usable cell
/// of the square that was free, and nothing else.
pub open spec fn spawned_region(
    before: Seq<Material>,
    after: Seq<Material>,
    kind: BlockType,
    center: GridPosition,
    range: int,
    cell_size: CellSize,
) -> bool {
    &&& !kind.is_material() ==> after == before
    &&& before.len() <= after.len()
    &&& after.subrange(0, before.len() as int) == before
    &&& forall|k: int|
        before.len() <= k < after.len() ==> {
            let q = (#[trigger] after[k]).position_of();
            &&& after[k] == Material::spawned(kind, q)
            &&& in_region(center, range, cell_size, q)
            &&& usable(q, cell_size)
            &&& !occupied(before, q)
        }
    &&& kind.is_material() ==> forall|q: GridPosition|
        in_region(center, range, cell_size, q) && usable(q, cell_size) ==> #[trigger] occupied(after, q)
}

/// `after` holds the materials of `before` that are outside the square.
pub open spec fn erased_region(
    before: Seq<Material>,
    after: Seq<Material>,
    center: GridPosition,
    range: int,
    cell_size: CellSize,
) -> bool {
    forall|m: Material|
        #[trigger] after.contains(m) <==> before.contains(m) && !in_region(
            center,
            range,
            cell_size,
            m.position_of(),
        )
}

/// The cell under the pointer, where its coordinates fit in `i32`.
pub open spec fn pointer_cell(pointer: Point, cell_size: CellSize) -> Option<GridPosition> {
    let i = round_div(pointer.x as int, cell_size.width as int);
    let j = round_div(pointer.y as int, cell_size.height as int);
    if fits_i32(i * cell_size.width) && fits_i32(j * cell_size.height) {
        Some(GridPosition::at_lattice(i, j, cell_size))
    } else {
        None
    }
}

/// What the placement tool does to the grid `before` with the pointer at
/// `pointer`: nothing unless the button is held; else the eraser clears the
/// square under the pointer and a material fills it.
pub open spec fn tool_applied(
    before: Seq<Material>,
    after: Seq<Material>,
    state: MainState,
    pointer: Point,
) -> bool {
    match pointer_cell(pointer, state.cell_size) {
        Some(cell) => if !state.mouse_down {
            after == before
        } else if state.selected_block == BlockType::Eraser {
            erased_region(before, after, cell, state.place_range as int, state.cell_size)
        } else {
            spawned_region(
                before,
                after,
                state.selected_block,
                cell,
                state.place_range as int,
                state.cell_size,
            )
        },
        None => after == before,
    }
}

/// The block type that a key selects: `1` sand, `2` stone, `3` the eraser,
/// any other key sand.
pub open spec fn block_for_key(key: char) -> BlockType {
    if key == '2' {
        BlockType::Stone
    } else if key == '3' {
        BlockType::Eraser
    } else {
        BlockType::Sand
    }
}

/// For each position at which a tick lost materials (`lost` names one
/// position per material lost), that position and how many materials ended
/// the tick there: the one kept and those lost. Positions come in the order
/// of their first loss.
pub fn collision_counts(lost: &Vec<GridPosition>) -> (r: Vec<(GridPosition, u64)>)
    requires
        lost@.len() < u64::MAX,
    ensures
        forall|k: int| 0 <= k < r@.len() ==> #[trigger] r@[k].1 == count_of(lost@, r@[k].0) + 1,
        forall|k: int| 0 <= k < r@.len() ==> lost@.contains(#[trigger] r@[k].0),
        forall|j: int| #![trigger lost@[j]] 0 <= j < lost@.len() ==> exists|k: int| 0 <= k < r@.len() && #[trigger] r@[k].0 == lost@[j],
        forall|a: int, b: int| 0 <= a < b < r@.len() ==> #[trigger] r@[a].0 != #[trigger] r@[b].0,
{
    let mut out: Vec<(GridPosition, u64)> = Vec::new();
    let mut i: usize = 0;
    while i < lost.len()
        invariant
            i <= lost@.len(),
            lost@.len() < u64::MAX,
            forall|k: int| 0 <= k < out@.len() ==> #[trigger] out@[k].1 == count_of(lost@.take(i as int), out@[k].0) + 1,
            forall|k: int| 0 <= k < out@.len() ==> lost@.take(i as int).contains(#[trigger] out@[k].0),
            forall|j: int| #![trigger lost@[j]] 0 <= j < i ==> exists|k: int| 0 <= k < out@.len() && #[trigger] out@[k].0 == lost@[j],
            forall|a: int, b: int| 0 <= a < b < out@.len() ==> #[trigger] out@[a].0 != #[trigger] out@[b].0,
        decreases lost@.len() - i,
    {
        let p = lost[i];
        let ghost prev = out@;
        let ghost before = lost@.take(i as int);
        let ghost after = lost@.take(i + 1);
        proof {
            assert(after.drop_last() =~= before);
            assert forall|q: GridPosition| count_of(after, q) == count_of(before, q) + if q == p {
                1nat
            } else {
                0
            } by {}
            assert forall|q: GridPosition| before.contains(q) implies after.contains(q) by {
                let j = choose|j: int| 0 <= j < before.len() && before[j] == q;
                assert(after[j] == q);
            }
            assert(after[i as int] == p);
        }
        let mut found: Option<usize> = None;
        let mut k: usize = 0;
        while k < out.len()
            invariant
                k <= out@.len(),
                out@ == prev,
                found is None ==> forall|m: int| 0 <= m < k ==> (#[trigger] out@[m]).0 != p,
                found is Some ==> found.unwrap() < out@.len() && out@[found.unwrap() as int].0 == p,
            decreases out@.len() - k,
        {
            if found.is_none() && out[k].0 == p {
                found = Some(k);
            }
            k = k + 1;
        }
        proof {
            lemma_count_of_contains(before, p);
        }
        match found {
            Some(m) => {
                let c = out[m].1;
                out.set(m, (p, c + 1));
                proof {
                    assert forall|x: int| 0 <= x < out@.len() implies #[trigger] out@[x].1 == count_of(after, out@[x].0) + 1 by {
                        if x != m {
                            assert(prev[x].0 != p);
                        }
                    }
                    assert forall|x: int| 0 <= x < out@.len() implies after.contains(#[trigger] out@[x].0) by {
                        assert(before.contains(prev[x].0));
                    }
                }
            },
            None => {
                out.push((p, 2));
                proof {
                    assert forall|x: int| 0 <= x < out@.len() implies #[trigger] out@[x].1 == count_of(after, out@[x].0) + 1 by {
                        if x < prev.len() {
                            assert(out@[x] == prev[x]);
                        }
                    }
                    assert forall|x: int| 0 <= x < out@.len() implies after.contains(#[trigger] out@[x].0) by {
                        if x < prev.len() {
                            assert(out@[x] == prev[x]);
                            assert(before.contains(prev[x].0));
                        }
                    }
                }
            },
        }
        proof {
            assert forall|j: int| #![trigger lost@[j]] 0 <= j < i + 1 implies exists|m: int| 0 <= m < out@.len() && #[trigger] out@[m].0 == lost@[j] by {
                if j < i {
                    let m = choose|m: int| 0 <= m < prev.len() && #[trigger] prev[m].0 == lost@[j];
                    assert(out@[m].0 == lost@[j]);
                } else if found is None {
                    assert(out@[out@.len() - 1].0 == lost@[j]);
                } else {
                    assert(out@[found.unwrap() as int].0 == lost@[j]);
                }
            }
            assert forall|a: int, b: int| 0 <= a < b < out@.len() implies #[trigger] out@[a].0 != #[trigger] out@[b].0 by {
                if b < prev.len() {
                    assert(out@[a].0 == prev[a].0 && out@[b].0 == prev[b].0);
                }
            }
        }
        i = i + 1;
    }
    proof {
        assert(lost@.take(lost@.len() as int) =~= lost@);
    }
    out
}

/// The grid and the state of the placement tool.
pub struct MainState {
    /// The materials of the grid, at most one per position.
    pub blocks: Vec<Material>,
    /// Half the side, in cells, of the square that a placement covers.
    pub place_range: i32,
    pub cell_size: CellSize,
    /// Whether the pointer button is held, so that each update places or erases.
    pub mouse_down: bool,
    pub selected_block: BlockType,
}

impl MainState {
    pub open spec fn wf(&self) -> bool {
        &&& self.cell_size.wf()
        &&& grid_wf(self.blocks@, self.cell_size)
        &&& self.place_range >= 1
    }

    /// The fields other than the grid are those of `other`.
    pub open spec fn same_settings(&self, other: &MainState) -> bool {
        &&& self.place_range == other.place_range
        &&& self.cell_size == other.cell_size
        &&& self.mouse_down == other.mouse_down
        &&& self.selected_block == other.selected_block
    }

    /// An empty grid of `cell_size`, placing sand over five cells each way.
    pub fn new(cell_size: CellSize) -> (r: MainState)
        requires
            cell_size.wf(),
        ensures
            r.wf(),
            r.blocks@ == Seq::<Material>::empty(),
            r.cell_size == cell_size,
            r.place_range == 5,
            !r.mouse_down,
            r.selected_block == BlockType::Sand,
    {
        MainState {
            blocks: Vec::new(),
            cell_size,
            mouse_down: false,
            selected_block: BlockType::Sand,
            place_range: 5,
        }
    }

    /// A copy of the grid, to be read while the grid itself changes.
    pub fn clone_blocks(&self) -> (r: Vec<Material>)
        ensures
            r@ == self.blocks@,
    {
        let mut out: Vec<Material> = Vec::new();
        let mut i: usize = 0;
        while i < self.blocks.len()
            invariant
                i <= self.blocks@.len(),
                out@ == self.blocks@.take(i as int),
            decreases self.blocks@.len() - i,
        {
            out.push(self.blocks[i]);
            i = i + 1;
            proof {
                assert(out@ =~= self.blocks@.take(i as int));
            }
        }
        proof {
            assert(out@ =~= self.blocks@);
        }
        out
    }

    /// Whether a material is at `position`.
    pub fn position_occupied(&self, position: GridPosition) -> (r: bool)
        ensures
            r == occupied(self.blocks@, position),
    {
        crate::blocks::block::position_taken(&self.blocks, position)
    }

    fn insert_block(&mut self, block: Material)
        requires
            old(self).wf(),
            usable(block.position_of(), old(self).cell_size),
            !occupied(old(self).blocks@, block.position_of()),
        ensures
            final(self).wf(),
            final(self).same_settings(old(self)),
            final(self).blocks@ == old(self).blocks@.push(block),
    {
        self.blocks.push(block);
        proof {
            let s = self.blocks@;
            assert forall|i: int, j: int|
                0 <= i < s.len() && 0 <= j < s.len() && i != j implies #[trigger] s[i].position_of()
                != #[trigger] s[j].position_of() by {
                if i == s.len() - 1 {
                    assert(old(self).blocks@[j] == s[j]);
                } else if j == s.len() - 1 {
                    assert(old(self).blocks@[i] == s[i]);
                } else {
                    assert(old(self).blocks@[i] == s[i]);
                    assert(old(self).blocks@[j] == s[j]);
                }
            }
            assert forall|i: int| 0 <= i < s.len() implies (#[trigger] s[i].position_of()).cell_size
                == self.cell_size && s[i].position_of().neighbours_fit(self.cell_size) by {
                if i < s.len() - 1 {
                    assert(old(self).blocks@[i] == s[i]);
                }
            }
        }
    }

    /// Places a material of `block_type` at `grid_position`, unless that cell
    /// is taken; the eraser places nothing.
    pub fn spawn_block(&mut self, block_type: BlockType, grid_position: GridPosition)
        requires
            old(self).wf(),
            usable(grid_position, old(self).cell_size),
        ensures
            final(self).wf(),
            final(self).same_settings(old(self)),
            final(self).blocks@ == spawn_model(old(self).blocks@, block_type, grid_position),
    {
        if self.position_occupied(grid_position) {
            return ;
        }
        match block_type {
            BlockType::Eraser => {
                return ;
            },
            _ => {},
        }
        let block = Material::new(block_type, grid_position);
        self.insert_block(block);
    }

    /// Removes the material at `position`, if there is one.
    pub fn erase_block(&mut self, position: GridPosition)
        requires
            old(self).wf(),
        ensures
            final(self).wf(),
            final(self).same_settings(old(self)),
            final(self).blocks@ == erase_model(old(self).blocks@, position),
    {
        let ghost keep = not_at(position);
        let mut out: Vec<Material> = Vec::new();
        let mut i: usize = 0;
        while i < self.blocks.len()
            invariant
                i <= self.blocks@.len(),
                out@ == self.blocks@.take(i as int).filter(keep),
                keep == not_at(position),
            decreases self.blocks@.len() - i,
        {
            let m = self.blocks[i];
            proof {
                assert(self.blocks@.take(i + 1) =~= self.blocks@.take(i as int).push(m));
                self.blocks@.take(i as int).lemma_filter_push(m, keep);
            }
            if m.get_position() != position {
                out.push(m);
            }
            i = i + 1;
        }
        proof {
            assert(self.blocks@.take(self.blocks@.len() as int) =~= self.blocks@);
            let s = self.blocks@;
            let f = s.filter(keep);
            lemma_filter_distinct(s, keep);
            assert forall|i: int| 0 <= i < f.len() implies (#[trigger] f[i].position_of()).cell_size
                == self.cell_size && f[i].position_of().neighbours_fit(self.cell_size) by {
                assert(s.contains(f[i]));
            }
        }
        self.blocks = out;
    }

    /// Rebuilds the grid from the materials' own positions. Where several
    /// ended a tick on one position, the last of them stays; the position of
    /// each material lost is returned, to be reported as a collision.
    pub fn update_positions(&mut self) -> (lost: Vec<GridPosition>)
        requires
            old(self).cell_size.wf(),
            old(self).place_range >= 1,
            forall|i: int|
                0 <= i < old(self).blocks@.len() ==> usable(
                    #[trigger] old(self).blocks@[i].position_of(),
                    old(self).cell_size,
                ),
        ensures
            final(self).wf(),
            final(self).same_settings(old(self)),
            final(self).blocks@ == survivors(old(self).blocks@, old(self).blocks@.len() as int),
            lost@ == overwritten(old(self).blocks@, old(self).blocks@.len() as int),
    {
        let n = self.blocks.len();
        let mut kept: Vec<Material> = Vec::new();
        let mut lost: Vec<GridPosition> = Vec::new();
        let mut i: usize = 0;
        while i < n
            invariant
                n == self.blocks@.len(),
                i <= n,
                kept@ == survivors(self.blocks@, i as int),
                lost@ == overwritten(self.blocks@, i as int),
            decreases n - i,
        {
            let m = self.blocks[i];
            let p = m.get_position();
            let mut last = true;
            let mut j: usize = i + 1;
            while j < n
                invariant
                    n == self.blocks@.len(),
                    i < j <= n,
                    p == self.blocks@[i as int].position_of(),
                    last == (forall|k: int| i < k < j ==> #[trigger] self.blocks@[k].position_of() != p),
                decreases n - j,
            {
                if self.blocks[j].get_position() == p {
                    last = false;
                }
                j = j + 1;
            }
            proof {
                assert(last == is_last_at(self.blocks@, i as int));
            }
            if last {
                kept.push(m);
            } else {
                lost.push(p);
            }
            i = i + 1;
        }
        proof {
            let moved = self.blocks@;
            lemma_survivors_distinct(moved, n as int);
            assert forall|a: int| 0 <= a < kept@.len() implies (#[trigger] kept@[a].position_of()).cell_size
                == self.cell_size && kept@[a].position_of().neighbours_fit(self.cell_size) by {
                lemma_survivor_origin(moved, n as int, a);
                let k = crate::grid::survivor_index(moved, n as int, a);
                assert(usable(moved[k].position_of(), self.cell_size));
            }
        }
        self.blocks = kept;
        lost
    }

    /// One tick with the diagonal choices given: `choices[i]` decides, for
    /// the material at index `i`, between two open diagonals (`true` is the
    /// left one). Returns the positions of the materials lost to collisions.
    pub fn tick_with(&mut self, viewport: Viewport, choices: &Vec<bool>) -> (lost: Vec<GridPosition>)
        requires
            old(self).wf(),
            choices@.len() == old(self).blocks@.len(),
        ensures
            final(self).wf(),
            final(self).same_settings(old(self)),
            final(self).blocks@ == tick_model(old(self).blocks@, viewport, old(self).cell_size, choices@),
            lost@ == tick_collisions(old(self).blocks@, viewport, old(self).cell_size, choices@),
    {
        let snapshot = self.clone_blocks();
        let n = self.blocks.len();
        let cell_size = self.cell_size;
        let mut i: usize = 0;
        while i < n
            invariant
                n == self.blocks@.len(),
                i <= n,
                snapshot@ == old(self).blocks@,
                snapshot@.len() == n,
                choices@.len() == n,
                self.same_settings(old(self)),
                cell_size == self.cell_size,
                old(self).wf(),
                forall|k: int|
                    0 <= k < i ==> #[trigger] self.blocks@[k] == snapshot@[k].stepped(
                        viewport,
                        snapshot@,
                        cell_size,
                        choices@[k],
                    ),
                forall|k: int| i <= k < n ==> #[trigger] self.blocks@[k] == snapshot@[k],
            decreases n - i,
        {
            let mut m = self.blocks[i];
            proof {
                assert(usable(snapshot@[i as int].position_of(), cell_size));
            }
            m.step(viewport, &snapshot, cell_size, choices[i]);
            self.blocks.set(i, m);
            i = i + 1;
        }
        proof {
            let moved = moved_all(snapshot@, viewport, cell_size, choices@);
            assert(self.blocks@ =~= moved);
            assert forall|k: int| 0 <= k < n implies usable(
                #[trigger] self.blocks@[k].position_of(),
                cell_size,
            ) by {
                assert(usable(snapshot@[k].position_of(), cell_size));
                lemma_stepped_usable(snapshot@[k], viewport, snapshot@, cell_size, choices@[k]);
            }
        }
        self.update_positions()
    }

    /// One tick, with each choice between two open diagonals drawn at random.
    pub fn tick(&mut self, viewport: Viewport) -> (lost: Vec<GridPosition>)
        requires
            old(self).wf(),
        ensures
            final(self).wf(),
            final(self).same_settings(old(self)),
            exists|choices: Seq<bool>|
                choices.len() == old(self).blocks@.len() && final(self).blocks@ == tick_model(
                    old(self).blocks@,
                    viewport,
                    old(self).cell_size,
                    choices,
                ) && lost@ == tick_collisions(old(self).blocks@, viewport, old(self).cell_size, choices),
    {
        let mut choices: Vec<bool> = Vec::new();
        while choices.len() < self.blocks.len()
            invariant
                choices@.len() <= self.blocks@.len(),
            decreases self.blocks@.len() - choices@.len(),
        {
            choices.push(random_bool());
        }
        self.tick_with(viewport, &choices)
    }

    /// The usable cells of the square of `range` cells each way around
    /// `start`: columns and rows `-range` up to `range - 1`.
    pub fn generate_positions(&self, start: GridPosition, range: i32) -> (r: Vec<GridPosition>)
        requires
            self.cell_size.wf(),
            start.cell_size == self.cell_size,
            range >= 0,
        ensures
            forall|k: int|
                0 <= k < r@.len() ==> in_region(start, range as int, self.cell_size, #[trigger] r@[k])
                    && usable(r@[k], self.cell_size),
            forall|q: GridPosition|
                in_region(start, range as int, self.cell_size, q) && usable(q, self.cell_size)
                    ==> #[trigger] r@.contains(q),
    {
        let cs = self.cell_size;
        let w = cs.width as i64;
        let h = cs.height as i64;
        let mut positions: Vec<GridPosition> = Vec::new();
        let mut x: i32 = -range;
        while x < range
            invariant
                cs == self.cell_size,
                cs.wf(),
                w == cs.width,
                h == cs.height,
                start.cell_size == cs,
                range >= 0,
                -range <= x <= range,
                forall|k: int|
                    0 <= k < positions@.len() ==> in_region(start, range as int, cs, #[trigger] positions@[k])
                        && usable(positions@[k], cs),
                forall|i: int, j: int|
                    -range <= i < x && -range <= j < range && region_cell_fits(start, cs, i, j)
                        ==> positions@.contains(#[trigger] region_cell(start, cs, i, j)),
            decreases range - x,
        {
            let mut y: i32 = -range;
            while y < range
                invariant
                    cs == self.cell_size,
                    cs.wf(),
                    w == cs.width,
                    h == cs.height,
                    start.cell_size == cs,
                    range >= 0,
                    -range <= x < range,
                    -range <= y <= range,
                    forall|k: int|
                        0 <= k < positions@.len() ==> in_region(start, range as int, cs, #[trigger] positions@[k])
                            && usable(positions@[k], cs),
                    forall|i: int, j: int|
                        (-range <= i < x && -range <= j < range || i == x && -range <= j < y)
                            && region_cell_fits(start, cs, i, j)
                            ==> positions@.contains(#[trigger] region_cell(start, cs, i, j)),
                decreases range - y,
            {
                proof {
                    assert(-0x4000_0000_0000_0000 <= (x as int) * w <= 0x4000_0000_0000_0000) by (nonlinear_arith)
                        requires
                            -0x8000_0000 <= x <= 0x8000_0000,
                            0 < w <= 0x7fff_ffff,
                    ;
                    assert(-0x4000_0000_0000_0000 <= (y as int) * h <= 0x4000_0000_0000_0000) by (nonlinear_arith)
                        requires
                            -0x8000_0000 <= y <= 0x8000_0000,
                            0 < h <= 0x7fff_ffff,
                    ;
                }
                let ghost before = positions@;
                let px: i64 = start.x as i64 + x as i64 * w;
                let py: i64 = start.y as i64 + y as i64 * h;
                if px - w >= i32::MIN as i64 && px + w <= i32::MAX as i64 && py - h >= i32::MIN as i64
                    && py + h <= i32::MAX as i64 {
                    let q = GridPosition { cell_size: start.cell_size, x: px as i32, y: py as i32 };
                    proof {
                        assert(q.x == lattice_x(start, cs, x as int));
                        assert(q.y == lattice_y(start, cs, y as int));
                        assert(q == region_cell(start, cs, x as int, y as int));
                    }
                    positions.push(q);
                    proof {
                        assert(positions@[positions@.len() - 1] == q);
                    }
                }
                proof {
                    assert forall|i: int, j: int|
                        (-range <= i < x && -range <= j < range || i == x && -range <= j < y + 1)
                            && region_cell_fits(start, cs, i, j)
                            implies positions@.contains(#[trigger] region_cell(start, cs, i, j)) by {
                        if i == x && j == y {
                            assert(positions@[positions@.len() - 1] == region_cell(start, cs, i, j));
                        } else {
                            let c = region_cell(start, cs, i, j);
                            assert(before.contains(c));
                            let a = choose|a: int| 0 <= a < before.len() && before[a] == c;
                            assert(positions@[a] == c);
                        }
                    }
                }
                y = y + 1;
            }
            x = x + 1;
        }
        proof {
            assert forall|q: GridPosition|
                in_region(start, range as int, cs, q) && usable(q, cs) implies #[trigger] positions@.contains(
                q,
            ) by {
                let (i, j) = choose|i: int, j: int|
                    -range <= i < range && -range <= j < range && q.x == #[trigger] lattice_x(start, cs, i)
                        && q.y == #[trigger] lattice_y(start, cs, j);
                assert(region_cell(start, cs, i, j) == q);
            }
        }
        positions
    }

    /// Places `kind` on every free usable cell of the square of `range` cells
    /// each way around `center`.
    pub fn spawn_region(&mut self, kind: BlockType, center: GridPosition, range: i32)
        requires
            old(self).wf(),
            center.cell_size == old(self).cell_size,
            range >= 0,
        ensures
            final(self).wf(),
            final(self).same_settings(old(self)),
            spawned_region(old(self).blocks@, final(self).blocks@, kind, center, range as int, old(self).cell_size),
    {
        let positions = self.generate_positions(center, range);
        let ghost before = self.blocks@;
        let ghost cs = self.cell_size;
        let mut t: usize = 0;
        while t < positions.len()
            invariant
                self.wf(),
                self.same_settings(old(self)),
                before == old(self).blocks@,
                cs == self.cell_size,
                t <= positions@.len(),
                forall|k: int|
                    0 <= k < positions@.len() ==> in_region(center, range as int, cs, #[trigger] positions@[k])
                        && usable(positions@[k], cs),
                !kind.is_material() ==> self.blocks@ == before,
                before.len() <= self.blocks@.len(),
                self.blocks@.subrange(0, before.len() as int) == before,
                forall|k: int|
                    before.len() <= k < self.blocks@.len() ==> {
                        let q = (#[trigger] self.blocks@[k]).position_of();
                        &&& self.blocks@[k] == Material::spawned(kind, q)
                        &&& in_region(center, range as int, cs, q)
                        &&& usable(q, cs)
                        &&& !occupied(before, q)
                    },
                kind.is_material() ==> forall|a: int| 0 <= a < t ==> occupied(self.blocks@, #[trigger] positions@[a]),
            decreases positions@.len() - t,
        {
            let p = positions[t];
            let ghost cur = self.blocks@;
            self.spawn_block(kind, p);
            proof {
                if kind.is_material() && !occupied(cur, p) {
                    assert(self.blocks@ == cur.push(Material::spawned(kind, p)));
                    assert(self.blocks@[cur.len() as int].position_of() == p);
                    assert forall|a: int| 0 <= a < t + 1 implies occupied(self.blocks@, #[trigger] positions@[a]) by {
                        if a < t {
                            let i = choose|i: int| 0 <= i < cur.len() && #[trigger] cur[i].position_of() == positions@[a];
                            assert(self.blocks@[i] == cur[i]);
                        }
                    }
                    assert(self.blocks@.subrange(0, before.len() as int) =~= cur.subrange(0, before.len() as int));
                    if !occupied(before, p) {
                    } else {
                        let i = choose|i: int| 0 <= i < before.len() && #[trigger] before[i].position_of() == p;
                        assert(cur[i] == before[i]);
                    }
                }
            }
            t = t + 1;
        }
        proof {
            if kind.is_material() {
                assert forall|q: GridPosition|
                    in_region(center, range as int, cs, q) && usable(q, cs) implies #[trigger] occupied(self.blocks@, q) by {
                    assert(positions@.contains(q));
                    let a = choose|a: int| 0 <= a < positions@.len() && positions@[a] == q;
                    assert(occupied(self.blocks@, positions@[a]));
                }
            }
        }
    }

    /// Erases every material in the square of `range` cells each way around
    /// `center`.
    pub fn erase_region(&mut self, center: GridPosition, range: i32)
        requires
            old(self).wf(),
            center.cell_size == old(self).cell_size,
            range >= 0,
        ensures
            final(self).wf(),
            final(self).same_settings(old(self)),
            erased_region(old(self).blocks@, final(self).blocks@, center, range as int, old(self).cell_size),
    {
        let positions = self.generate_positions(center, range);
        let ghost before = self.blocks@;
        let ghost cs = self.cell_size;
        let mut t: usize = 0;
        while t < positions.len()
            invariant
                self.wf(),
                self.same_settings(old(self)),
                before == old(self).blocks@,
                cs == self.cell_size,
                t <= positions@.len(),
                forall|m: Material|
                    #[trigger] self.blocks@.contains(m) <==> before.contains(m) && !positions@.take(
                        t as int,
                    ).contains(m.position_of()),
            decreases positions@.len() - t,
        {
            let p = positions[t];
            let ghost cur = self.blocks@;
            self.erase_block(p);
            proof {
                let keep = not_at(p);
                assert(positions@.take(t + 1) =~= positions@.take(t as int).push(p));
                let f = cur.filter(keep);
                assert(self.blocks@ == f);
                let before_t = positions@.take(t as int);
                let after_t = positions@.take(t + 1);
                assert forall|m: Material| #[trigger] self.blocks@.contains(m) <==> before.contains(m)
                    && !after_t.contains(m.position_of()) by {
                    let q = m.position_of();
                    assert(after_t.contains(q) <==> before_t.contains(q) || q == p) by {
                        if after_t.contains(q) {
                            let a = choose|a: int| 0 <= a < after_t.len() && after_t[a] == q;
                            if a < t {
                                assert(before_t[a] == q);
                            }
                        }
                        if before_t.contains(q) {
                            let a = choose|a: int| 0 <= a < before_t.len() && before_t[a] == q;
                            assert(after_t[a] == q);
                        }
                        if q == p {
                            assert(after_t[t as int] == q);
                        }
                    }
                    if f.contains(m) {
                        let i = choose|i: int| 0 <= i < f.len() && f[i] == m;
                        cur.lemma_filter_contains_rev(keep, m);
                    }
                    if cur.contains(m) && q != p {
                        let i = choose|i: int| 0 <= i < cur.len() && cur[i] == m;
                        assert(keep(cur[i]));
                        assert(f.contains(cur[i]));
                    }
                }
            }
            t = t + 1;
        }
        proof {
            assert(positions@.take(positions@.len() as int) =~= positions@);
            assert forall|m: Material| #[trigger] self.blocks@.contains(m) <==> before.contains(m) && !in_region(
                center,
                range as int,
                cs,
                m.position_of(),
            ) by {
                if before.contains(m) {
                    let i = choose|i: int| 0 <= i < before.len() && before[i] == m;
                    assert(usable(before[i].position_of(), cs));
                    if positions@.contains(m.position_of()) {
                        let a = choose|a: int| 0 <= a < positions@.len() && positions@[a] == m.position_of();
                        assert(in_region(center, range as int, cs, positions@[a]));
                    }
                }
            }
        }
    }

    /// One step of the simulation: a tick, then the placement tool at the
    /// pointer. Returns the positions of the materials lost to collisions
    /// during the tick.
    pub fn update(&mut self, viewport: Viewport, pointer: Point) -> (lost: Vec<GridPosition>)
        requires
            old(self).wf(),
        ensures
            final(self).wf(),
            final(self).same_settings(old(self)),
            exists|choices: Seq<bool>|
                #![trigger tick_model(old(self).blocks@, viewport, old(self).cell_size, choices)]
                choices.len() == old(self).blocks@.len() && lost@ == tick_collisions(
                    old(self).blocks@,
                    viewport,
                    old(self).cell_size,
                    choices,
                ) && tool_applied(
                    tick_model(old(self).blocks@, viewport, old(self).cell_size, choices),
                    final(self).blocks@,
                    *old(self),
                    pointer,
                ),
    {
        let lost = self.tick(viewport);
        let ghost ticked = self.blocks@;
        if self.mouse_down {
            match GridPosition::try_from_vec2(pointer, self.cell_size) {
                Some(cell) => {
                    if self.selected_block != BlockType::Eraser {
                        self.spawn_region(self.selected_block, cell, self.place_range);
                    } else {
                        self.erase_region(cell, self.place_range);
                    }
                },
                None => {},
            }
        }
        proof {
            let choices = choose|choices: Seq<bool>|
                choices.len() == old(self).blocks@.len() && ticked == tick_model(
                    old(self).blocks@,
                    viewport,
                    old(self).cell_size,
                    choices,
                ) && lost@ == tick_collisions(old(self).blocks@, viewport, old(self).cell_size, choices);
            assert(tool_applied(ticked, self.blocks@, *old(self), pointer));
        }
        lost
    }

    /// A key press selects what the tool places.
    pub fn key_down_event(&mut self, key: char)
        ensures
            final(self).selected_block == block_for_key(key),
            final(self).blocks == old(self).blocks,
            final(self).place_range == old(self).place_range,
            final(self).cell_size == old(self).cell_size,
            final(self).mouse_down == old(self).mouse_down,
    {
        self.selected_block = match key {
            '1' => BlockType::Sand,
            '2' => BlockType::Stone,
            '3' => BlockType::Eraser,
            _ => BlockType::Sand,
        };
    }

    /// The pointer button goes down: the tool acts on each update.
    pub fn mouse_button_down_event(&mut self)
        ensures
            final(self).mouse_down,
            final(self).blocks == old(self).blocks,
            final(self).place_range == old(self).place_range,
            final(self).cell_size == old(self).cell_size,
            final(self).selected_block == old(self).selected_block,
    {
        self.mouse_down = true;
    }

    /// The pointer button comes up: the tool rests.
    pub fn mouse_button_up_event(&mut self)
        ensures
            !final(self).mouse_down,
            final(self).blocks == old(self).blocks,
            final(self).place_range == old(self).place_range,
            final(self).cell_size == old(self).cell_size,
            final(self).selected_block == old(self).selected_block,
    {
        self.mouse_down = false;
    }

    /// Scrolling up widens the tool's square by a cell each way, scrolling
    /// down narrows it, down to one cell each way.
    pub fn mouse_wheel_event(&mut self, scrolled_up: bool)
        requires
            old(self).place_range >= 1,
        ensures
            final(self).place_range == if scrolled_up {
                if old(self).place_range < i32::MAX {
                    old(self).place_range + 1
                } else {
                    old(self).place_range as int
                }
            } else if old(self).place_range > 1 {
                old(self).place_range - 1
            } else {
                1
            },
            final(self).blocks == old(self).blocks,
            final(self).mouse_down == old(self).mouse_down,
            final(self).cell_size == old(self).cell_size,
            final(self).selected_block == old(self).selected_block,
    {
        if scrolled_up {
            if self.place_range < i32::MAX {
                self.place_range = self.place_range + 1;
            }
        } else {
            self.place_range = self.place_range - 1;
        }
        if self.place_range < 1 {
            self.place_range = 1;
        }
    }
}

} // verus!
