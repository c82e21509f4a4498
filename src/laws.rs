//! Properties of the simulation that relate several calls, or hold of every
//! input, stated over the models of `grid` and `blocks` and proved.
use vstd::arithmetic::div_mod::lemma_fundamental_div_mod;
use vstd::prelude::*;

use crate::blocks::block::{block_at, chosen_diagonal, gravity_target, occupied, Material};
use crate::components::block_types::BlockType;
use crate::components::cell_size::CellSize;
use crate::components::directions::Direction;
use crate::components::grid_position::{
    fits_i32, round_div, round_div_nonneg, GridPosition, Viewport,
};
use crate::grid::{
    erase_model, grid_wf, is_last_at, lemma_survivor_kept, lemma_survivor_origin,
    lemma_survivors_distinct, moved_all, not_at, spawn_model, survivor_index, tick_model, usable,
};
use crate::state::lemma_stepped_usable;

verus! {

/// The distance between two integers.
pub open spec fn dist(a: int, b: int) -> int {
    if a >= b {
        a - b
    } else {
        b - a
    }
}

/// Placing a material on a cell and then placing anything on the same cell
/// leaves the grid as the first placement left it.
pub proof fn law_spawn_twice(blocks: Seq<Material>, kind: BlockType, kind2: BlockType, p: GridPosition)
    requires
        kind.is_material(),
    ensures
        spawn_model(spawn_model(blocks, kind, p), kind2, p) == spawn_model(blocks, kind, p),
{
    let once = spawn_model(blocks, kind, p);
    if !occupied(blocks, p) {
        assert(once[once.len() - 1].position_of() == p);
    }
    assert(occupied(once, p));
}

/// Keeping the elements that satisfy `keep` a second time changes nothing.
pub proof fn lemma_filter_twice(s: Seq<Material>, keep: spec_fn(Material) -> bool)
    ensures
        s.filter(keep).filter(keep) == s.filter(keep),
    decreases s.len(),
{
    reveal(Seq::filter);
    if s.len() > 0 {
        let init = s.drop_last();
        lemma_filter_twice(init, keep);
        if keep(s.last()) {
            init.filter(keep).lemma_filter_push(s.last(), keep);
        }
    }
}

/// Erasing a cell a second time changes nothing.
pub proof fn law_erase_twice(blocks: Seq<Material>, p: GridPosition)
    ensures
        erase_model(erase_model(blocks, p), p) == erase_model(blocks, p),
{
    lemma_filter_twice(blocks, not_at(p));
}

/// Sand with a free, on-screen cell below falls into it in one tick: it is
/// then falling, one cell height lower, and it is in the new grid unless a
/// later material of the same tick ends on that cell too.
pub proof fn law_free_below_falls(
    blocks: Seq<Material>,
    viewport: Viewport,
    cell_size: CellSize,
    choices: Seq<bool>,
    i: int,
)
    requires
        cell_size.wf(),
        grid_wf(blocks, cell_size),
        0 <= i < blocks.len(),
        blocks[i] is Sand,
        gravity_target(blocks[i].position_of(), blocks, viewport, cell_size) is Some,
    ensures
        ({
            let moved = moved_all(blocks, viewport, cell_size, choices);
            let after = moved[i];
            &&& after.falling_of()
            &&& after.position_of().x == blocks[i].position_of().x
            &&& after.position_of().y == blocks[i].position_of().y + cell_size.height
            &&& is_last_at(moved, i) ==> tick_model(blocks, viewport, cell_size, choices).contains(after)
        }),
{
    let moved = moved_all(blocks, viewport, cell_size, choices);
    if is_last_at(moved, i) {
        lemma_survivor_kept(moved, moved.len() as int, i);
    }
}

/// A material whose cell below is taken or off screen either stays where it
/// is or moves to a diagonal neighbour below that was free and is on screen.
pub proof fn law_blocked_stays_or_slides(
    m: Material,
    viewport: Viewport,
    blocks: Seq<Material>,
    cell_size: CellSize,
    go_left: bool,
)
    requires
        gravity_target(m.position_of(), blocks, viewport, cell_size) is None,
    ensures
        ({
            let q = m.stepped(viewport, blocks, cell_size, go_left).position_of();
            ||| q == m.position_of()
            ||| {
                &&& (q == m.position_of().neighbour(Direction::BottomLeft, cell_size) || q
                    == m.position_of().neighbour(Direction::BottomRight, cell_size))
                &&& !occupied(blocks, q)
                &&& !q.offscreen(viewport)
            }
        }),
{
}

/// When the material below is at rest and both diagonals below are open,
/// the coin alone decides the side:
/// `true` takes the bottom-left one and `false` the bottom-right one.
pub proof fn law_coin_picks_side(p: GridPosition, blocks: Seq<Material>, cell_size: CellSize)
    requires
        block_at(blocks, p.neighbour(Direction::Bottom, cell_size)) is Some,
        !block_at(blocks, p.neighbour(Direction::Bottom, cell_size)).unwrap().falling_of(),
        !occupied(blocks, p.neighbour(Direction::BottomLeft, cell_size)),
        !occupied(blocks, p.neighbour(Direction::BottomRight, cell_size)),
    ensures
        chosen_diagonal(p, blocks, cell_size, true) == Some(p.neighbour(Direction::BottomLeft, cell_size)),
        chosen_diagonal(p, blocks, cell_size, false) == Some(
            p.neighbour(Direction::BottomRight, cell_size),
        ),
{
}

/// A material that moves in a tick moves onto a cell that was free.
pub proof fn lemma_stepped_free(
    m: Material,
    viewport: Viewport,
    blocks: Seq<Material>,
    cell_size: CellSize,
    go_left: bool,
)
    ensures
        ({
            let q = m.stepped(viewport, blocks, cell_size, go_left).position_of();
            q == m.position_of() || !occupied(blocks, q)
        }),
{
}

/// A tick keeps the grid well formed.
pub proof fn lemma_tick_wf(blocks: Seq<Material>, viewport: Viewport, cell_size: CellSize, choices: Seq<bool>)
    requires
        cell_size.wf(),
        grid_wf(blocks, cell_size),
    ensures
        grid_wf(tick_model(blocks, viewport, cell_size, choices), cell_size),
{
    let moved = moved_all(blocks, viewport, cell_size, choices);
    let n = moved.len() as int;
    let after = tick_model(blocks, viewport, cell_size, choices);
    lemma_survivors_distinct(moved, n);
    assert forall|a: int| 0 <= a < after.len() implies (#[trigger] after[a].position_of()).cell_size
        == cell_size && after[a].position_of().neighbours_fit(cell_size) by {
        lemma_survivor_origin(moved, n, a);
        let k = survivor_index(moved, n, a);
        assert(usable(blocks[k].position_of(), cell_size));
        lemma_stepped_usable(blocks[k], viewport, blocks, cell_size, choices[k]);
    }
}

/// A stone of the grid is still there, unchanged, after a tick.
pub proof fn law_stone_stays(
    blocks: Seq<Material>,
    viewport: Viewport,
    cell_size: CellSize,
    choices: Seq<bool>,
    stone: Material,
)
    requires
        grid_wf(blocks, cell_size),
        stone is Stone,
        blocks.contains(stone),
    ensures
        tick_model(blocks, viewport, cell_size, choices).contains(stone),
{
    let moved = moved_all(blocks, viewport, cell_size, choices);
    let k = choose|k: int| 0 <= k < blocks.len() && blocks[k] == stone;
    assert(moved[k] == stone);
    assert forall|j: int| k < j < moved.len() implies #[trigger] moved[j].position_of()
        != moved[k].position_of() by {
        lemma_stepped_free(blocks[j], viewport, blocks, cell_size, choices[j]);
        assert(blocks[j].position_of() != blocks[k].position_of());
    }
    lemma_survivor_kept(moved, moved.len() as int, k);
}

/// The grid after one tick for each of `rounds`, in order.
pub open spec fn run_model(
    blocks: Seq<Material>,
    viewport: Viewport,
    cell_size: CellSize,
    rounds: Seq<Seq<bool>>,
) -> Seq<Material>
    decreases rounds.len(),
{
    if rounds.len() == 0 {
        blocks
    } else {
        tick_model(
            run_model(blocks, viewport, cell_size, rounds.drop_last()),
            viewport,
            cell_size,
            rounds.last(),
        )
    }
}

/// A stone of the grid is still there, unchanged, after any number of ticks,
/// whatever the other materials do.
pub proof fn law_stone_stays_forever(
    blocks: Seq<Material>,
    viewport: Viewport,
    cell_size: CellSize,
    rounds: Seq<Seq<bool>>,
    stone: Material,
)
    requires
        cell_size.wf(),
        grid_wf(blocks, cell_size),
        stone is Stone,
        blocks.contains(stone),
    ensures
        grid_wf(run_model(blocks, viewport, cell_size, rounds), cell_size),
        run_model(blocks, viewport, cell_size, rounds).contains(stone),
    decreases rounds.len(),
{
    if rounds.len() > 0 {
        law_stone_stays_forever(blocks, viewport, cell_size, rounds.drop_last(), stone);
        let before = run_model(blocks, viewport, cell_size, rounds.drop_last());
        lemma_tick_wf(before, viewport, cell_size, rounds.last());
        law_stone_stays(before, viewport, cell_size, rounds.last(), stone);
    }
}

/// Rounding a non-negative `a` to a multiple of `d` gives the nearest one.
pub proof fn lemma_nearest_nonneg(a: int, d: int, k: int)
    requires
        a >= 0,
        d > 0,
    ensures
        dist(a, round_div_nonneg(a, d) * d) <= dist(a, k * d),
{
    lemma_fundamental_div_mod(a, d);
    let q = a / d;
    let r = a % d;
    assert(0 <= r < d);
    if k <= q {
        assert((q - k) * d >= 0) by (nonlinear_arith)
            requires
                k <= q,
                d > 0,
        ;
        assert(a - k * d == (q - k) * d + r) by (nonlinear_arith)
            requires
                a == d * q + r,
        ;
    } else {
        assert((k - q) * d >= d) by (nonlinear_arith)
            requires
                k >= q + 1,
                d > 0,
        ;
        assert(k * d - a == (k - q) * d - r) by (nonlinear_arith)
            requires
                a == d * q + r,
        ;
    }
    assert((q + 1) * d == q * d + d) by (nonlinear_arith);
    assert(a == q * d + r) by (nonlinear_arith)
        requires
            a == d * q + r,
    ;
}

/// The cell that a point falls in is the nearest lattice point: its top-left
/// corner is no farther from the point, along each axis, than that of any
/// other cell `(i, j)`.
pub proof fn law_round_trip_nearest(px: i32, py: i32, cell_size: CellSize, i: int, j: int)
    requires
        cell_size.wf(),
        fits_i32(round_div(px as int, cell_size.width as int) * cell_size.width),
        fits_i32(round_div(py as int, cell_size.height as int) * cell_size.height),
    ensures
        ({
            let g = GridPosition::at_lattice(
                round_div(px as int, cell_size.width as int),
                round_div(py as int, cell_size.height as int),
                cell_size,
            );
            &&& dist(px as int, g.x as int) <= dist(px as int, i * cell_size.width)
            &&& dist(py as int, g.y as int) <= dist(py as int, j * cell_size.height)
        }),
{
    lemma_nearest(px as int, cell_size.width as int, i);
    lemma_nearest(py as int, cell_size.height as int, j);
}

/// Rounding `p` to a multiple of `d` gives the nearest one.
pub proof fn lemma_nearest(p: int, d: int, k: int)
    requires
        d > 0,
    ensures
        dist(p, round_div(p, d) * d) <= dist(p, k * d),
{
    if p >= 0 {
        lemma_nearest_nonneg(p, d, k);
    } else {
        lemma_nearest_nonneg(-p, d, -k);
        let n = round_div_nonneg(-p, d);
        assert((-n) * d == -(n * d)) by (nonlinear_arith);
        assert((-k) * d == -(k * d)) by (nonlinear_arith);
    }
}

} // verus!
