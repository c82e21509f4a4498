//! The occupancy of the grid, and what a tick, a placement and an erasure
//! do to it, as mathematical sequences of materials.
use vstd::prelude::*;

use crate::blocks::block::{distinct_positions, occupied, Material};
use crate::components::block_types::BlockType;
use crate::components::cell_size::CellSize;
use crate::components::grid_position::{GridPosition, Viewport};

verus! {

broadcast use vstd::seq_lib::group_filter_ensures;

/// A well-formed occupancy: one material per position, every position of the
/// grid's cell size and far enough from the limits of `i32` for its
/// neighbours to be computed.
pub open spec fn grid_wf(blocks: Seq<Material>, cell_size: CellSize) -> bool {
    &&& distinct_positions(blocks)
    &&& forall|i: int|
        0 <= i < blocks.len() ==> (#[trigger] blocks[i].position_of()).cell_size == cell_size
            && blocks[i].position_of().neighbours_fit(cell_size)
}

/// A position that a material of a grid of `cell_size` may take.
pub open spec fn usable(p: GridPosition, cell_size: CellSize) -> bool {
    p.cell_size == cell_size && p.neighbours_fit(cell_size)
}

/// Placing `kind` at `p`: nothing happens on an occupied cell or for the eraser.
pub open spec fn spawn_model(blocks: Seq<Material>, kind: BlockType, p: GridPosition) -> Seq<
    Material,
> {
    if !kind.is_material() || occupied(blocks, p) {
        blocks
    } else {
        blocks.push(Material::spawned(kind, p))
    }
}

/// Whether a material lies elsewhere than at `p`.
pub open spec fn not_at(p: GridPosition) -> spec_fn(Material) -> bool {
    |m: Material| m.position_of() != p
}

/// Erasing `p`: every material there goes, the others keep their order.
pub open spec fn erase_model(blocks: Seq<Material>, p: GridPosition) -> Seq<Material> {
    blocks.filter(not_at(p))
}

/// Every material of the grid after its own gravity and motion against the
/// grid as it was, `choices[i]` deciding for the material at index `i`.
pub open spec fn moved_all(
    blocks: Seq<Material>,
    viewport: Viewport,
    cell_size: CellSize,
    choices: Seq<bool>,
) -> Seq<Material> {
    Seq::new(blocks.len(), |i: int| blocks[i].stepped(viewport, blocks, cell_size, choices[i]))
}

/// No material after index `i` of `moved` ends where `moved[i]` does.
pub open spec fn is_last_at(moved: Seq<Material>, i: int) -> bool {
    forall|j: int| i < j < moved.len() ==> #[trigger] moved[j].position_of() != moved[i].position_of()
}

/// The first `n` moved materials that keep their place when the grid is
/// rebuilt: where two end at one position, the later one stays.
pub open spec fn survivors(moved: Seq<Material>, n: int) -> Seq<Material>
    decreases n,
{
    if n <= 0 {
        seq![]
    } else if is_last_at(moved, n - 1) {
        survivors(moved, n - 1).push(moved[n - 1])
    } else {
        survivors(moved, n - 1)
    }
}

/// The positions, among the first `n` moved materials, of those that a later
/// one overwrote: one entry per material lost.
pub open spec fn overwritten(moved: Seq<Material>, n: int) -> Seq<GridPosition>
    decreases n,
{
    if n <= 0 {
        seq![]
    } else if is_last_at(moved, n - 1) {
        overwritten(moved, n - 1)
    } else {
        overwritten(moved, n - 1).push(moved[n - 1].position_of())
    }
}

/// The grid after one tick.
pub open spec fn tick_model(
    blocks: Seq<Material>,
    viewport: Viewport,
    cell_size: CellSize,
    choices: Seq<bool>,
) -> Seq<Material> {
    let moved = moved_all(blocks, viewport, cell_size, choices);
    survivors(moved, moved.len() as int)
}

/// The collisions of one tick: a position for each material overwritten.
pub open spec fn tick_collisions(
    blocks: Seq<Material>,
    viewport: Viewport,
    cell_size: CellSize,
    choices: Seq<bool>,
) -> Seq<GridPosition> {
    let moved = moved_all(blocks, viewport, cell_size, choices);
    overwritten(moved, moved.len() as int)
}

/// The index in `moved` of the survivor at index `a`.
pub open spec fn survivor_index(moved: Seq<Material>, n: int, a: int) -> int
    decreases n,
{
    if n <= 0 {
        0
    } else if is_last_at(moved, n - 1) && a == survivors(moved, n - 1).len() {
        n - 1
    } else {
        survivor_index(moved, n - 1, a)
    }
}

/// Each survivor is the moved material at its survivor index, which no later
/// one overwrote.
pub proof fn lemma_survivor_origin(moved: Seq<Material>, n: int, a: int)
    requires
        0 <= n <= moved.len(),
        0 <= a < survivors(moved, n).len(),
    ensures
        0 <= survivor_index(moved, n, a) < n,
        is_last_at(moved, survivor_index(moved, n, a)),
        survivors(moved, n)[a] == moved[survivor_index(moved, n, a)],
    decreases n,
{
    if n > 0 {
        if is_last_at(moved, n - 1) {
            if a < survivors(moved, n - 1).len() {
                lemma_survivor_origin(moved, n - 1, a);
            }
        } else {
            lemma_survivor_origin(moved, n - 1, a);
        }
    }
}

/// Every moved material that no later one overwrote survives.
pub proof fn lemma_survivor_kept(moved: Seq<Material>, n: int, k: int)
    requires
        0 <= k < n <= moved.len(),
        is_last_at(moved, k),
    ensures
        survivors(moved, n).contains(moved[k]),
    decreases n,
{
    let prev = survivors(moved, n - 1);
    let cur = survivors(moved, n);
    if k < n - 1 {
        lemma_survivor_kept(moved, n - 1, k);
        let a = choose|a: int| 0 <= a < prev.len() && prev[a] == moved[k];
        assert(cur[a] == moved[k]);
    } else {
        assert(cur[cur.len() - 1] == moved[k]);
    }
}

/// No two survivors share a position.
pub proof fn lemma_survivors_distinct(moved: Seq<Material>, n: int)
    requires
        0 <= n <= moved.len(),
    ensures
        distinct_positions(survivors(moved, n)),
    decreases n,
{
    if n > 0 {
        lemma_survivors_distinct(moved, n - 1);
        let prev = survivors(moved, n - 1);
        let cur = survivors(moved, n);
        if is_last_at(moved, n - 1) {
            assert forall|a: int, b: int|
                0 <= a < cur.len() && 0 <= b < cur.len() && a != b implies #[trigger] cur[a].position_of()
                != #[trigger] cur[b].position_of() by {
                if a < prev.len() && b < prev.len() {
                    assert(cur[a] == prev[a] && cur[b] == prev[b]);
                } else if a < prev.len() {
                    lemma_survivor_origin(moved, n - 1, a);
                    assert(cur[a] == prev[a]);
                } else {
                    lemma_survivor_origin(moved, n - 1, b);
                    assert(cur[b] == prev[b]);
                }
            }
        } else {
            assert(cur =~= prev);
        }
    }
}

/// Keeping some materials of a grid keeps their positions distinct.
pub proof fn lemma_filter_distinct(s: Seq<Material>, keep: spec_fn(Material) -> bool)
    requires
        distinct_positions(s),
    ensures
        distinct_positions(s.filter(keep)),
        forall|a: int| 0 <= a < s.filter(keep).len() ==> s.contains(#[trigger] s.filter(keep)[a]),
    decreases s.len(),
{
    reveal(Seq::filter);
    if s.len() > 0 {
        let init = s.drop_last();
        assert(distinct_positions(init)) by {
            assert forall|i: int, j: int|
                0 <= i < init.len() && 0 <= j < init.len() && i != j implies #[trigger] init[i].position_of()
                != #[trigger] init[j].position_of() by {
                assert(init[i] == s[i] && init[j] == s[j]);
            }
        }
        lemma_filter_distinct(init, keep);
        let fi = init.filter(keep);
        if keep(s.last()) {
            let f = s.filter(keep);
            assert(f == fi.push(s.last()));
            assert forall|i: int, j: int|
                0 <= i < f.len() && 0 <= j < f.len() && i != j implies #[trigger] f[i].position_of()
                != #[trigger] f[j].position_of() by {
                if i < fi.len() && j < fi.len() {
                    assert(f[i] == fi[i] && f[j] == fi[j]);
                } else if i < fi.len() {
                    assert(f[i] == fi[i]);
                    let a = choose|a: int| 0 <= a < init.len() && init[a] == fi[i];
                    assert(s[a] == init[a]);
                    assert(s[s.len() - 1] == f[j]);
                } else {
                    assert(f[j] == fi[j]);
                    let a = choose|a: int| 0 <= a < init.len() && init[a] == fi[j];
                    assert(s[a] == init[a]);
                    assert(s[s.len() - 1] == f[i]);
                }
            }
        }
    }
}

/// How many times `p` occurs in `s`.
pub open spec fn count_of(s: Seq<GridPosition>, p: GridPosition) -> nat
    decreases s.len(),
{
    if s.len() == 0 {
        0
    } else {
        count_of(s.drop_last(), p) + if s.last() == p {
            1nat
        } else {
            0
        }
    }
}

/// A position occurs in `s` exactly when it is counted there.
pub proof fn lemma_count_of_contains(s: Seq<GridPosition>, p: GridPosition)
    ensures
        count_of(s, p) > 0 <==> s.contains(p),
        count_of(s, p) <= s.len(),
    decreases s.len(),
{
    if s.len() > 0 {
        let init = s.drop_last();
        lemma_count_of_contains(init, p);
        if init.contains(p) {
            let i = choose|i: int| 0 <= i < init.len() && init[i] == p;
            assert(s[i] == p);
        }
        if s.contains(p) && s.last() != p {
            let i = choose|i: int| 0 <= i < s.len() && s[i] == p;
            assert(init[i] == p);
        }
    }
}

} // verus!
