//! Grid-level laws, proved once and for all.

use vstd::prelude::*;
use crate::cell::Cell;
use crate::grid::UniverseView;

verus! {

/// Two grids with the same dimensions and cell contents are the same
/// model, so every projection of the state agrees on them.
pub proof fn lemma_state_determines_model(a: UniverseView, b: UniverseView)
    requires
        a.width == b.width,
        a.height == b.height,
        a.cells == b.cells,
    ensures
        a == b,
{
}

/// Rendering is deterministic: it depends on the grid state alone, so
/// two renderings without a mutation in between are identical.
pub proof fn lemma_render_deterministic(a: UniverseView, b: UniverseView)
    requires
        a.width == b.width,
        a.height == b.height,
        a.cells == b.cells,
    ensures
        a.render_chars() == b.render_chars(),
{
    lemma_state_determines_model(a, b);
}

/// Resetting is idempotent: a second reset leaves exactly the state
/// the first one produced.
pub proof fn lemma_reset_idempotent(a: UniverseView, b: UniverseView, c: UniverseView)
    requires
        b.is_reset_of(a),
        c.is_reset_of(b),
    ensures
        c == b,
{
    assert(c.cells =~= b.cells);
}

/// Toroidal wraparound at the corner: the eight neighbors of `(0, 0)`
/// are the cells at `(h-1, w-1)`, `(h-1, 0)`, `(h-1, 1)`, `(0, w-1)`,
/// `(0, 1)`, `(1, w-1)`, `(1, 0)` and `(1, 1)`, wrapping on both axes
/// at once for the diagonal.
pub proof fn lemma_corner_wraparound(g: UniverseView)
    requires
        g.wf(),
        g.width >= 2,
        g.height >= 2,
    ensures
        g.live_neighbors(0, 0) == g.cell_at(g.height - 1, g.width - 1).weight() + g.cell_at(
            g.height - 1,
            0,
        ).weight() + g.cell_at(g.height - 1, 1).weight() + g.cell_at(0, g.width - 1).weight()
            + g.cell_at(0, 1).weight() + g.cell_at(1, g.width - 1).weight() + g.cell_at(
            1,
            0,
        ).weight() + g.cell_at(1, 1).weight(),
{
}

/// The live cells of `g` are exactly the 2x2 block whose north-west
/// corner is `(r0, c0)`, and the block keeps a margin of at least one
/// row and column to every edge, so wraparound never reaches it.
pub open spec fn is_block_grid(g: UniverseView, r0: int, c0: int) -> bool {
    &&& g.wf()
    &&& g.width >= 4
    &&& g.height >= 4
    &&& 1 <= r0
    &&& r0 + 2 < g.height
    &&& 1 <= c0
    &&& c0 + 2 < g.width
    &&& forall|r: int, c: int|
        g.in_bounds(r, c) ==> g.cell_at(r, c) == (if r0 <= r <= r0 + 1 && c0 <= c <= c0 + 1 {
            Cell::Alive
        } else {
            Cell::Dead
        })
}

/// A 2x2 block of live cells, elsewhere all dead and kept away from
/// the wrapping edges, is a still life: one generation step leaves
/// every cell unchanged. Each block cell sees exactly 3 live
/// neighbors and survives; no dead cell sees exactly 3.
pub proof fn lemma_block_stable(g: UniverseView, r0: int, c0: int)
    requires
        is_block_grid(g, r0, c0),
    ensures
        forall|r: int, c: int|
            g.in_bounds(r, c) ==> #[trigger] g.next_cell_at(r, c) == g.cell_at(r, c),
{
    assert forall|r: int, c: int| g.in_bounds(r, c) implies #[trigger] g.next_cell_at(r, c)
        == g.cell_at(r, c) by {
        lemma_block_cell(g, r0, c0, r, c);
    }
}

/// One cell of [`lemma_block_stable`]: under the 2x2-block state, the
/// cell at `(r, c)` keeps its state across one generation step.
proof fn lemma_block_cell(g: UniverseView, r0: int, c0: int, r: int, c: int)
    requires
        is_block_grid(g, r0, c0),
        g.in_bounds(r, c),
    ensures
        g.next_cell_at(r, c) == g.cell_at(r, c),
{
    let n = g.north_of(r);
    let s = g.south_of(r);
    let w = g.west_of(c);
    let e = g.east_of(c);
    assert(g.in_bounds(n, w) && g.in_bounds(n, c) && g.in_bounds(n, e));
    assert(g.in_bounds(r, w) && g.in_bounds(r, e));
    assert(g.in_bounds(s, w) && g.in_bounds(s, c) && g.in_bounds(s, e));
    assert((r0 <= n <= r0 + 1) == (r0 <= r - 1 <= r0 + 1));
    assert((r0 <= s <= r0 + 1) == (r0 <= r + 1 <= r0 + 1));
    assert((c0 <= w <= c0 + 1) == (c0 <= c - 1 <= c0 + 1));
    assert((c0 <= e <= c0 + 1) == (c0 <= c + 1 <= c0 + 1));
    assert(g.cell_at(n, w).weight() == block_weight(r0, c0, r - 1, c - 1));
    assert(g.cell_at(n, c).weight() == block_weight(r0, c0, r - 1, c));
    assert(g.cell_at(n, e).weight() == block_weight(r0, c0, r - 1, c + 1));
    assert(g.cell_at(r, w).weight() == block_weight(r0, c0, r, c - 1));
    assert(g.cell_at(r, e).weight() == block_weight(r0, c0, r, c + 1));
    assert(g.cell_at(s, w).weight() == block_weight(r0, c0, r + 1, c - 1));
    assert(g.cell_at(s, c).weight() == block_weight(r0, c0, r + 1, c));
    assert(g.cell_at(s, e).weight() == block_weight(r0, c0, r + 1, c + 1));
    let live = g.live_neighbors(r, c);
    assert(live == block_weight(r0, c0, r - 1, c - 1) + block_weight(r0, c0, r - 1, c)
        + block_weight(r0, c0, r - 1, c + 1) + block_weight(r0, c0, r, c - 1) + block_weight(
        r0,
        c0,
        r,
        c + 1,
    ) + block_weight(r0, c0, r + 1, c - 1) + block_weight(r0, c0, r + 1, c) + block_weight(
        r0,
        c0,
        r + 1,
        c + 1,
    ));
    if r0 <= r <= r0 + 1 && c0 <= c <= c0 + 1 {
        assert(live == 3);
    } else {
        assert(live != 3);
    }
    assert(g.next_cell_at(r, c) == g.cell_at(r, c));
}

/// Contribution of position `(r, c)` to a neighbor sum when the live
/// cells are exactly the 2x2 block anchored at `(r0, c0)`.
spec fn block_weight(r0: int, c0: int, r: int, c: int) -> int {
    if r0 <= r <= r0 + 1 && c0 <= c <= c0 + 1 {
        1
    } else {
        0
    }
}

} // verus!
