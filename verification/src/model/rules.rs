//! The transition rule engine: Conway's standard rule, computed per cell from
//! a read-only grid snapshot, and the full-generation sweep built on it.

use vstd::prelude::*;

use crate::model::grid::Grid;
use crate::model::grid::in_bounds;
use crate::model::grid::neighbour_seq;

verus! {

/// The number of live cells of `g` among the first `n` coordinates of
/// `coords`.
pub open spec fn live_in_prefix(g: Seq<Seq<bool>>, coords: Seq<(usize, usize)>, n: int) -> int
    decreases n,
{
    if n <= 0 {
        0
    } else {
        live_in_prefix(g, coords, n - 1) + if g[coords[n - 1].0 as int][coords[n - 1].1 as int] {
            1int
        } else {
            0int
        }
    }
}

/// The number of live Moore neighbours of `(x, y)` in the cell matrix `g`
/// (bounded policy: coordinates outside the grid are not neighbours).
pub open spec fn live_neighbour_count(g: Seq<Seq<bool>>, x: int, y: int) -> int {
    let nbrs = neighbour_seq(g.len() as int, g[0].len() as int, x, y);
    live_in_prefix(g, nbrs, nbrs.len() as int)
}

/// Conway's transition rule for the cell at `(x, y)` of the snapshot `g`:
/// fewer than two live neighbours kill the cell (underpopulation), more than
/// three kill it (overpopulation), exactly three make it alive (reproduction
/// or survival), and exactly two leave it as it is (stasis).
pub open spec fn next_state(g: Seq<Seq<bool>>, x: int, y: int) -> bool {
    let alive = g[x][y];
    let n = live_neighbour_count(g, x, y);
    if n < 2 {
        false
    } else if n > 3 {
        false
    } else if n == 3 {
        true
    } else {
        alive
    }
}

/// Compute the state of the cell at `(x, y)` on the next generation, reading
/// only from the snapshot `grid`.
pub fn compute_cell_new_state(grid: &Grid, x: usize, y: usize) -> (state: bool)
    requires
        grid.wf(),
        x < grid.width,
        y < grid.height,
    ensures
        state == next_state(grid@, x as int, y as int),
{
    let cell_is_alive = grid.get(x, y);

    let nbrs = grid.neighbours(x, y);
    let mut neighbour_count: usize = 0;
    let mut i: usize = 0;
    while i < nbrs.len()
        invariant
            grid.wf(),
            x < grid.width,
            y < grid.height,
            nbrs@ == neighbour_seq(grid.width as int, grid.height as int, x as int, y as int),
            forall|k: int|
                0 <= k < nbrs@.len() ==> (#[trigger] nbrs@[k]).0 < grid.width && nbrs@[k].1
                    < grid.height,
            i <= nbrs@.len(),
            neighbour_count <= i,
            neighbour_count == live_in_prefix(grid@, nbrs@, i as int),
        decreases nbrs@.len() - i,
    {
        let (nx, ny) = nbrs[i];
        if grid.get(nx, ny) {
            neighbour_count += 1;
        }
        i += 1;
    }
    proof {
        assert(grid@.len() == grid.width);
        assert(grid@[0].len() == grid.height);
        assert(neighbour_count == live_neighbour_count(grid@, x as int, y as int));
    }

    let underpopulation = neighbour_count < 2;
    let overpopulation = neighbour_count > 3;
    let reproduction = neighbour_count == 3;

    if underpopulation || overpopulation {
        return false;
    }

    if !cell_is_alive && reproduction {
        return true;
    }

    cell_is_alive
}

/// Advance `grid` by one full generation: every cell takes the state that the
/// transition rule computes from the frozen snapshot of the previous
/// generation. The snapshot is an independent deep copy, so every neighbour
/// read observes the pre-update state (snapshot isolation).
pub fn next_generation(grid: &mut Grid)
    requires
        old(grid).wf(),
    ensures
        final(grid).wf(),
        final(grid).width == old(grid).width,
        final(grid).height == old(grid).height,
        forall|x: int, y: int|
            in_bounds(old(grid).width as int, old(grid).height as int, x, y) ==> final(grid).cell(
                x,
                y,
            ) == next_state(old(grid)@, x, y),
{
    let prev = grid.duplicate();
    let mut x: usize = 0;
    while x < prev.width
        invariant
            prev.wf(),
            prev@ == old(grid)@,
            prev.width == old(grid).width,
            prev.height == old(grid).height,
            grid.wf(),
            grid.width == prev.width,
            grid.height == prev.height,
            x <= prev.width,
            forall|i: int, j: int|
                in_bounds(prev.width as int, prev.height as int, i, j) && i < x
                    ==> #[trigger] grid.cell(i, j) == next_state(prev@, i, j),
            forall|i: int, j: int|
                in_bounds(prev.width as int, prev.height as int, i, j) && i >= x
                    ==> #[trigger] grid.cell(i, j) == prev@[i][j],
        decreases prev.width - x,
    {
        let mut y: usize = 0;
        while y < prev.height
            invariant
                prev.wf(),
                prev@ == old(grid)@,
                prev.width == old(grid).width,
                prev.height == old(grid).height,
                grid.wf(),
                grid.width == prev.width,
                grid.height == prev.height,
                x < prev.width,
                y <= prev.height,
                forall|i: int, j: int|
                    in_bounds(prev.width as int, prev.height as int, i, j) && (i < x || (i == x && j
                        < y)) ==> #[trigger] grid.cell(i, j) == next_state(prev@, i, j),
                forall|i: int, j: int|
                    in_bounds(prev.width as int, prev.height as int, i, j) && (i > x || (i == x && j
                        >= y)) ==> #[trigger] grid.cell(i, j) == prev@[i][j],
            decreases prev.height - y,
        {
            let state = compute_cell_new_state(&prev, x, y);
            grid.update(x, y, state);
            y += 1;
        }
        x += 1;
    }
}

} // verus!
