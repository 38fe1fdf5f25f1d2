//! The grid: cell storage, coordinate-safe access, and neighbour geometry.
//!
//! Coordinate addressing is *bounded*: a coordinate outside
//! `[0, width) x [0, height)` is a usage error on the caller's side, ruled out
//! by precondition rather than wrapped around. The grid therefore has no
//! toroidal adjacency: border cells simply have fewer neighbours.

use vstd::prelude::*;

verus! {

/// Whether `(x, y)` lies inside a `width` by `height` grid.
pub open spec fn in_bounds(width: int, height: int, x: int, y: int) -> bool {
    0 <= x < width && 0 <= y < height
}

/// The singleton `[(x, y)]` when `(x, y)` lies inside a `width` by `height`
/// grid, and the empty sequence otherwise.
pub open spec fn keep_if_in_bounds(width: int, height: int, x: int, y: int) -> Seq<
    (usize, usize),
> {
    if in_bounds(width, height, x, y) {
        seq![(x as usize, y as usize)]
    } else {
        seq![]
    }
}

/// The Moore neighbourhood of `(x, y)` under the bounded addressing policy:
/// the up-to-eight surrounding coordinates, excluding `(x, y)` itself and
/// every coordinate that falls outside the grid, listed with the lower `x`
/// side first and, within one `x` offset, the lower `y` side first.
pub open spec fn neighbour_seq(width: int, height: int, x: int, y: int) -> Seq<(usize, usize)> {
    keep_if_in_bounds(width, height, x - 1, y - 1) + keep_if_in_bounds(width, height, x - 1, y)
        + keep_if_in_bounds(width, height, x - 1, y + 1) + keep_if_in_bounds(
        width,
        height,
        x,
        y - 1,
    ) + keep_if_in_bounds(width, height, x, y + 1) + keep_if_in_bounds(width, height, x + 1, y - 1)
        + keep_if_in_bounds(width, height, x + 1, y) + keep_if_in_bounds(width, height, x + 1, y + 1)
}

/// The cell matrix `g` with the cell at `(x, y)` replaced by `v`; every other
/// cell is unchanged.
pub open spec fn with_cell(g: Seq<Seq<bool>>, x: int, y: int, v: bool) -> Seq<Seq<bool>> {
    g.update(x, g[x].update(y, v))
}

/// The cell matrix `g` with the cell at `(x, y)` flipped.
pub open spec fn toggled(g: Seq<Seq<bool>>, x: int, y: int) -> Seq<Seq<bool>> {
    with_cell(g, x, y, !g[x][y])
}

/// An error raised by fallible grid construction.
#[derive(Clone, Copy, Debug, PartialEq, Eq, Structural)]
pub enum GridError {
    /// A zero width or a zero height was passed to the constructor.
    ZeroDimension,
}

/// A fixed-size matrix of boolean cell states, indexed `[x][y]` with
/// `0 <= x < width` and `0 <= y < height`. Dimensions are positive and never
/// change after construction.
pub struct Grid {
    pub width: usize,
    pub height: usize,
    pub matrix: Vec<Vec<bool>>,
}

impl View for Grid {
    type V = Seq<Seq<bool>>;

    open spec fn view(&self) -> Seq<Seq<bool>> {
        self.matrix@.map_values(|row: Vec<bool>| row@)
    }
}

impl Grid {
    /// The stored matrix matches the declared dimensions, and both are
    /// positive: every coordinate of `[0, width) x [0, height)` maps to
    /// exactly one stored cell.
    pub open spec fn wf(self) -> bool {
        &&& self.width > 0
        &&& self.height > 0
        &&& self@.len() == self.width
        &&& forall|x: int| 0 <= x < self@.len() ==> (#[trigger] self@[x]).len() == self.height
    }

    /// The state of the cell at `(x, y)`.
    pub open spec fn cell(self, x: int, y: int) -> bool {
        self@[x][y]
    }

    /// Create a grid of the given dimensions with every cell set to
    /// `initial_state`. Zero dimensions are a usage error; see `try_new` for
    /// the fallible form.
    pub fn new(width: usize, height: usize, initial_state: bool) -> (g: Grid)
        requires
            width > 0,
            height > 0,
        ensures
            g.wf(),
            g.width == width,
            g.height == height,
            forall|x: int, y: int|
                in_bounds(width as int, height as int, x, y) ==> g.cell(x, y) == initial_state,
    {
        let mut matrix: Vec<Vec<bool>> = Vec::new();
        for x in 0..width
            invariant
                matrix@.len() == x,
                forall|i: int| 0 <= i < x ==> (#[trigger] matrix@[i])@.len() == height,
                forall|i: int, j: int|
                    0 <= i < x && 0 <= j < height ==> matrix@[i]@[j] == initial_state,
        {
            let mut row: Vec<bool> = Vec::new();
            for y in 0..height
                invariant
                    row@.len() == y,
                    forall|j: int| 0 <= j < y ==> row@[j] == initial_state,
            {
                row.push(initial_state);
            }
            matrix.push(row);
        }
        let g = Grid { width, height, matrix };
        proof {
            assert(g@.len() == width);
            assert forall|x: int, y: int|
                in_bounds(width as int, height as int, x, y) implies g.cell(x, y)
                == initial_state by {
                assert(g@[x] == g.matrix@[x]@);
            }
            assert forall|x: int| 0 <= x < g@.len() implies (#[trigger] g@[x]).len()
                == height by {
                assert(g@[x] == g.matrix@[x]@);
            }
        }
        g
    }

    /// Fallible construction: like `new`, but reports a construction error
    /// instead of requiring positive dimensions. No partially-initialized
    /// grid is ever produced: a zero dimension yields an error value only.
    pub fn try_new(width: usize, height: usize, initial_state: bool) -> (r: Result<
        Grid,
        GridError,
    >)
        ensures
            r is Ok <==> width > 0 && height > 0,
            r is Err ==> r->Err_0 == GridError::ZeroDimension,
            r is Ok ==> {
                &&& r->Ok_0.wf()
                &&& r->Ok_0.width == width
                &&& r->Ok_0.height == height
                &&& forall|x: int, y: int|
                    in_bounds(width as int, height as int, x, y) ==> r->Ok_0.cell(x, y)
                        == initial_state
            },
    {
        if width == 0 || height == 0 {
            Err(GridError::ZeroDimension)
        } else {
            Ok(Grid::new(width, height, initial_state))
        }
    }

    /// Get the state of the cell at `(x, y)`.
    pub fn get(&self, x: usize, y: usize) -> (state: bool)
        requires
            self.wf(),
            x < self.width,
            y < self.height,
        ensures
            state == self.cell(x as int, y as int),
    {
        proof {
            assert(self@[x as int] == self.matrix@[x as int]@);
        }
        self.matrix[x][y]
    }

    /// Write `value` at `(x, y)`. Mutates exactly that cell: every other cell
    /// and both dimensions are unchanged.
    pub fn update(&mut self, x: usize, y: usize, value: bool)
        requires
            old(self).wf(),
            x < old(self).width,
            y < old(self).height,
        ensures
            final(self).wf(),
            final(self).width == old(self).width,
            final(self).height == old(self).height,
            final(self)@ == with_cell(old(self)@, x as int, y as int, value),
            final(self).cell(x as int, y as int) == value,
            forall|i: int, j: int|
                in_bounds(old(self).width as int, old(self).height as int, i, j) && (i != x || j
                    != y) ==> final(self).cell(i, j) == old(self).cell(i, j),
    {
        proof {
            assert(self@[x as int] == self.matrix@[x as int]@);
        }
        self.matrix[x][y] = value;
        proof {
            assert forall|i: int| 0 <= i < self.matrix@.len() implies #[trigger] self@[i]
                == self.matrix@[i]@ by {}
            assert(self@ =~~= with_cell(old(self)@, x as int, y as int, value));
        }
    }

    /// Flip the state of the cell at `(x, y)`. Mutates exactly that cell.
    pub fn toggle(&mut self, x: usize, y: usize)
        requires
            old(self).wf(),
            x < old(self).width,
            y < old(self).height,
        ensures
            final(self).wf(),
            final(self).width == old(self).width,
            final(self).height == old(self).height,
            final(self)@ == toggled(old(self)@, x as int, y as int),
            final(self).cell(x as int, y as int) == !old(self).cell(x as int, y as int),
            forall|i: int, j: int|
                in_bounds(old(self).width as int, old(self).height as int, i, j) && (i != x || j
                    != y) ==> final(self).cell(i, j) == old(self).cell(i, j),
    {
        let state = self.get(x, y);
        self.update(x, y, !state);
    }

    /// Produce an independent deep copy with identical dimensions and cell
    /// contents. Used once per generation to freeze the read-only snapshot
    /// that the transition rule consults while the next buffer is written.
    pub fn duplicate(&self) -> (dup: Grid)
        requires
            self.wf(),
        ensures
            dup.wf(),
            dup.width == self.width,
            dup.height == self.height,
            dup@ == self@,
    {
        let mut matrix: Vec<Vec<bool>> = Vec::new();
        for x in 0..self.width
            invariant
                self.wf(),
                matrix@.len() == x,
                forall|i: int| 0 <= i < x ==> (#[trigger] matrix@[i])@ == self@[i],
        {
            let mut row: Vec<bool> = Vec::new();
            for y in 0..self.height
                invariant
                    self.wf(),
                    x < self.width,
                    row@.len() == y,
                    forall|j: int| 0 <= j < y ==> row@[j] == self.cell(x as int, j),
            {
                row.push(self.get(x, y));
            }
            proof {
                assert(row@ =~= self@[x as int]);
            }
            matrix.push(row);
        }
        let dup = Grid { width: self.width, height: self.height, matrix };
        proof {
            assert forall|i: int| 0 <= i < dup.matrix@.len() implies #[trigger] dup@[i]
                == dup.matrix@[i]@ by {}
            assert(dup@ =~~= self@);
        }
        dup
    }

    /// All of the grid's valid coordinates, in row-major order: `(x, y)` at
    /// index `x * height + y`, so `x` advances in the outer position and `y`
    /// in the inner one.
    pub fn coordinates(&self) -> (coords: Vec<(usize, usize)>)
        requires
            self.wf(),
        ensures
            coords@.len() == self.width * self.height,
            forall|i: int| 0 <= i < coords@.len() ==> (#[trigger] coords@[i]).0 < self.width,
            forall|i: int| 0 <= i < coords@.len() ==> (#[trigger] coords@[i]).1 < self.height,
            forall|i: int|
                0 <= i < coords@.len() ==> (#[trigger] coords@[i]).0 == i / (self.height as int)
                    && coords@[i].1 == i % (self.height as int),
    {
        let mut coords: Vec<(usize, usize)> = Vec::new();
        proof {
            assert(0 * (self.height as int) == 0) by (nonlinear_arith);
        }
        for x in 0..self.width
            invariant
                self.wf(),
                coords@.len() == x * self.height,
                forall|i: int| 0 <= i < coords@.len() ==> (#[trigger] coords@[i]).0 < self.width,
                forall|i: int| 0 <= i < coords@.len() ==> (#[trigger] coords@[i]).1 < self.height,
                forall|i: int|
                    0 <= i < coords@.len() ==> (#[trigger] coords@[i]).0 == i / (
                    self.height as int) && coords@[i].1 == i % (self.height as int),
        {
            for y in 0..self.height
                invariant
                    self.wf(),
                    x < self.width,
                    coords@.len() == x * self.height + y,
                    forall|i: int|
                        0 <= i < coords@.len() ==> (#[trigger] coords@[i]).0 < self.width,
                    forall|i: int|
                        0 <= i < coords@.len() ==> (#[trigger] coords@[i]).1 < self.height,
                    forall|i: int|
                        0 <= i < coords@.len() ==> (#[trigger] coords@[i]).0 == i / (
                        self.height as int) && coords@[i].1 == i % (self.height as int),
            {
                proof {
                    let k = x * self.height + y;
                    assert(k / (self.height as int) == x && k % (self.height as int) == y) by {
                        vstd::arithmetic::div_mod::lemma_fundamental_div_mod_converse(
                            k as int,
                            self.height as int,
                            x as int,
                            y as int,
                        );
                    }
                }
                coords.push((x, y));
            }
            proof {
                assert((x as int + 1) * (self.height as int) == x as int * (self.height as int)
                    + self.height as int) by (nonlinear_arith);
            }
        }
        coords
    }

    /// All valid neighbours of the cell at `(x, y)`, as coordinates. A corner
    /// cell has 3, a non-corner border cell 5, and an interior cell 8.
    #[verifier::rlimit(100)]
    pub fn neighbours(&self, x: usize, y: usize) -> (nbrs: Vec<(usize, usize)>)
        requires
            self.wf(),
            x < self.width,
            y < self.height,
        ensures
            nbrs@ == neighbour_seq(self.width as int, self.height as int, x as int, y as int),
            forall|i: int|
                0 <= i < nbrs@.len() ==> (#[trigger] nbrs@[i]).0 < self.width && nbrs@[i].1
                    < self.height,
    {
        let mut nbrs: Vec<(usize, usize)> = Vec::new();
        if x > 0 {
            if y > 0 {
                nbrs.push((x - 1, y - 1));
            }
            nbrs.push((x - 1, y));
            if y + 1 < self.height {
                nbrs.push((x - 1, y + 1));
            }
        }
        if y > 0 {
            nbrs.push((x, y - 1));
        }
        if y + 1 < self.height {
            nbrs.push((x, y + 1));
        }
        if x + 1 < self.width {
            if y > 0 {
                nbrs.push((x + 1, y - 1));
            }
            nbrs.push((x + 1, y));
            if y + 1 < self.height {
                nbrs.push((x + 1, y + 1));
            }
        }
        proof {
            assert(nbrs@ =~= neighbour_seq(
                self.width as int,
                self.height as int,
                x as int,
                y as int,
            ));
        }
        nbrs
    }

    /// The states of all valid neighbours of the cell at `(x, y)`, in the
    /// order of `neighbours`.
    pub fn neighbour_states(&self, x: usize, y: usize) -> (states: Vec<bool>)
        requires
            self.wf(),
            x < self.width,
            y < self.height,
        ensures
            ({
                let nbrs = neighbour_seq(
                    self.width as int,
                    self.height as int,
                    x as int,
                    y as int,
                );
                &&& states@.len() == nbrs.len()
                &&& forall|i: int|
                    0 <= i < nbrs.len() ==> states@[i] == self.cell(
                        (#[trigger] nbrs[i]).0 as int,
                        nbrs[i].1 as int,
                    )
            }),
    {
        let nbrs = self.neighbours(x, y);
        let mut states: Vec<bool> = Vec::new();
        let mut i: usize = 0;
        while i < nbrs.len()
            invariant
                self.wf(),
                x < self.width,
                y < self.height,
                nbrs@ == neighbour_seq(self.width as int, self.height as int, x as int, y as int),
                forall|k: int|
                    0 <= k < nbrs@.len() ==> (#[trigger] nbrs@[k]).0 < self.width && nbrs@[k].1
                        < self.height,
                i <= nbrs@.len(),
                states@.len() == i,
                forall|k: int|
                    0 <= k < i ==> states@[k] == self.cell(
                        (#[trigger] nbrs@[k]).0 as int,
                        nbrs@[k].1 as int,
                    ),
            decreases nbrs@.len() - i,
        {
            let (nx, ny) = nbrs[i];
            states.push(self.get(nx, ny));
            i += 1;
        }
        states
    }
}

/// Toggling the same cell twice restores the original matrix: `toggled` is an
/// involution on any cell matrix, at any coordinate that addresses a stored
/// cell.
pub proof fn lemma_toggle_involution(g: Seq<Seq<bool>>, x: int, y: int)
    requires
        0 <= x < g.len(),
        0 <= y < g[x].len(),
    ensures
        toggled(toggled(g, x, y), x, y) == g,
{
    let g1 = toggled(g, x, y);
    assert(g1[x] == g[x].update(y, !g[x][y]));
    assert(g1[x].update(y, !g1[x][y]) =~= g[x]);
    assert(toggled(g1, x, y) =~~= g);
}

} // verus!
