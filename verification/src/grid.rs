//! The grid of cells and the single-cell update rule.
//!
//! A `Grid` is a rectangular, fixed-size container of cell states. Its view
//! is a sequence of rows, each row a sequence of `bool`s, `true` for a live
//! cell. The neighbour count and the rule table are spec functions over that
//! view; `count_live_neighbors` and `next_state` compute them.

use vstd::prelude::*;

use crate::store::{a2d_cells, a2d_clone, a2d_filled_dead, a2d_get, a2d_set};

verus! {

/// The state of one cell: every cell is either dead or live.
#[derive(Clone, Copy, PartialEq, Eq, Structural, Debug)]
pub enum CellState {
    Dead,
    Live,
}

/// Whether position `(r, c)` holds a live cell. Positions outside the grid
/// count as dead: this is the clamped (non-wrapping) edge policy.
pub open spec fn live_at(g: Seq<Seq<bool>>, r: int, c: int) -> bool {
    0 <= r < g.len() && 0 <= c < g[r].len() && g[r][c]
}

/// One if the cell is live, zero if it is dead.
pub open spec fn count_bool(b: bool) -> nat {
    if b {
        1
    } else {
        0
    }
}

/// The number of live cells among the Moore neighbours of `(r, c)`: the up
/// to eight cells adjacent horizontally, vertically or diagonally, with
/// out-of-bounds positions contributing nothing. The cell itself is not a
/// neighbour.
pub open spec fn live_neighbors(g: Seq<Seq<bool>>, r: int, c: int) -> nat {
    count_bool(live_at(g, r - 1, c - 1)) + count_bool(live_at(g, r - 1, c)) + count_bool(
        live_at(g, r - 1, c + 1),
    ) + count_bool(live_at(g, r, c - 1)) + count_bool(live_at(g, r, c + 1)) + count_bool(
        live_at(g, r + 1, c - 1),
    ) + count_bool(live_at(g, r + 1, c)) + count_bool(live_at(g, r + 1, c + 1))
}

/// The rule table: with 0 or 1 live neighbours the cell dies, with 2 it
/// keeps its own previous state, with 3 it is live, and with 4 or more it
/// dies. The result depends on the previous generation alone.
pub open spec fn next_cell(g: Seq<Seq<bool>>, r: int, c: int) -> bool {
    let n = live_neighbors(g, r, c);
    if n == 2 {
        live_at(g, r, c)
    } else {
        n == 3
    }
}

/// Every row has the same length as the first.
pub open spec fn rectangular(g: Seq<Seq<bool>>) -> bool {
    forall|i: int| 0 <= i < g.len() ==> (#[trigger] g[i]).len() == g[0].len()
}

/// A rectangular, fixed-size grid of cell states. Dimensions never change
/// after construction.
#[derive(Debug, PartialEq, Eq)]
pub struct Grid {
    pub cells: array2d::Array2D<CellState>,
    pub rows: usize,
    pub cols: usize,
}

impl View for Grid {
    type V = Seq<Seq<bool>>;

    open spec fn view(&self) -> Seq<Seq<bool>> {
        a2d_cells(self.cells)
    }
}

impl Grid {
    /// Well-formed: both dimensions are at least one, the cell count is
    /// addressable, and the stored dimensions match the contents, every row
    /// of which has the same length.
    pub open spec fn wf(&self) -> bool {
        &&& 1 <= self.rows
        &&& 1 <= self.cols
        &&& self.rows * self.cols <= usize::MAX
        &&& self@.len() == self.rows
        &&& forall|r: int| 0 <= r < self@.len() ==> (#[trigger] self@[r]).len() == self.cols
    }

    /// A grid of the given dimensions with every cell dead.
    pub fn new_dead(rows: usize, cols: usize) -> (g: Grid)
        requires
            1 <= rows,
            1 <= cols,
            rows * cols <= usize::MAX,
        ensures
            g.wf(),
            g.rows == rows,
            g.cols == cols,
            g@ == Seq::new(rows as nat, |r: int| Seq::new(cols as nat, |c: int| false)),
    {
        Grid { cells: a2d_filled_dead(rows, cols), rows, cols }
    }

    /// The number of rows.
    pub fn num_rows(&self) -> (n: usize)
        ensures
            n == self.rows,
    {
        self.rows
    }

    /// The number of columns.
    pub fn num_columns(&self) -> (n: usize)
        ensures
            n == self.cols,
    {
        self.cols
    }

    /// Bounds-checked read of one cell. Out-of-range indices are a caller
    /// bug, ruled out up front.
    pub fn get(&self, r: usize, c: usize) -> (s: CellState)
        requires
            self.wf(),
            r < self.rows,
            c < self.cols,
        ensures
            (s is Live) == self@[r as int][c as int],
    {
        a2d_get(&self.cells, r, c)
    }

    /// Whether the cell at `(r, c)` is live.
    pub fn is_live(&self, r: usize, c: usize) -> (b: bool)
        requires
            self.wf(),
            r < self.rows,
            c < self.cols,
        ensures
            b == live_at(self@, r as int, c as int),
    {
        matches!(self.get(r, c), CellState::Live)
    }

    /// Bounds-checked write of one cell; every other cell and both
    /// dimensions are unchanged.
    pub fn set(&mut self, r: usize, c: usize, s: CellState)
        requires
            old(self).wf(),
            r < old(self).rows,
            c < old(self).cols,
        ensures
            final(self).wf(),
            final(self).rows == old(self).rows,
            final(self).cols == old(self).cols,
            final(self)@ == old(self)@.update(
                r as int,
                old(self)@[r as int].update(c as int, s is Live),
            ),
    {
        a2d_set(&mut self.cells, r, c, s);
    }

    /// The number of live cells among the Moore neighbours of `(r, c)` in
    /// this grid, the 3x3 block around the cell clamped to the grid's bounds
    /// and the cell itself excluded.
    pub fn count_live_neighbors(&self, r: usize, c: usize) -> (n: usize)
        requires
            self.wf(),
            r < self.rows,
            c < self.cols,
        ensures
            n == live_neighbors(self@, r as int, c as int),
    {
        let mut n: usize = 0;
        if r > 0 && c > 0 && self.is_live(r - 1, c - 1) {
            n += 1;
        }
        if r > 0 && self.is_live(r - 1, c) {
            n += 1;
        }
        if r > 0 && c + 1 < self.cols && self.is_live(r - 1, c + 1) {
            n += 1;
        }
        if c > 0 && self.is_live(r, c - 1) {
            n += 1;
        }
        if c + 1 < self.cols && self.is_live(r, c + 1) {
            n += 1;
        }
        if r + 1 < self.rows && c > 0 && self.is_live(r + 1, c - 1) {
            n += 1;
        }
        if r + 1 < self.rows && self.is_live(r + 1, c) {
            n += 1;
        }
        if r + 1 < self.rows && c + 1 < self.cols && self.is_live(r + 1, c + 1) {
            n += 1;
        }
        n
    }

    /// The next state of cell `(r, c)` given this grid as the previous
    /// generation: the rule table applied to the cell's own previous state
    /// and its live-neighbour count.
    pub fn next_state(&self, r: usize, c: usize) -> (s: CellState)
        requires
            self.wf(),
            r < self.rows,
            c < self.cols,
        ensures
            (s is Live) == next_cell(self@, r as int, c as int),
    {
        let n = self.count_live_neighbors(r, c);
        match n {
            0 | 1 => CellState::Dead,
            2 => self.get(r, c),
            3 => CellState::Live,
            _ => CellState::Dead,
        }
    }
}

impl Clone for Grid {
    /// A copy with the same dimensions and the same contents.
    fn clone(&self) -> (g: Grid)
        ensures
            g.rows == self.rows,
            g.cols == self.cols,
            g@ == self@,
    {
        Grid { cells: a2d_clone(&self.cells), rows: self.rows, cols: self.cols }
    }
}

/// The rule table on a single live cell: with two or three live neighbours
/// it stays live, and isolated, with none, it dies.
pub proof fn lemma_live_cell_rule(g: Seq<Seq<bool>>, r: int, c: int)
    requires
        live_at(g, r, c),
    ensures
        live_neighbors(g, r, c) == 2 || live_neighbors(g, r, c) == 3 ==> next_cell(g, r, c),
        live_neighbors(g, r, c) == 0 ==> !next_cell(g, r, c),
{
}

/// Clamping at the corners: a corner cell of a rectangular grid has at most
/// three in-bounds neighbours, whatever the grid holds, since positions
/// outside the grid never contribute to the count.
pub proof fn lemma_corner_clamping(g: Seq<Seq<bool>>, r: int, c: int)
    requires
        rectangular(g),
        0 <= r < g.len(),
        0 <= c < g[r].len(),
        r == 0 || r == g.len() - 1,
        c == 0 || c == g[r].len() - 1,
    ensures
        live_neighbors(g, r, c) <= 3,
{
}

} // verus!
