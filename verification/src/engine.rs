//! The generation scheduler.
//!
//! One generation turns a `previous` grid into a `next` grid in which every
//! cell equals `next_cell` of the previous generation. The rows are split
//! into contiguous, non-overlapping bands of `ceil(rows / workers)` rows
//! (the last band may be shorter), the bands jointly covering every row
//! exactly once; each band is computed only from the read-only previous
//! grid, never from a partially written next grid, so the result is the
//! same for every worker count and equals a strictly sequential sweep.

use vstd::prelude::*;

use crate::grid::{live_at, live_neighbors, next_cell, Grid};

verus! {

/// One full application of the rule across every cell: the grid of the next
/// generation.
pub open spec fn step(g: Seq<Seq<bool>>) -> Seq<Seq<bool>> {
    Seq::new(g.len(), |r: int| Seq::new(g[r].len(), |c: int| next_cell(g, r, c)))
}

/// `n` applications of `step`.
pub open spec fn steps(g: Seq<Seq<bool>>, n: nat) -> Seq<Seq<bool>>
    decreases n,
{
    if n == 0 {
        g
    } else {
        steps(step(g), (n - 1) as nat)
    }
}

/// Peeling one step off the end: `n + 1` steps are `n` steps followed by
/// one more.
pub proof fn lemma_steps_snoc(g: Seq<Seq<bool>>, n: nat)
    ensures
        steps(g, n + 1) == step(steps(g, n)),
    decreases n,
{
    if n == 0 {
        assert(steps(g, 1) == steps(step(g), 0));
    } else {
        lemma_steps_snoc(step(g), (n - 1) as nat);
        assert(steps(g, n + 1) == steps(step(g), n));
        assert(steps(g, n) == steps(step(g), (n - 1) as nat));
    }
}

/// Computes the next state of cell `(r, c)` from the previous generation
/// and stores it into `next`; no other cell of `next` changes, and nothing
/// of `next` is read. Workers assigned disjoint row bands therefore never
/// disturb one another's cells, whatever order their writes interleave in.
pub fn update_single_cell(next: &mut Grid, prev: &Grid, r: usize, c: usize)
    requires
        old(next).wf(),
        prev.wf(),
        old(next).rows == prev.rows,
        old(next).cols == prev.cols,
        r < prev.rows,
        c < prev.cols,
    ensures
        final(next).wf(),
        final(next).rows == old(next).rows,
        final(next).cols == old(next).cols,
        final(next)@ == old(next)@.update(
            r as int,
            old(next)@[r as int].update(c as int, next_cell(prev@, r as int, c as int)),
        ),
{
    let s = prev.next_state(r, c);
    next.set(r, c, s);
}

/// One worker's unit of work: fills rows `start .. end` of `next` with the
/// next generation computed from `prev`, leaving every row outside the band
/// as it was.
pub fn advance_band(next: &mut Grid, prev: &Grid, start: usize, end: usize)
    requires
        old(next).wf(),
        prev.wf(),
        old(next).rows == prev.rows,
        old(next).cols == prev.cols,
        start <= end <= prev.rows,
    ensures
        final(next).wf(),
        final(next).rows == old(next).rows,
        final(next).cols == old(next).cols,
        forall|i: int| start <= i < end ==> final(next)@[i] == step(prev@)[i],
        forall|i: int|
            0 <= i < old(next)@.len() && !(start <= i < end) ==> final(next)@[i] == old(next)@[i],
{
    let ghost init: Seq<Seq<bool>> = next@;
    let mut r = start;
    while r < end
        invariant
            next.wf(),
            prev.wf(),
            next.rows == prev.rows,
            next.cols == prev.cols,
            start <= r <= end <= prev.rows,
            next@.len() == init.len(),
            forall|i: int| start <= i < r ==> next@[i] == step(prev@)[i],
            forall|i: int| 0 <= i < init.len() && !(start <= i < r) ==> next@[i] == init[i],
        decreases end - r,
    {
        let ghost before_row: Seq<Seq<bool>> = next@;
        let mut c: usize = 0;
        while c < prev.cols
            invariant
                next.wf(),
                prev.wf(),
                next.rows == prev.rows,
                next.cols == prev.cols,
                r < prev.rows,
                c <= prev.cols,
                next@.len() == before_row.len(),
                forall|i: int| 0 <= i < next@.len() && i != r ==> next@[i] == before_row[i],
                forall|j: int|
                    0 <= j < c ==> next@[r as int][j] == next_cell(prev@, r as int, j),
            decreases prev.cols - c,
        {
            update_single_cell(next, prev, r, c);
            c += 1;
        }
        proof {
            assert(next@[r as int] =~= step(prev@)[r as int]);
        }
        r += 1;
    }
}

/// The number of rows in each band but possibly the last, for `rows` rows
/// shared by `workers` workers: the ceiling of their quotient.
pub fn band_size(rows: usize, workers: usize) -> (band: usize)
    requires
        1 <= rows,
        1 <= workers,
    ensures
        band == (rows - 1) as int / workers as int + 1,
        1 <= band,
{
    (rows - 1) / workers + 1
}

/// Computes one full generation into the caller-supplied `next` grid: the
/// rows are partitioned into contiguous bands of `ceil(rows / workers)`
/// rows, a shorter final band allowed, and every band is filled from the
/// read-only `prev` grid. `next` is wholly overwritten; the worker count
/// has no effect on the result.
pub fn advance_into(next: &mut Grid, prev: &Grid, workers: usize)
    requires
        old(next).wf(),
        prev.wf(),
        old(next).rows == prev.rows,
        old(next).cols == prev.cols,
        workers >= 1,
    ensures
        final(next).wf(),
        final(next).rows == old(next).rows,
        final(next).cols == old(next).cols,
        final(next)@ == step(prev@),
{
    let rows = prev.num_rows();
    let band = band_size(rows, workers);
    let mut start: usize = 0;
    while start < rows
        invariant
            next.wf(),
            prev.wf(),
            next.rows == prev.rows,
            next.cols == prev.cols,
            rows == prev.rows,
            band >= 1,
            start <= rows,
            forall|i: int| 0 <= i < start ==> next@[i] == step(prev@)[i],
        decreases rows - start,
    {
        let end = if rows - start < band {
            rows
        } else {
            start + band
        };
        advance_band(next, prev, start, end);
        start = end;
    }
    proof {
        assert(next@ =~= step(prev@));
    }
}

/// One generation computed in a fresh grid. The result depends on `prev`
/// alone: for any two worker counts the returned grids are equal, both
/// being `step` of the previous generation.
pub fn advance_with(prev: &Grid, workers: usize) -> (next: Grid)
    requires
        prev.wf(),
        workers >= 1,
    ensures
        next.wf(),
        next.rows == prev.rows,
        next.cols == prev.cols,
        next@ == step(prev@),
{
    let mut next = Grid::new_dead(prev.num_rows(), prev.num_columns());
    advance_into(&mut next, prev, workers);
    next
}

/// One generation, computed by a single sequential sweep.
pub fn advance(prev: &Grid) -> (next: Grid)
    requires
        prev.wf(),
    ensures
        next.wf(),
        next.rows == prev.rows,
        next.cols == prev.cols,
        next@ == step(prev@),
{
    advance_with(prev, 1)
}

/// Runs `generations` generations from `start`, each one computed into a
/// fresh buffer from the previous one.
pub fn run(start: &Grid, generations: usize, workers: usize) -> (g: Grid)
    requires
        start.wf(),
        workers >= 1,
    ensures
        g.wf(),
        g.rows == start.rows,
        g.cols == start.cols,
        g@ == steps(start@, generations as nat),
{
    let mut cur = start.clone();
    let mut i: usize = 0;
    while i < generations
        invariant
            cur.wf(),
            start.wf(),
            cur.rows == start.rows,
            cur.cols == start.cols,
            workers >= 1,
            i <= generations,
            cur@ == steps(start@, i as nat),
        decreases generations - i,
    {
        let next = advance_with(&cur, workers);
        proof {
            lemma_steps_snoc(start@, i as nat);
        }
        cur = next;
        i += 1;
    }
    cur
}

/// The all-dead grid of the given dimensions.
pub open spec fn dead_grid(rows: nat, cols: nat) -> Seq<Seq<bool>> {
    Seq::new(rows, |r: int| Seq::new(cols, |c: int| false))
}

/// Stability of the empty grid: with every cell dead, every cell has no
/// live neighbours and stays dead, so the all-dead grid is a fixed point of
/// `step`.
pub proof fn lemma_dead_grid_fixed(rows: nat, cols: nat)
    ensures
        step(dead_grid(rows, cols)) == dead_grid(rows, cols),
{
    let g = dead_grid(rows, cols);
    assert forall|r: int, c: int|
        0 <= r < g.len() && 0 <= c < g[r].len() implies next_cell(g, r, c) == g[r][c] by {
        assert(!live_at(g, r, c));
    }
    assert(step(g) =~~= g);
}

/// An otherwise-dead grid holding a 2x2 all-live block whose top-left cell
/// is at `(r0, c0)`.
pub open spec fn block_grid(rows: nat, cols: nat, r0: int, c0: int) -> Seq<Seq<bool>> {
    Seq::new(
        rows,
        |r: int| Seq::new(cols, |c: int| r0 <= r < r0 + 2 && c0 <= c < c0 + 2),
    )
}

/// The still-life property of the block: wherever a 2x2 all-live block sits
/// in an otherwise-dead grid, it is a fixed point of `step` — each of its
/// four live cells has exactly three live neighbours and stays live, and
/// every dead cell around it has at most two.
pub proof fn lemma_block_still_life(rows: nat, cols: nat, r0: int, c0: int)
    requires
        0 <= r0,
        r0 + 2 <= rows,
        0 <= c0,
        c0 + 2 <= cols,
    ensures
        step(block_grid(rows, cols, r0, c0)) == block_grid(rows, cols, r0, c0),
{
    let g = block_grid(rows, cols, r0, c0);
    assert forall|r: int, c: int|
        0 <= r < g.len() && 0 <= c < g[r].len() implies next_cell(g, r, c) == g[r][c] by {
        if r0 <= r < r0 + 2 && c0 <= c < c0 + 2 {
            assert(live_neighbors(g, r, c) == 3);
        }
    }
    assert(step(g) =~~= g);
}

/// An otherwise-dead grid holding a horizontal row of three live cells
/// centred at `(r, c)`.
pub open spec fn horizontal_blinker(rows: nat, cols: nat, r: int, c: int) -> Seq<Seq<bool>> {
    Seq::new(rows, |i: int| Seq::new(cols, |j: int| i == r && c - 1 <= j <= c + 1))
}

/// An otherwise-dead grid holding a vertical column of three live cells
/// centred at `(r, c)`.
pub open spec fn vertical_blinker(rows: nat, cols: nat, r: int, c: int) -> Seq<Seq<bool>> {
    Seq::new(rows, |i: int| Seq::new(cols, |j: int| j == c && r - 1 <= i <= r + 1))
}

/// Blinker oscillation: a horizontal three-cell live row whose centre keeps
/// one row and one column of margin to every edge becomes the vertical
/// three-cell column with the same centre after one generation, comes back
/// after the second, and so oscillates with period two.
pub proof fn lemma_blinker_oscillates(rows: nat, cols: nat, r: int, c: int)
    requires
        1 <= r,
        r + 1 < rows,
        1 <= c,
        c + 1 < cols,
    ensures
        step(horizontal_blinker(rows, cols, r, c)) == vertical_blinker(rows, cols, r, c),
        step(vertical_blinker(rows, cols, r, c)) == horizontal_blinker(rows, cols, r, c),
        step(step(horizontal_blinker(rows, cols, r, c))) == horizontal_blinker(rows, cols, r, c),
{
    let h = horizontal_blinker(rows, cols, r, c);
    let v = vertical_blinker(rows, cols, r, c);
    assert forall|i: int, j: int|
        0 <= i < h.len() && 0 <= j < h[i].len() implies next_cell(h, i, j) == v[i][j] by {}
    assert(step(h) =~~= v);
    assert forall|i: int, j: int|
        0 <= i < v.len() && 0 <= j < v[i].len() implies next_cell(v, i, j) == h[i][j] by {}
    assert(step(v) =~~= h);
}

} // verus!
