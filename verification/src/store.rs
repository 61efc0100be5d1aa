//! Cell storage, backed by `array2d::Array2D`.
//!
//! The grid's contents live in an `Array2D<CellState>`. The array is opaque
//! here; `a2d_cells` names what it holds, row by row, with `true` standing
//! for a live cell, and the wrappers below state how each `Array2D` call
//! reads or changes that contents.

use vstd::prelude::*;

use crate::grid::CellState;

verus! {

#[verifier::external_type_specification]
#[verifier::external_body]
#[verifier::reject_recursive_types(T)]
pub struct ExArray2D<T>(array2d::Array2D<T>);

/// The rows of cells that an `Array2D<CellState>` holds, in row-major order,
/// each cell as `true` for `Live` and `false` for `Dead`.
pub uninterp spec fn a2d_cells(a: array2d::Array2D<CellState>) -> Seq<Seq<bool>>;

/// Relies on `array2d::Array2D::filled_with`: a `rows` x `cols` array with
/// every element equal to the given one, here `Dead`. Its internal
/// allocation is of `rows * cols` elements, so that product must fit.
#[verifier::external_body]
pub(crate) fn a2d_filled_dead(rows: usize, cols: usize) -> (a: array2d::Array2D<CellState>)
    requires
        rows * cols <= usize::MAX,
    ensures
        a2d_cells(a) == Seq::new(rows as nat, |r: int| Seq::new(cols as nat, |c: int| false)),
{
    array2d::Array2D::filled_with(CellState::Dead, rows, cols)
}

/// Relies on `array2d`'s `Index` impl: the element at `(row, col)`, which
/// panics only out of bounds.
#[verifier::external_body]
pub(crate) fn a2d_get(a: &array2d::Array2D<CellState>, r: usize, c: usize) -> (s: CellState)
    requires
        r < a2d_cells(*a).len(),
        c < a2d_cells(*a)[r as int].len(),
    ensures
        (s is Live) == a2d_cells(*a)[r as int][c as int],
{
    a[(r, c)]
}

/// Relies on `array2d`'s `IndexMut` impl: replaces the element at
/// `(row, col)` and nothing else, panicking only out of bounds.
#[verifier::external_body]
pub(crate) fn a2d_set(a: &mut array2d::Array2D<CellState>, r: usize, c: usize, s: CellState)
    requires
        r < a2d_cells(*old(a)).len(),
        c < a2d_cells(*old(a))[r as int].len(),
    ensures
        a2d_cells(*final(a)) == a2d_cells(*old(a)).update(
            r as int,
            a2d_cells(*old(a))[r as int].update(c as int, s is Live),
        ),
{
    a[(r, c)] = s;
}

/// Relies on `array2d::Array2D`'s derived `Clone`: a copy with the same
/// dimensions and the same elements.
#[verifier::external_body]
pub(crate) fn a2d_clone(a: &array2d::Array2D<CellState>) -> (b: array2d::Array2D<CellState>)
    ensures
        a2d_cells(b) == a2d_cells(*a),
{
    a.clone()
}

} // verus!
