//! Row-major grids: how a cell's column and row relate to its place in a flat
//! sequence of `width * height` cells.

use vstd::prelude::*;

verus! {

/// Column `x`, row `y` lies inside a grid of `width` by `height` cells.
pub open spec fn in_grid(width: int, height: int, x: int, y: int) -> bool {
    0 <= x < width && 0 <= y < height
}

/// The place of column `x`, row `y` in the flat sequence of cells.
#[verifier::opaque]
pub open spec fn cell_index(width: int, x: int, y: int) -> int {
    y * width + x
}

/// The column of the cell at flat index `i`.
pub open spec fn column_of(width: int, i: int) -> int {
    i % width
}

/// The row of the cell at flat index `i`.
pub open spec fn row_of(width: int, i: int) -> int {
    i / width
}

/// A flat index below `width * height` names a cell inside the grid, and that
/// cell's index is the flat index again.
pub proof fn lemma_coordinates_of_index(width: int, height: int, i: int)
    requires
        0 <= i < width * height,
        0 <= height,
    ensures
        0 < width,
        in_grid(width, height, column_of(width, i), row_of(width, i)),
        cell_index(width, column_of(width, i), row_of(width, i)) == i,
{
    reveal(cell_index);
    assert(0 < width) by (nonlinear_arith)
        requires
            0 <= i < width * height,
            0 <= height,
    ;
    vstd::arithmetic::div_mod::lemma_fundamental_div_mod(i, width);
    vstd::arithmetic::div_mod::lemma_mod_bound(i, width);
    let x = i % width;
    let y = i / width;
    assert(width * y == y * width) by (nonlinear_arith);
    assert(0 <= y < height) by (nonlinear_arith)
        requires
            0 <= i < width * height,
            0 < width,
            0 <= x < width,
            i == y * width + x,
    ;
}

/// A cell inside the grid has a flat index below `width * height`, from which
/// its column and row can be read back.
pub proof fn lemma_index_of_coordinates(width: int, height: int, x: int, y: int)
    requires
        in_grid(width, height, x, y),
    ensures
        0 <= cell_index(width, x, y) < width * height,
        column_of(width, cell_index(width, x, y)) == x,
        row_of(width, cell_index(width, x, y)) == y,
{
    reveal(cell_index);
    assert(0 <= y * width + x < width * height) by (nonlinear_arith)
        requires
            0 <= x < width,
            0 <= y < height,
    ;
    vstd::arithmetic::div_mod::lemma_fundamental_div_mod_converse(y * width + x, width, y, x);
}

} // verus!
