//! A cellular automaton on a bounded grid, used to grow the stones of a map.
//!
//! The cells are stored row by row. A cell's neighbours are the cells around it,
//! diagonals included, that lie inside the grid: the grid does not wrap.

use crate::grid::cell_index;
use crate::grid::column_of;
use crate::grid::in_grid;
use crate::grid::lemma_coordinates_of_index;
use crate::grid::lemma_index_of_coordinates;
use crate::grid::row_of;
use crate::random::Probability;
use vstd::prelude::*;

verus! {

/// The state of one cell.
#[derive(Clone, Copy, Debug, PartialEq, Eq, Structural)]
pub enum CellularState {
    Alive,
    Dead,
}

/// A cellular automaton at a given time.
pub struct CellularAutomaton {
    /// The number of columns.
    pub width: usize,
    /// The number of rows.
    pub height: usize,
    /// The cells' states, row by row.
    pub cells: Vec<CellularState>,
}

/// `indices`, followed by the flat index of column `x`, row `y` where that cell
/// lies inside the grid.
pub open spec fn with_cell(indices: Seq<usize>, width: int, height: int, x: int, y: int) -> Seq<
    usize,
> {
    if in_grid(width, height, x, y) {
        indices.push(cell_index(width, x, y) as usize)
    } else {
        indices
    }
}

/// The flat indices of the cells around cell `i`, as far as they lie inside the
/// grid: left, right, top, bottom, top right, top left, bottom right, bottom left.
pub open spec fn neighbor_indices(width: int, height: int, i: int) -> Seq<usize> {
    let x = column_of(width, i);
    let y = row_of(width, i);
    let left = with_cell(Seq::empty(), width, height, x - 1, y);
    let right = with_cell(left, width, height, x + 1, y);
    let top = with_cell(right, width, height, x, y - 1);
    let bottom = with_cell(top, width, height, x, y + 1);
    let top_right = with_cell(bottom, width, height, x + 1, y - 1);
    let top_left = with_cell(top_right, width, height, x - 1, y - 1);
    let bottom_right = with_cell(top_left, width, height, x + 1, y + 1);
    with_cell(bottom_right, width, height, x - 1, y + 1)
}

/// How many of `position - 1`, `position` and `position + 1` lie in `0..length`,
/// for a `position` that does.
pub open spec fn reach(position: int, length: int) -> int {
    1 + if position > 0 {
        1int
    } else {
        0int
    } + if position + 1 < length {
        1int
    } else {
        0int
    }
}

/// The number of neighbours of cell `i`.
pub open spec fn neighbor_count(width: int, height: int, i: int) -> int {
    reach(column_of(width, i), width) * reach(row_of(width, i), height) - 1
}

/// Cell `j` touches cell `i`: it is another cell, at most one column and one row away.
pub open spec fn touches(width: int, i: int, j: int) -> bool {
    let dx = column_of(width, j) - column_of(width, i);
    let dy = row_of(width, j) - row_of(width, i);
    i != j && -1 <= dx <= 1 && -1 <= dy <= 1
}

/// 1 where column `x`, row `y` is a cell of the grid in the given state, else 0.
pub open spec fn counts_as(
    cells: Seq<CellularState>,
    width: int,
    height: int,
    x: int,
    y: int,
    state: CellularState,
) -> int {
    if in_grid(width, height, x, y) && cells[cell_index(width, x, y)] == state {
        1
    } else {
        0
    }
}

/// The number of cells around cell `i` that are in the given state.
pub open spec fn neighbors_in_state(
    cells: Seq<CellularState>,
    width: int,
    height: int,
    i: int,
    state: CellularState,
) -> int {
    let x = column_of(width, i);
    let y = row_of(width, i);
    counts_as(cells, width, height, x - 1, y, state) + counts_as(
        cells,
        width,
        height,
        x + 1,
        y,
        state,
    ) + counts_as(cells, width, height, x, y - 1, state) + counts_as(
        cells,
        width,
        height,
        x,
        y + 1,
        state,
    ) + counts_as(cells, width, height, x + 1, y - 1, state) + counts_as(
        cells,
        width,
        height,
        x - 1,
        y - 1,
        state,
    ) + counts_as(cells, width, height, x + 1, y + 1, state) + counts_as(
        cells,
        width,
        height,
        x - 1,
        y + 1,
        state,
    )
}

/// The state that a cell takes in the next generation: a living cell with fewer
/// than two or more than three living neighbours dies, a dead cell with exactly
/// three comes alive, and every other cell stays as it is.
pub open spec fn next_state(current: CellularState, alive_neighbors: int) -> CellularState {
    match current {
        CellularState::Alive => if alive_neighbors < 2 || alive_neighbors > 3 {
            CellularState::Dead
        } else {
            CellularState::Alive
        },
        CellularState::Dead => if alive_neighbors == 3 {
            CellularState::Alive
        } else {
            CellularState::Dead
        },
    }
}

/// The generation that follows `cells`: every cell's next state, each computed
/// from `cells` itself.
pub open spec fn next_generation(cells: Seq<CellularState>, width: int, height: int) -> Seq<
    CellularState,
> {
    Seq::new(
        cells.len(),
        |i: int|
            next_state(cells[i], neighbors_in_state(cells, width, height, i, CellularState::Alive)),
    )
}

/// Cell `i` is dead and has more than three living neighbours, so smoothing
/// brings it to life.
pub open spec fn fills_in(cells: Seq<CellularState>, width: int, height: int, i: int) -> bool {
    cells[i] == CellularState::Dead && neighbors_in_state(
        cells,
        width,
        height,
        i,
        CellularState::Alive,
    ) > 3
}

/// One smoothing pass over `cells`: every cell that fills in, judged on `cells`
/// itself, is alive, and the others are as they were.
pub open spec fn filled_in(cells: Seq<CellularState>, width: int, height: int) -> Seq<
    CellularState,
> {
    Seq::new(
        cells.len(),
        |i: int|
            if fills_in(cells, width, height, i) {
                CellularState::Alive
            } else {
                cells[i]
            },
    )
}

/// No smoothing pass would change `cells`.
pub open spec fn is_smooth(cells: Seq<CellularState>, width: int, height: int) -> bool {
    forall|i: int| 0 <= i < cells.len() ==> !fills_in(cells, width, height, i)
}

/// Every cell that lives in `smaller` lives in `larger`.
pub open spec fn covers(larger: Seq<CellularState>, smaller: Seq<CellularState>) -> bool {
    &&& larger.len() == smaller.len()
    &&& forall|i: int|
        0 <= i < smaller.len() && smaller[i] == CellularState::Alive ==> larger[i]
            == CellularState::Alive
}

/// The number of dead cells.
pub open spec fn dead_count(cells: Seq<CellularState>) -> nat
    decreases cells.len(),
{
    if cells.len() == 0 {
        0
    } else {
        dead_count(cells.drop_last()) + if cells.last() == CellularState::Dead {
            1nat
        } else {
            0nat
        }
    }
}

/// How many of the cells named by `indices` are in the given state.
spec fn matching(cells: Seq<CellularState>, indices: Seq<usize>, state: CellularState) -> int
    decreases indices.len(),
{
    if indices.len() == 0 {
        0
    } else {
        matching(cells, indices.drop_last(), state) + if cells[indices.last() as int] == state {
            1int
        } else {
            0int
        }
    }
}

proof fn lemma_matching_push(
    cells: Seq<CellularState>,
    indices: Seq<usize>,
    index: usize,
    state: CellularState,
)
    ensures
        matching(cells, indices.push(index), state) == matching(cells, indices, state) + if cells[index as int]
            == state {
            1int
        } else {
            0int
        },
{
    assert(indices.push(index).drop_last() =~= indices);
}

proof fn lemma_matching_with_cell(
    cells: Seq<CellularState>,
    indices: Seq<usize>,
    width: int,
    height: int,
    x: int,
    y: int,
    state: CellularState,
)
    requires
        width * height <= usize::MAX,
    ensures
        matching(cells, with_cell(indices, width, height, x, y), state) == matching(
            cells,
            indices,
            state,
        ) + counts_as(cells, width, height, x, y, state),
{
    if in_grid(width, height, x, y) {
        lemma_index_of_coordinates(width, height, x, y);
        lemma_matching_push(cells, indices, cell_index(width, x, y) as usize, state);
    }
}

/// Counting the cells in a state among the listed neighbours gives the number
/// of neighbours in that state.
proof fn lemma_matching_neighbors(
    cells: Seq<CellularState>,
    width: int,
    height: int,
    i: int,
    state: CellularState,
)
    requires
        width * height <= usize::MAX,
    ensures
        matching(cells, neighbor_indices(width, height, i), state) == neighbors_in_state(
            cells,
            width,
            height,
            i,
            state,
        ),
{
    let x = column_of(width, i);
    let y = row_of(width, i);
    let left = with_cell(Seq::empty(), width, height, x - 1, y);
    let right = with_cell(left, width, height, x + 1, y);
    let top = with_cell(right, width, height, x, y - 1);
    let bottom = with_cell(top, width, height, x, y + 1);
    let top_right = with_cell(bottom, width, height, x + 1, y - 1);
    let top_left = with_cell(top_right, width, height, x - 1, y - 1);
    let bottom_right = with_cell(top_left, width, height, x + 1, y + 1);
    lemma_matching_with_cell(cells, Seq::empty(), width, height, x - 1, y, state);
    lemma_matching_with_cell(cells, left, width, height, x + 1, y, state);
    lemma_matching_with_cell(cells, right, width, height, x, y - 1, state);
    lemma_matching_with_cell(cells, top, width, height, x, y + 1, state);
    lemma_matching_with_cell(cells, bottom, width, height, x + 1, y - 1, state);
    lemma_matching_with_cell(cells, top_right, width, height, x - 1, y - 1, state);
    lemma_matching_with_cell(cells, top_left, width, height, x + 1, y + 1, state);
    lemma_matching_with_cell(cells, bottom_right, width, height, x - 1, y + 1, state);
}

/// Bringing dead cells to life lowers the number of dead cells, and lowers it
/// strictly where at least one cell came to life.
proof fn lemma_dead_count_covers(larger: Seq<CellularState>, smaller: Seq<CellularState>)
    requires
        covers(larger, smaller),
    ensures
        dead_count(larger) <= dead_count(smaller),
        (exists|k: int|
            0 <= k < smaller.len() && smaller[k] == CellularState::Dead && larger[k]
                == CellularState::Alive) ==> dead_count(larger) < dead_count(smaller),
    decreases smaller.len(),
{
    if smaller.len() > 0 {
        let shorter_larger = larger.drop_last();
        let shorter_smaller = smaller.drop_last();
        assert(covers(shorter_larger, shorter_smaller)) by {
            assert forall|i: int|
                0 <= i < shorter_smaller.len() && shorter_smaller[i]
                    == CellularState::Alive implies shorter_larger[i] == CellularState::Alive by {
                assert(smaller[i] == CellularState::Alive);
            }
        }
        lemma_dead_count_covers(shorter_larger, shorter_smaller);
        if exists|k: int|
            0 <= k < smaller.len() && smaller[k] == CellularState::Dead && larger[k]
                == CellularState::Alive {
            let k = choose|k: int|
                0 <= k < smaller.len() && smaller[k] == CellularState::Dead && larger[k]
                    == CellularState::Alive;
            if k < smaller.len() - 1 {
                assert(shorter_smaller[k] == CellularState::Dead && shorter_larger[k]
                    == CellularState::Alive);
            }
        }
    }
}

proof fn lemma_counts_as_covers(
    larger: Seq<CellularState>,
    smaller: Seq<CellularState>,
    width: int,
    height: int,
    x: int,
    y: int,
)
    requires
        covers(larger, smaller),
        smaller.len() == width * height,
    ensures
        counts_as(smaller, width, height, x, y, CellularState::Alive) <= counts_as(
            larger,
            width,
            height,
            x,
            y,
            CellularState::Alive,
        ),
{
    if in_grid(width, height, x, y) {
        lemma_index_of_coordinates(width, height, x, y);
    }
}

/// A cell has at least as many living neighbours in a grid that covers another
/// as it has in that other grid.
pub proof fn lemma_neighbors_covers(
    larger: Seq<CellularState>,
    smaller: Seq<CellularState>,
    width: int,
    height: int,
    i: int,
)
    requires
        covers(larger, smaller),
        smaller.len() == width * height,
    ensures
        neighbors_in_state(smaller, width, height, i, CellularState::Alive) <= neighbors_in_state(
            larger,
            width,
            height,
            i,
            CellularState::Alive,
        ),
{
    let x = column_of(width, i);
    let y = row_of(width, i);
    lemma_counts_as_covers(larger, smaller, width, height, x - 1, y);
    lemma_counts_as_covers(larger, smaller, width, height, x + 1, y);
    lemma_counts_as_covers(larger, smaller, width, height, x, y - 1);
    lemma_counts_as_covers(larger, smaller, width, height, x, y + 1);
    lemma_counts_as_covers(larger, smaller, width, height, x + 1, y - 1);
    lemma_counts_as_covers(larger, smaller, width, height, x - 1, y - 1);
    lemma_counts_as_covers(larger, smaller, width, height, x + 1, y + 1);
    lemma_counts_as_covers(larger, smaller, width, height, x - 1, y + 1);
}

/// A smooth grid that covers `cells` also covers `cells` after one smoothing pass.
pub proof fn lemma_smooth_cover_survives_pass(
    cover: Seq<CellularState>,
    cells: Seq<CellularState>,
    width: int,
    height: int,
)
    requires
        covers(cover, cells),
        is_smooth(cover, width, height),
        cells.len() == width * height,
    ensures
        covers(cover, filled_in(cells, width, height)),
{
    let after = filled_in(cells, width, height);
    assert forall|i: int|
        0 <= i < after.len() && after[i] == CellularState::Alive implies cover[i]
        == CellularState::Alive by {
        if fills_in(cells, width, height, i) {
            lemma_neighbors_covers(cover, cells, width, height, i);
            assert(!fills_in(cover, width, height, i));
        }
    }
}

/// The place of the offset (`dx`, `dy`) in the order in which neighbours are
/// listed, and 8 for any other offset.
spec fn rank_of(dx: int, dy: int) -> int {
    if dx == -1 && dy == 0 {
        0
    } else if dx == 1 && dy == 0 {
        1
    } else if dx == 0 && dy == -1 {
        2
    } else if dx == 0 && dy == 1 {
        3
    } else if dx == 1 && dy == -1 {
        4
    } else if dx == -1 && dy == -1 {
        5
    } else if dx == 1 && dy == 1 {
        6
    } else if dx == -1 && dy == 1 {
        7
    } else {
        8
    }
}

/// Every index in `indices` names a cell whose offset from column `x`, row `y`
/// comes before place `rank` in the order of neighbours.
spec fn ranked_below(indices: Seq<usize>, width: int, x: int, y: int, rank: int) -> bool {
    forall|k: int|
        0 <= k < indices.len() ==> rank_of(
            column_of(width, #[trigger] indices[k] as int) - x,
            row_of(width, indices[k] as int) - y,
        ) < rank
}

proof fn lemma_with_cell_ranked(
    indices: Seq<usize>,
    width: int,
    height: int,
    x: int,
    y: int,
    dx: int,
    dy: int,
)
    requires
        width * height <= usize::MAX,
        indices.no_duplicates(),
        ranked_below(indices, width, x, y, rank_of(dx, dy)),
    ensures
        with_cell(indices, width, height, x + dx, y + dy).no_duplicates(),
        ranked_below(
            with_cell(indices, width, height, x + dx, y + dy),
            width,
            x,
            y,
            rank_of(dx, dy) + 1,
        ),
        with_cell(indices, width, height, x + dx, y + dy).len() == indices.len() + if in_grid(
            width,
            height,
            x + dx,
            y + dy,
        ) {
            1int
        } else {
            0int
        },
        forall|v: usize|
            with_cell(indices, width, height, x + dx, y + dy).contains(v) <==> indices.contains(v)
                || (in_grid(width, height, x + dx, y + dy) && v == cell_index(
                width,
                x + dx,
                y + dy,
            )),
{
    let extended = with_cell(indices, width, height, x + dx, y + dy);
    if in_grid(width, height, x + dx, y + dy) {
        lemma_index_of_coordinates(width, height, x + dx, y + dy);
        let added = cell_index(width, x + dx, y + dy) as usize;
        assert(extended[indices.len() as int] == added);
        assert forall|v: usize| extended.contains(v) <==> indices.contains(v) || v == added by {
            if indices.contains(v) {
                let k = choose|k: int| 0 <= k < indices.len() && indices[k] == v;
                assert(extended[k] == v);
            }
            if extended.contains(v) {
                let k = choose|k: int| 0 <= k < extended.len() && extended[k] == v;
                if k < indices.len() {
                    assert(indices[k] == v);
                }
            }
        }
        assert forall|k: int, l: int|
            0 <= k < extended.len() && 0 <= l < extended.len() && k != l implies extended[k]
            != extended[l] by {
            if k < indices.len() {
                assert(extended[k] == indices[k]);
            }
            if l < indices.len() {
                assert(extended[l] == indices[l]);
            }
        }
        assert forall|k: int| 0 <= k < extended.len() implies rank_of(
            column_of(width, #[trigger] extended[k] as int) - x,
            row_of(width, extended[k] as int) - y,
        ) < rank_of(dx, dy) + 1 by {
            if k < indices.len() {
                assert(extended[k] == indices[k]);
            }
        }
    }
}

/// `v` is the flat index of column `x`, row `y`, a cell of the grid.
spec fn names(width: int, height: int, x: int, y: int, v: int) -> bool {
    in_grid(width, height, x, y) && v == cell_index(width, x, y)
}

/// `v` is the flat index of one of the cells of the grid around column `x`, row `y`.
spec fn names_one_around(width: int, height: int, x: int, y: int, v: int) -> bool {
    ||| names(width, height, x - 1, y, v)
    ||| names(width, height, x + 1, y, v)
    ||| names(width, height, x, y - 1, v)
    ||| names(width, height, x, y + 1, v)
    ||| names(width, height, x + 1, y - 1, v)
    ||| names(width, height, x - 1, y - 1, v)
    ||| names(width, height, x + 1, y + 1, v)
    ||| names(width, height, x - 1, y + 1, v)
}

proof fn lemma_neighbors_listed(width: int, height: int, i: int)
    requires
        0 <= height,
        0 <= i < width * height,
        width * height <= usize::MAX,
    ensures
        neighbor_indices(width, height, i).len() == neighbor_count(width, height, i),
        neighbor_indices(width, height, i).no_duplicates(),
        forall|v: usize|
            neighbor_indices(width, height, i).contains(v) <==> names_one_around(
                width,
                height,
                column_of(width, i),
                row_of(width, i),
                v as int,
            ),
{
    lemma_coordinates_of_index(width, height, i);
    let x = column_of(width, i);
    let y = row_of(width, i);
    let none = Seq::<usize>::empty();
    let left = with_cell(none, width, height, x - 1, y);
    let right = with_cell(left, width, height, x + 1, y);
    let top = with_cell(right, width, height, x, y - 1);
    let bottom = with_cell(top, width, height, x, y + 1);
    let top_right = with_cell(bottom, width, height, x + 1, y - 1);
    let top_left = with_cell(top_right, width, height, x - 1, y - 1);
    let bottom_right = with_cell(top_left, width, height, x + 1, y + 1);
    let all = with_cell(bottom_right, width, height, x - 1, y + 1);
    lemma_with_cell_ranked(none, width, height, x, y, -1, 0);
    lemma_with_cell_ranked(left, width, height, x, y, 1, 0);
    lemma_with_cell_ranked(right, width, height, x, y, 0, -1);
    lemma_with_cell_ranked(top, width, height, x, y, 0, 1);
    lemma_with_cell_ranked(bottom, width, height, x, y, 1, -1);
    lemma_with_cell_ranked(top_right, width, height, x, y, -1, -1);
    lemma_with_cell_ranked(top_left, width, height, x, y, 1, 1);
    lemma_with_cell_ranked(bottom_right, width, height, x, y, -1, 1);
    let rx = reach(x, width);
    let ry = reach(y, height);
    assert(rx * ry == if rx == 1 {
        ry
    } else if rx == 2 {
        ry + ry
    } else {
        ry + ry + ry
    }) by (nonlinear_arith)
        requires
            1 <= rx <= 3,
    ;
    assert forall|v: usize| all.contains(v) <==> names_one_around(
        width,
        height,
        x,
        y,
        v as int,
    ) by {
        assert(!none.contains(v));
    }
}

proof fn lemma_names_cell(width: int, height: int, x: int, y: int, dx: int, dy: int, j: int)
    requires
        in_grid(width, height, x, y),
        0 <= j,
    ensures
        names(width, height, x + dx, y + dy, j) <==> j < width * height && column_of(width, j) == x
            + dx && row_of(width, j) == y + dy,
{
    if in_grid(width, height, x + dx, y + dy) {
        lemma_index_of_coordinates(width, height, x + dx, y + dy);
    }
    if j < width * height {
        lemma_coordinates_of_index(width, height, j);
    }
}

/// What the list of a cell's neighbours holds: each cell of the grid that
/// touches the cell, once, and nothing else. Their number depends only on
/// how many columns and rows around the cell lie inside the grid.
pub proof fn lemma_neighbors_touch(width: int, height: int, i: int)
    requires
        0 <= height,
        0 <= i < width * height,
        width * height <= usize::MAX,
    ensures
        neighbor_indices(width, height, i).len() == neighbor_count(width, height, i),
        neighbor_indices(width, height, i).no_duplicates(),
        forall|j: usize|
            neighbor_indices(width, height, i).contains(j) <==> j < width * height && touches(
                width,
                i,
                j as int,
            ),
{
    lemma_neighbors_listed(width, height, i);
    lemma_coordinates_of_index(width, height, i);
    let x = column_of(width, i);
    let y = row_of(width, i);
    let listed = neighbor_indices(width, height, i);
    assert forall|j: usize| listed.contains(j) <==> j < width * height && touches(
        width,
        i,
        j as int,
    ) by {
        assert(listed.contains(j) <==> names_one_around(width, height, x, y, j as int));
        lemma_names_cell(width, height, x, y, -1, 0, j as int);
        lemma_names_cell(width, height, x, y, 1, 0, j as int);
        lemma_names_cell(width, height, x, y, 0, -1, j as int);
        lemma_names_cell(width, height, x, y, 0, 1, j as int);
        lemma_names_cell(width, height, x, y, 1, -1, j as int);
        lemma_names_cell(width, height, x, y, -1, -1, j as int);
        lemma_names_cell(width, height, x, y, 1, 1, j as int);
        lemma_names_cell(width, height, x, y, -1, 1, j as int);
        if j < width * height {
            lemma_coordinates_of_index(width, height, j as int);
        }
    }
}

/// The number of neighbours by a cell's place in the grid: none for the cell
/// of a grid of one cell, one for a cell at the end of a single row or
/// column, three for a corner of a wider grid, five for a cell on one border
/// only, and eight for a cell on no border.
pub proof fn lemma_neighbor_count_by_place(width: int, height: int, i: int)
    requires
        0 <= height,
        0 <= i < width * height,
    ensures
        ({
            let x = column_of(width, i);
            let y = row_of(width, i);
            let count = neighbor_count(width, height, i);
            let on_side = x == 0 || x == width - 1;
            let on_top_or_bottom = y == 0 || y == height - 1;
            &&& width == 1 && height == 1 ==> count == 0
            &&& width == 1 && height > 1 && on_top_or_bottom ==> count == 1
            &&& height == 1 && width > 1 && on_side ==> count == 1
            &&& width >= 2 && height >= 2 && on_side && on_top_or_bottom ==> count == 3
            &&& width >= 3 && height >= 2 && !on_side && on_top_or_bottom ==> count == 5
            &&& width >= 2 && height >= 3 && on_side && !on_top_or_bottom ==> count == 5
            &&& !on_side && !on_top_or_bottom ==> count == 8
        }),
{
    lemma_coordinates_of_index(width, height, i);
    let rx = reach(column_of(width, i), width);
    let ry = reach(row_of(width, i), height);
    assert(rx * ry == if rx == 1 {
        ry
    } else if rx == 2 {
        ry + ry
    } else {
        ry + ry + ry
    }) by (nonlinear_arith)
        requires
            1 <= rx <= 3,
    ;
}

/// Every cell of `cells` is dead.
pub open spec fn all_dead(cells: Seq<CellularState>) -> bool {
    forall|i: int| 0 <= i < cells.len() ==> cells[i] == CellularState::Dead
}

/// Every cell of `cells` is alive.
pub open spec fn all_alive(cells: Seq<CellularState>) -> bool {
    forall|i: int| 0 <= i < cells.len() ==> cells[i] == CellularState::Alive
}

/// What `cells` has become after the given number of generations.
pub open spec fn generation_after(
    cells: Seq<CellularState>,
    width: int,
    height: int,
    generations: nat,
) -> Seq<CellularState>
    decreases generations,
{
    if generations == 0 {
        cells
    } else {
        next_generation(
            generation_after(cells, width, height, (generations - 1) as nat),
            width,
            height,
        )
    }
}

/// `smoothed` is what smoothing makes of `cells`: the smallest smooth grid
/// that covers `cells`. It covers `cells`, no pass would change it, and every
/// other grid of which both hold covers it.
pub open spec fn is_smoothing_of(
    smoothed: Seq<CellularState>,
    cells: Seq<CellularState>,
    width: int,
    height: int,
) -> bool {
    &&& covers(smoothed, cells)
    &&& is_smooth(smoothed, width, height)
    &&& forall|other: Seq<CellularState>|
        #[trigger] covers(other, cells) && is_smooth(other, width, height) ==> covers(
            other,
            smoothed,
        )
}

/// Smoothing has one result: two grids that are both what smoothing makes of
/// `cells` are the same grid.
pub proof fn lemma_smoothing_is_unique(
    first: Seq<CellularState>,
    second: Seq<CellularState>,
    cells: Seq<CellularState>,
    width: int,
    height: int,
)
    requires
        is_smoothing_of(first, cells, width, height),
        is_smoothing_of(second, cells, width, height),
    ensures
        first == second,
{
    assert(covers(first, second));
    assert(covers(second, first));
    assert forall|i: int| 0 <= i < first.len() implies first[i] == second[i] by {
        if first[i] == CellularState::Alive {
            assert(second[i] == CellularState::Alive);
        }
        if second[i] == CellularState::Alive {
            assert(first[i] == CellularState::Alive);
        }
    }
    assert(first =~= second);
}

proof fn lemma_counts_as_dead(
    cells: Seq<CellularState>,
    width: int,
    height: int,
    x: int,
    y: int,
)
    requires
        all_dead(cells),
        cells.len() == width * height,
    ensures
        counts_as(cells, width, height, x, y, CellularState::Alive) == 0,
{
    if in_grid(width, height, x, y) {
        lemma_index_of_coordinates(width, height, x, y);
    }
}

/// A grid of dead cells stays as it is: nothing comes to life in the next
/// generation, and smoothing finds nothing to fill in.
pub proof fn lemma_dead_grid_stays_dead(cells: Seq<CellularState>, width: int, height: int)
    requires
        all_dead(cells),
        cells.len() == width * height,
    ensures
        next_generation(cells, width, height) == cells,
        is_smooth(cells, width, height),
{
    assert forall|i: int| 0 <= i < cells.len() implies neighbors_in_state(
        cells,
        width,
        height,
        i,
        CellularState::Alive,
    ) == 0 by {
        let x = column_of(width, i);
        let y = row_of(width, i);
        lemma_counts_as_dead(cells, width, height, x - 1, y);
        lemma_counts_as_dead(cells, width, height, x + 1, y);
        lemma_counts_as_dead(cells, width, height, x, y - 1);
        lemma_counts_as_dead(cells, width, height, x, y + 1);
        lemma_counts_as_dead(cells, width, height, x + 1, y - 1);
        lemma_counts_as_dead(cells, width, height, x - 1, y - 1);
        lemma_counts_as_dead(cells, width, height, x + 1, y + 1);
        lemma_counts_as_dead(cells, width, height, x - 1, y + 1);
    }
    assert(next_generation(cells, width, height) =~= cells);
}

impl CellularAutomaton {
    /// The automaton holds one state for each cell of its grid.
    pub open spec fn wf(&self) -> bool {
        self.cells.len() == self.width * self.height
    }

    /// An automaton of `width` by `height` cells, each of them alive with the
    /// given probability, independently of the others.
    pub fn new(width: usize, height: usize, alive_probability: Probability) -> (automaton: Self)
        requires
            width * height <= usize::MAX,
        ensures
            automaton.wf(),
            automaton.width == width,
            automaton.height == height,
            alive_probability.is_never() ==> all_dead(automaton.cells@),
            alive_probability.is_always() ==> all_alive(automaton.cells@),
    {
        let total: usize = width * height;
        let mut cells: Vec<CellularState> = Vec::new();
        let mut i: usize = 0;
        while i < total
            invariant
                i <= total,
                cells@.len() == i,
                alive_probability.is_never() ==> forall|k: int|
                    0 <= k < i ==> cells@[k] == CellularState::Dead,
                alive_probability.is_always() ==> forall|k: int|
                    0 <= k < i ==> cells@[k] == CellularState::Alive,
            decreases total - i,
        {
            let state = if alive_probability.sample() {
                CellularState::Alive
            } else {
                CellularState::Dead
            };
            cells.push(state);
            i += 1;
        }
        Self { width, height, cells }
    }

    /// Advances the automaton by one generation.
    ///
    /// Every cell's next state is computed from the generation before the call:
    /// no cell sees a neighbour's new state.
    pub fn transition(&mut self)
        requires
            old(self).wf(),
        ensures
            final(self).wf(),
            final(self).width == old(self).width,
            final(self).height == old(self).height,
            final(self).cells@ == next_generation(
                old(self).cells@,
                old(self).width as int,
                old(self).height as int,
            ),
    {
        let total: usize = self.cells.len();
        let mut next: Vec<CellularState> = Vec::new();
        let mut i: usize = 0;
        while i < total
            invariant
                self.wf(),
                total == self.cells@.len(),
                i <= total,
                next@.len() == i,
                forall|k: int|
                    0 <= k < i ==> next@[k] == next_state(
                        self.cells@[k],
                        neighbors_in_state(
                            self.cells@,
                            self.width as int,
                            self.height as int,
                            k,
                            CellularState::Alive,
                        ),
                    ),
            decreases total - i,
        {
            let alive_neighbors: usize = count_neighbors_in_state(self, i, CellularState::Alive);
            let state = match self.cells[i] {
                CellularState::Alive => {
                    if alive_neighbors < 2 || alive_neighbors > 3 {
                        CellularState::Dead
                    } else {
                        CellularState::Alive
                    }
                },
                CellularState::Dead => {
                    if alive_neighbors == 3 {
                        CellularState::Alive
                    } else {
                        CellularState::Dead
                    }
                },
            };
            next.push(state);
            i += 1;
        }
        self.cells = next;
    }

    /// Fills in the hollows of the automaton: brings every dead cell with more
    /// than three living neighbours to life, pass after pass, until a pass
    /// changes nothing.
    ///
    /// The result is the smallest smooth grid that covers the grid before the
    /// call: it covers that grid, no pass would change it, and every other grid
    /// of which both hold covers it.
    pub fn smooth(&mut self)
        requires
            old(self).wf(),
        ensures
            final(self).wf(),
            final(self).width == old(self).width,
            final(self).height == old(self).height,
            is_smoothing_of(
                final(self).cells@,
                old(self).cells@,
                old(self).width as int,
                old(self).height as int,
            ),
    {
        let total: usize = self.cells.len();
        let ghost before = self.cells@;
        let ghost w = self.width as int;
        let ghost h = self.height as int;
        let mut has_changed = true;
        while has_changed
            invariant
                self.wf(),
                self.width == w,
                self.height == h,
                total == self.cells.len(),
                covers(self.cells@, before),
                !has_changed ==> is_smooth(self.cells@, w, h),
                forall|other: Seq<CellularState>|
                    #[trigger] covers(other, before) && is_smooth(other, w, h) ==> covers(
                        other,
                        self.cells@,
                    ),
            decreases dead_count(self.cells@), if has_changed { 1int } else { 0int },
        {
            has_changed = false;
            let ghost current = self.cells@;
            let mut next: Vec<CellularState> = Vec::new();
            let mut i: usize = 0;
            while i < total
                invariant
                    self.wf(),
                    self.cells@ == current,
                    self.width == w,
                    self.height == h,
                    total == self.cells.len(),
                    i <= total,
                    next@.len() == i,
                    forall|k: int| 0 <= k < i ==> next@[k] == filled_in(current, w, h)[k],
                    has_changed <==> exists|k: int| 0 <= k < i && fills_in(current, w, h, k),
                decreases total - i,
            {
                let alive_neighbors: usize = count_neighbors_in_state(
                    self,
                    i,
                    CellularState::Alive,
                );
                if self.cells[i] == CellularState::Dead && alive_neighbors > 3 {
                    next.push(CellularState::Alive);
                    has_changed = true;
                    assert(fills_in(current, w, h, i as int));
                } else {
                    next.push(self.cells[i]);
                }
                i += 1;
            }
            proof {
                assert(next@ =~= filled_in(current, w, h));
                assert(covers(next@, current));
                lemma_dead_count_covers(next@, current);
                if has_changed {
                    let k = choose|k: int| 0 <= k < total && fills_in(current, w, h, k);
                    assert(current[k] == CellularState::Dead && next@[k] == CellularState::Alive);
                } else {
                    assert(next@ =~= current);
                }
                assert forall|other: Seq<CellularState>|
                    #[trigger] covers(other, before) && is_smooth(other, w, h) implies covers(
                    other,
                    next@,
                ) by {
                    lemma_smooth_cover_survives_pass(other, current, w, h);
                }
            }
            self.cells = next;
        }
    }
}

/// The flat indices of the cells around cell `i`, diagonals included, as far as
/// they lie inside the grid: each cell that touches cell `i`, once, in the
/// order left, right, top, bottom, top right, top left, bottom right, bottom
/// left.
pub fn enumerate_neighbors(automaton: &CellularAutomaton, i: usize) -> (neighbors: Vec<usize>)
    requires
        automaton.wf(),
        i < automaton.cells.len(),
    ensures
        neighbors@ == neighbor_indices(automaton.width as int, automaton.height as int, i as int),
        neighbors@.len() == neighbor_count(
            automaton.width as int,
            automaton.height as int,
            i as int,
        ),
        neighbors@.no_duplicates(),
        forall|j: usize|
            neighbors@.contains(j) <==> j < automaton.cells@.len() && touches(
                automaton.width as int,
                i as int,
                j as int,
            ),
{
    let width: usize = automaton.width;
    let height: usize = automaton.height;
    let ghost w = width as int;
    let ghost h = height as int;
    proof {
        reveal(cell_index);
        lemma_coordinates_of_index(w, h, i as int);
    }
    let x: usize = i % width;
    let y: usize = i / width;
    proof {
        if x > 0 {
            lemma_index_of_coordinates(w, h, x - 1, y as int);
        }
        if x + 1 < w {
            lemma_index_of_coordinates(w, h, x + 1, y as int);
        }
        if y > 0 {
            lemma_index_of_coordinates(w, h, x as int, y - 1);
            assert((y - 1) * w == y * w - w) by (nonlinear_arith);
            if x > 0 {
                lemma_index_of_coordinates(w, h, x - 1, y - 1);
            }
            if x + 1 < w {
                lemma_index_of_coordinates(w, h, x + 1, y - 1);
            }
        }
        if y + 1 < h {
            lemma_index_of_coordinates(w, h, x as int, y + 1);
            assert((y + 1) * w == y * w + w) by (nonlinear_arith);
            if x > 0 {
                lemma_index_of_coordinates(w, h, x - 1, y + 1);
            }
            if x + 1 < w {
                lemma_index_of_coordinates(w, h, x + 1, y + 1);
            }
        }
    }
    let mut neighbors: Vec<usize> = Vec::new();
    if x > 0 {
        neighbors.push(i - 1);
    }
    let ghost left = neighbors@;
    if x < width - 1 {
        neighbors.push(i + 1);
    }
    let ghost right = neighbors@;
    if y > 0 {
        neighbors.push((y - 1) * width + x);
    }
    let ghost top = neighbors@;
    if y < height - 1 {
        neighbors.push((y + 1) * width + x);
    }
    let ghost bottom = neighbors@;
    if x < width - 1 && y > 0 {
        neighbors.push((y - 1) * width + x + 1);
    }
    let ghost top_right = neighbors@;
    if x > 0 && y > 0 {
        neighbors.push((y - 1) * width + x - 1);
    }
    let ghost top_left = neighbors@;
    if x < width - 1 && y < height - 1 {
        neighbors.push((y + 1) * width + x + 1);
    }
    let ghost bottom_right = neighbors@;
    if x > 0 && y < height - 1 {
        neighbors.push((y + 1) * width + x - 1);
    }
    proof {
        assert(left == with_cell(Seq::empty(), w, h, x - 1, y as int));
        assert(right == with_cell(left, w, h, x + 1, y as int));
        assert(top == with_cell(right, w, h, x as int, y - 1));
        assert(bottom == with_cell(top, w, h, x as int, y + 1));
        assert(top_right == with_cell(bottom, w, h, x + 1, y - 1));
        assert(top_left == with_cell(top_right, w, h, x - 1, y - 1));
        assert(bottom_right == with_cell(top_left, w, h, x + 1, y + 1));
        assert(neighbors@ == with_cell(bottom_right, w, h, x - 1, y + 1));
        lemma_neighbors_touch(w, h, i as int);
    }
    neighbors
}

/// The number of cells around cell `cell_i` that are in the state `cell_state`.
pub fn count_neighbors_in_state(
    automaton: &CellularAutomaton,
    cell_i: usize,
    cell_state: CellularState,
) -> (count: usize)
    requires
        automaton.wf(),
        cell_i < automaton.cells.len(),
    ensures
        count == neighbors_in_state(
            automaton.cells@,
            automaton.width as int,
            automaton.height as int,
            cell_i as int,
            cell_state,
        ),
        count <= 8,
{
    let neighbors = enumerate_neighbors(automaton, cell_i);
    proof {
        assert forall|j: int| 0 <= j < neighbors@.len() implies neighbors@[j]
            < automaton.cells@.len() by {
            assert(neighbors@.contains(neighbors@[j]));
        }
    }
    let mut count: usize = 0;
    let mut k: usize = 0;
    while k < neighbors.len()
        invariant
            k <= neighbors@.len(),
            count <= k,
            count == matching(automaton.cells@, neighbors@.take(k as int), cell_state),
            forall|j: int| 0 <= j < neighbors@.len() ==> neighbors@[j] < automaton.cells@.len(),
        decreases neighbors@.len() - k,
    {
        let neighbor: usize = neighbors[k];
        proof {
            assert(neighbors@.take(k + 1) =~= neighbors@.take(k as int).push(neighbor));
            lemma_matching_push(automaton.cells@, neighbors@.take(k as int), neighbor, cell_state);
        }
        if automaton.cells[neighbor] == cell_state {
            count += 1;
        }
        k += 1;
    }
    proof {
        assert(neighbors@.take(neighbors@.len() as int) =~= neighbors@);
        lemma_matching_neighbors(
            automaton.cells@,
            automaton.width as int,
            automaton.height as int,
            cell_i as int,
            cell_state,
        );
    }
    count
}

} // verus!
