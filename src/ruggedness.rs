use vstd::prelude::*;

use crate::grid::{cell, lemma_cell_in_bounds};

verus! {

/// Row step of neighbour direction `d`; directions run row by row over the
/// 3x3 block around a cell, skipping the cell itself.
pub open spec fn dir_row(d: int) -> int {
    if d < 3 {
        -1
    } else if d < 5 {
        0
    } else {
        1
    }
}

/// Column step of neighbour direction `d`.
pub open spec fn dir_col(d: int) -> int {
    if d == 0 || d == 3 || d == 5 {
        -1
    } else if d == 1 || d == 6 {
        0
    } else {
        1
    }
}

/// Flat index of the neighbour of `(row, col)` in direction `d`, if it lies
/// inside the raster of side `size`.
pub open spec fn neighbor_at(size: int, row: int, col: int, d: int) -> Option<usize> {
    let r = row + dir_row(d);
    let c = col + dir_col(d);
    if 0 <= r < size && 0 <= c < size {
        Some(cell(size, r, c) as usize)
    } else {
        None
    }
}

/// Number of rows (or columns) of the 3x3 block around `p` that lie inside.
pub open spec fn axis_span(size: int, p: int) -> int {
    (if p > 0 { 1int } else { 0int }) + 1 + (if p + 1 < size { 1int } else { 0int })
}

/// Number of valid neighbours of `(row, col)`.
pub open spec fn neighbor_count_spec(size: int, row: int, col: int) -> int {
    axis_span(size, row) * axis_span(size, col) - 1
}

/// Number of directions below `k` whose neighbour lies inside the raster.
pub open spec fn valid_directions(size: int, row: int, col: int, k: int) -> int
    decreases k,
{
    if k <= 0 {
        0
    } else {
        valid_directions(size, row, col, k - 1) + if neighbor_at(size, row, col, k - 1) is Some {
            1int
        } else {
            0int
        }
    }
}

/// The eight directions hold exactly `neighbor_count_spec` neighbours: 3 at a
/// corner, 5 on an edge and 8 inside, once the raster has side 2 or more.
pub proof fn lemma_neighbor_count(size: int, row: int, col: int)
    requires
        0 <= row < size,
        0 <= col < size,
    ensures
        valid_directions(size, row, col, 8) == neighbor_count_spec(size, row, col),
        size >= 2 ==> 3 <= neighbor_count_spec(size, row, col) <= 8,
        size >= 2 && (row == 0 || row == size - 1) && (col == 0 || col == size - 1)
            ==> neighbor_count_spec(size, row, col) == 3,
        0 < row < size - 1 && 0 < col < size - 1 ==> neighbor_count_spec(size, row, col) == 8,
{
    reveal_with_fuel(valid_directions, 9);
    let a = axis_span(size, row);
    let b = axis_span(size, col);
    assert(a * b == if a == 1 {
        b
    } else if a == 2 {
        b + b
    } else {
        b + b + b
    }) by (nonlinear_arith)
        requires
            1 <= a <= 3,
    ;
}

/// The neighbours of `(row, col)` in the eight directions, `None` where the
/// neighbour falls outside the raster.
pub fn neighbors(size: usize, row: usize, col: usize) -> (r: Vec<Option<usize>>)
    requires
        row < size,
        col < size,
        size * size <= usize::MAX,
    ensures
        r@.len() == 8,
        forall|d: int| 0 <= d < 8 ==> #[trigger] r@[d] == neighbor_at(size as int, row as int, col as int, d),
{
    let mut out: Vec<Option<usize>> = Vec::with_capacity(8);
    let mut d: usize = 0;
    while d < 8
        invariant
            row < size,
            col < size,
            size * size <= usize::MAX,
            d <= 8,
            out@.len() == d,
            forall|e: int| 0 <= e < d ==> #[trigger] out@[e] == neighbor_at(size as int, row as int, col as int, e),
        decreases 8 - d,
    {
        let up = d < 3;
        let down = d >= 5;
        let left = d == 0 || d == 3 || d == 5;
        let right = d == 2 || d == 4 || d == 7;
        let inside = (!up || row > 0) && (!down || row + 1 < size) && (!left || col > 0) && (!right
            || col + 1 < size);
        if inside {
            let r = if up {
                row - 1
            } else if down {
                row + 1
            } else {
                row
            };
            let c = if left {
                col - 1
            } else if right {
                col + 1
            } else {
                col
            };
            proof {
                lemma_cell_in_bounds(size as int, r as int, c as int);
            }
            out.push(Some(r * size + c));
        } else {
            out.push(None);
        }
        d = d + 1;
    }
    out
}

/// Number of valid neighbours of `(row, col)`, the divisor of its ruggedness.
pub fn neighbor_count(size: usize, row: usize, col: usize) -> (r: usize)
    requires
        row < size,
        col < size,
    ensures
        r == neighbor_count_spec(size as int, row as int, col as int),
        r == valid_directions(size as int, row as int, col as int, 8),
{
    proof {
        lemma_neighbor_count(size as int, row as int, col as int);
    }
    let rows: usize = (if row > 0 { 1 } else { 0 }) + 1 + (if row + 1 < size { 1 } else { 0 });
    let cols: usize = (if col > 0 { 1 } else { 0 }) + 1 + (if col + 1 < size { 1 } else { 0 });
    proof {
        assert(1 <= rows * cols <= 9) by (nonlinear_arith)
            requires
                1 <= rows <= 3,
                1 <= cols <= 3,
        ;
    }
    rows * cols - 1
}

/// Flat index of the cell of a margin-reduced region in the padded raster.
pub open spec fn padded_centre(size: int, padding: int, row: int, col: int) -> int {
    cell(size, row + padding, col + padding)
}

/// The eight neighbours of a cell of the region `padding` cells inside a
/// padded raster of side `size`; all of them lie inside, so none is skipped.
pub fn padded_neighbors(size: usize, padding: usize, row: usize, col: usize) -> (r: Vec<usize>)
    requires
        padding >= 1,
        row + 2 * padding < size,
        col + 2 * padding < size,
        size * size <= usize::MAX,
    ensures
        r@.len() == 8,
        forall|d: int|
            0 <= d < 8 ==> #[trigger] r@[d] as int == cell(
                size as int,
                row + padding + dir_row(d),
                col + padding + dir_col(d),
            ),
{
    let full = neighbors(size, row + padding, col + padding);
    let mut out: Vec<usize> = Vec::with_capacity(8);
    let mut d: usize = 0;
    while d < 8
        invariant
            full@.len() == 8,
            forall|e: int|
                0 <= e < 8 ==> #[trigger] full@[e] == neighbor_at(
                    size as int,
                    (row + padding) as int,
                    (col + padding) as int,
                    e,
                ),
            padding >= 1,
            row + 2 * padding < size,
            col + 2 * padding < size,
            size * size <= usize::MAX,
            d <= 8,
            out@.len() == d,
            forall|e: int|
                0 <= e < d ==> #[trigger] out@[e] as int == cell(
                    size as int,
                    row + padding + dir_row(e),
                    col + padding + dir_col(e),
                ),
        decreases 8 - d,
    {
        proof {
            lemma_cell_in_bounds(
                size as int,
                row + padding + dir_row(d as int),
                col + padding + dir_col(d as int),
            );
        }
        match full[d] {
            Some(i) => out.push(i),
            None => out.push(0),
        }
        d = d + 1;
    }
    out
}

/// Flat index in the padded raster of cell `(row, col)` of the inner region.
pub fn padded_centre_index(size: usize, padding: usize, row: usize, col: usize) -> (r: usize)
    requires
        row + 2 * padding < size,
        col + 2 * padding < size,
        size * size <= usize::MAX,
    ensures
        r == padded_centre(size as int, padding as int, row as int, col as int),
{
    proof {
        lemma_cell_in_bounds(size as int, (row + padding) as int, (col + padding) as int);
    }
    (row + padding) * size + (col + padding)
}

} // verus!
