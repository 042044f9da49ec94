use vstd::prelude::*;

use crate::grid::{cell, lemma_cell_div_mod, lemma_row_bound};

verus! {

/// Squared distance of flat cell `i` from the centre `(n/2, n/2)` of a
/// raster of side `n`.
pub open spec fn dist_sq(n: int, i: int) -> int {
    let dy = i / n - n / 2;
    let dx = i % n - n / 2;
    dx * dx + dy * dy
}

/// The flat index of the centre cell.
pub open spec fn centre(n: int) -> int {
    cell(n, n / 2, n / 2)
}

/// Weight of cell `i` of the high-pass mask: cells at squared distance
/// `min_sq` or more pass, nearer ones are removed.  A bound of 1 or less
/// leaves no band to remove, and the mask is the unit impulse at the centre.
pub open spec fn high_pass_weight(n: int, min_sq: int, i: int) -> u8 {
    if min_sq <= 1 {
        if i == centre(n) { 1 } else { 0 }
    } else if dist_sq(n, i) >= min_sq {
        1
    } else {
        0
    }
}

fn abs_diff(a: usize, b: usize) -> (r: u128)
    ensures
        r as int == if a >= b { a - b } else { b - a },
{
    if a >= b {
        (a - b) as u128
    } else {
        (b - a) as u128
    }
}

fn squared_distance(n: usize, i: usize) -> (r: u128)
    requires
        n > 0,
        i < n * n,
        n * n <= usize::MAX,
    ensures
        r == dist_sq(n as int, i as int),
{
    proof {
        lemma_cell_div_mod(n as int, i as int);
        lemma_row_bound(n as int, i as int);
    }
    let dy = abs_diff(i / n, n / 2);
    let dx = abs_diff(i % n, n / 2);
    proof {
        assert(dy * dy + dx * dx <= 2 * (n * n)) by (nonlinear_arith)
            requires
                0 <= dy < n,
                0 <= dx < n,
        ;
        let sy = i as int / n as int - n as int / 2;
        let sx = i as int % n as int - n as int / 2;
        assert(sy * sy == dy * dy) by (nonlinear_arith)
            requires
                dy == sy || dy == -sy,
        ;
        assert(sx * sx == dx * dx) by (nonlinear_arith)
            requires
                dx == sx || dx == -sx,
        ;
    }
    dx * dx + dy * dy
}

/// Squared distance of every cell from the centre `(n/2, n/2)`: the radial
/// geometry from which gaussian weights `exp(-d^2 / (2 sigma^2))` are taken.
pub fn kernel_distances(size: usize) -> (r: Vec<u128>)
    requires
        size * size <= usize::MAX,
    ensures
        r@.len() == size * size,
        forall|i: int| 0 <= i < r@.len() ==> #[trigger] r@[i] == dist_sq(size as int, i),
{
    let len = size * size;
    let mut out: Vec<u128> = Vec::with_capacity(len);
    let mut i: usize = 0;
    while i < len
        invariant
            len == size * size,
            size * size <= usize::MAX,
            i <= len,
            out@.len() == i,
            forall|k: int| 0 <= k < i ==> #[trigger] out@[k] == dist_sq(size as int, k),
        decreases len - i,
    {
        proof {
            if size == 0 {
                assert(size * size == 0);
            }
        }
        let d = squared_distance(size, i);
        out.push(d);
        i = i + 1;
    }
    out
}

/// The binary high-pass mask before normalisation: 0 inside the cut-off
/// radius, 1 outside; `min_sq` is the squared radius rounded up.  When it is
/// at most 1 the filter degenerates to the identity: a single 1 at the centre.
pub fn high_pass_mask(size: usize, min_sq: u128) -> (r: Vec<u8>)
    requires
        size * size <= usize::MAX,
    ensures
        r@.len() == size * size,
        forall|i: int|
            0 <= i < r@.len() ==> #[trigger] r@[i] == high_pass_weight(size as int, min_sq as int, i),
        min_sq <= 1 ==> forall|i: int| 0 <= i < r@.len() ==> (#[trigger] r@[i] != 0 <==> i == centre(size as int)),
{
    let len = size * size;
    let mid = size / 2;
    let mut out: Vec<u8> = Vec::with_capacity(len);
    let mut i: usize = 0;
    while i < len
        invariant
            len == size * size,
            size * size <= usize::MAX,
            mid == size / 2,
            i <= len,
            out@.len() == i,
            forall|k: int|
                0 <= k < i ==> #[trigger] out@[k] == high_pass_weight(size as int, min_sq as int, k),
        decreases len - i,
    {
        proof {
            if size == 0 {
                assert(size * size == 0);
            }
        }
        let w: u8 = if min_sq <= 1 {
            proof {
                lemma_cell_div_mod(size as int, i as int);
                lemma_row_bound(size as int, i as int);
                assert(mid * size + mid <= size * size) by (nonlinear_arith)
                    requires
                        mid < size,
                ;
            }
            if i == mid * size + mid { 1 } else { 0 }
        } else if squared_distance(size, i) >= min_sq {
            1
        } else {
            0
        };
        out.push(w);
        i = i + 1;
    }
    out
}

} // verus!
