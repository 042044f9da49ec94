use vstd::prelude::*;

use crate::grid::{cell, lemma_cell_div_mod, lemma_cell_in_bounds, lemma_row_bound};

verus! {

/// `p` moved into `[0, side)`: the nearest edge cell along one axis.
pub open spec fn clamp_axis(side: int, p: int) -> int {
    if p < 0 {
        0
    } else if p >= side {
        side - 1
    } else {
        p
    }
}

/// A raster of side `side` grown by `padding` cells on each side, each new
/// cell repeating the nearest edge cell.
pub open spec fn padded_spec<T>(s: Seq<T>, side: int, padding: int) -> Seq<T> {
    let m = side + 2 * padding;
    Seq::new(
        (m * m) as nat,
        |i: int| s[cell(side, clamp_axis(side, i / m - padding), clamp_axis(side, i % m - padding))],
    )
}

/// Grows a square raster by `padding` cells on every side by repeating its
/// edge cells.
pub fn add_padding<T: Copy>(data: &Vec<T>, side: usize, padding: usize) -> (r: Vec<T>)
    requires
        side >= 1,
        data@.len() == side * side,
        (side + 2 * padding) * (side + 2 * padding) <= usize::MAX,
    ensures
        r@ == padded_spec(data@, side as int, padding as int),
{
    let total = data.len();
    proof {
        let w = side + 2 * padding;
        assert(w <= w * w) by (nonlinear_arith)
            requires
                w >= 1,
        ;
    }
    let m = side + 2 * padding;
    let len = m * m;
    let mut out: Vec<T> = Vec::with_capacity(len);
    let mut i: usize = 0;
    while i < len
        invariant
            side >= 1,
            total == data@.len(),
            data@.len() == side * side,
            m == side + 2 * padding,
            len == m * m,
            i <= len,
            out@.len() == i,
            forall|k: int|
                0 <= k < i ==> out@[k] == data@[cell(
                    side as int,
                    clamp_axis(side as int, k / m as int - padding),
                    clamp_axis(side as int, k % m as int - padding),
                )],
        decreases len - i,
    {
        proof {
            lemma_cell_div_mod(m as int, i as int);
            lemma_row_bound(m as int, i as int);
        }
        let r = i / m;
        let c = i % m;
        let sr = if r < padding {
            0
        } else if r - padding >= side {
            side - 1
        } else {
            r - padding
        };
        let sc = if c < padding {
            0
        } else if c - padding >= side {
            side - 1
        } else {
            c - padding
        };
        proof {
            lemma_cell_in_bounds(side as int, sr as int, sc as int);
        }
        out.push(data[sr * side + sc]);
        i = i + 1;
    }
    assert(out@ =~= padded_spec(data@, side as int, padding as int));
    out
}

/// The 4x4 window at `(x, y)` of a raster of side `side`, row by row.
pub open spec fn window_spec<T>(s: Seq<T>, side: int, x: int, y: int) -> Seq<T> {
    Seq::new(16, |k: int| s[cell(side, y + k / 4, x + k % 4)])
}

/// Copies the 4x4 window whose top-left cell is `(x, y)`: the neighbourhood
/// from which the vertex between the window's four central cells is estimated.
pub fn vertex_window<T: Copy>(data: &Vec<T>, side: usize, x: usize, y: usize) -> (r: Vec<T>)
    requires
        data@.len() == side * side,
        x + 4 <= side,
        y + 4 <= side,
    ensures
        r@ == window_spec(data@, side as int, x as int, y as int),
{
    let total = data.len();
    let mut out: Vec<T> = Vec::with_capacity(16);
    let mut k: usize = 0;
    while k < 16
        invariant
            total == data@.len(),
            data@.len() == side * side,
            x + 4 <= side,
            y + 4 <= side,
            k <= 16,
            out@.len() == k,
            forall|j: int| 0 <= j < k ==> out@[j] == data@[cell(side as int, y + j / 4, x + j % 4)],
        decreases 16 - k,
    {
        proof {
            lemma_cell_in_bounds(side as int, (y + k / 4) as int, (x + k % 4) as int);
        }
        out.push(data[(y + k / 4) * side + (x + k % 4)]);
        k = k + 1;
    }
    assert(out@ =~= window_spec(data@, side as int, x as int, y as int));
    out
}

/// Which of the blur's weights a sample is scaled by.
#[derive(Clone, Copy, PartialEq, Eq, Structural, Debug)]
pub enum Tap {
    /// The preceding cell's weight.
    Before,
    /// The cell's own weight.
    Centre,
    /// The following cell's weight.
    After,
    /// At the first cell, its own weight plus that of the missing preceding cell.
    StartEdge,
    /// At the last cell, its own weight plus that of the missing following cell.
    EndEdge,
}

/// The samples that position `p` of a line of `w` cells reads in the
/// three-tap blur, each with its weight.
pub open spec fn blur_taps_spec(w: int, p: int) -> Seq<(usize, Tap)> {
    if p == 0 {
        seq![(0usize, Tap::StartEdge), (1usize, Tap::After)]
    } else if p == w - 1 {
        seq![((p - 1) as usize, Tap::Before), (p as usize, Tap::EndEdge)]
    } else {
        seq![((p - 1) as usize, Tap::Before), (p as usize, Tap::Centre), ((p + 1) as usize, Tap::After)]
    }
}

/// The samples, along one axis, that position `p` of a line of `w` cells
/// combines in the separable three-tap blur: its two neighbours and itself,
/// or at an end the one neighbour and itself with the weight of the missing
/// neighbour added to its own, so that every position's weights sum alike.
pub fn blur_taps(w: usize, p: usize) -> (r: Vec<(usize, Tap)>)
    requires
        2 <= w,
        p < w,
    ensures
        r@ == blur_taps_spec(w as int, p as int),
        forall|k: int| 0 <= k < r@.len() ==> #[trigger] r@[k].0 < w,
{
    let mut out: Vec<(usize, Tap)> = Vec::with_capacity(3);
    if p == 0 {
        out.push((0, Tap::StartEdge));
        out.push((1, Tap::After));
    } else if p == w - 1 {
        out.push((p - 1, Tap::Before));
        out.push((p, Tap::EndEdge));
    } else {
        out.push((p - 1, Tap::Before));
        out.push((p, Tap::Centre));
        out.push((p + 1, Tap::After));
    }
    assert(out@ =~= blur_taps_spec(w as int, p as int));
    out
}

/// Weight of a tap for the three kernel taps `k0, k1, k2`, before normalisation.
pub open spec fn tap_weight(t: Tap, k0: int, k1: int, k2: int) -> int {
    match t {
        Tap::Before => k0,
        Tap::Centre => k1,
        Tap::After => k2,
        Tap::StartEdge => k0 + k1,
        Tap::EndEdge => k1 + k2,
    }
}

/// Sum of the weights of a list of taps.
pub open spec fn taps_weight(taps: Seq<(usize, Tap)>, k0: int, k1: int, k2: int) -> int
    decreases taps.len(),
{
    if taps.len() == 0 {
        0
    } else {
        taps_weight(taps.drop_last(), k0, k1, k2) + tap_weight(taps.last().1, k0, k1, k2)
    }
}

/// Every position of a line, ends included, weighs its samples by the whole
/// kernel: the blur keeps a flat raster flat, whatever the kernel's shape.
pub proof fn lemma_blur_taps_weight(w: int, p: int, k0: int, k1: int, k2: int)
    requires
        2 <= w,
        0 <= p < w,
    ensures
        taps_weight(blur_taps_spec(w, p), k0, k1, k2) == k0 + k1 + k2,
{
    reveal_with_fuel(taps_weight, 4);
}

/// The pair averaged into output cell `o` of a doubled raster of side
/// `2 * core`: the vertex at the output cell's corner of its source cell and
/// that source cell itself.
pub open spec fn refine_pair<T>(elevation: Seq<T>, vertices: Seq<T>, core: int, o: int) -> (T, T) {
    let row = o / (2 * core);
    let col = o % (2 * core);
    (
        vertices[cell(core + 1, row / 2 + row % 2, col / 2 + col % 2)],
        elevation[cell(core, row / 2, col / 2)],
    )
}

/// For every cell of the doubled raster, the vertex and the source cell whose
/// average it takes.
pub fn refine_pairs<T: Copy>(elevation: &Vec<T>, vertices: &Vec<T>, core: usize) -> (r: Vec<(T, T)>)
    requires
        elevation@.len() == core * core,
        vertices@.len() == (core + 1) * (core + 1),
        (2 * core) * (2 * core) <= usize::MAX,
    ensures
        r@.len() == (2 * core) * (2 * core),
        forall|o: int| 0 <= o < r@.len() ==> #[trigger] r@[o] == refine_pair(elevation@, vertices@, core as int, o),
{
    let total_v = vertices.len();
    let total_e = elevation.len();
    proof {
        let w = 2 * core;
        assert(w <= w * w) by (nonlinear_arith)
            requires
                w >= 0,
        ;
    }
    let m = 2 * core;
    let len = m * m;
    let mut out: Vec<(T, T)> = Vec::with_capacity(len);
    let mut o: usize = 0;
    while o < len
        invariant
            elevation@.len() == core * core,
            vertices@.len() == (core + 1) * (core + 1),
            total_v == vertices@.len(),
            total_e == elevation@.len(),
            m == 2 * core,
            len == m * m,
            o <= len,
            out@.len() == o,
            forall|j: int| 0 <= j < o ==> #[trigger] out@[j] == refine_pair(elevation@, vertices@, core as int, j),
        decreases len - o,
    {
        proof {
            lemma_cell_div_mod(m as int, o as int);
            lemma_row_bound(m as int, o as int);
        }
        let row = o / m;
        let col = o % m;
        let vr = row / 2 + row % 2;
        let vc = col / 2 + col % 2;
        proof {
            lemma_cell_in_bounds((core + 1) as int, vr as int, vc as int);
            lemma_cell_in_bounds(core as int, (row / 2) as int, (col / 2) as int);
        }
        let v = vertices[vr * (core + 1) + vc];
        let e = elevation[(row / 2) * core + col / 2];
        out.push((v, e));
        o = o + 1;
    }
    out
}

} // verus!
