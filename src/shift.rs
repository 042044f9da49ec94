use vstd::prelude::*;

use crate::grid::{cell, lemma_cell_div_mod, lemma_cell_in_bounds, lemma_cell_split, lemma_mod_once, lemma_row_bound};

verus! {

/// Index read for flat position `i` when every row and every column of a
/// raster of side `n` is rotated left by `h` cells.
pub open spec fn rotated(n: int, h: int, i: int) -> int {
    cell(n, (i / n + h) % n, (i % n + h) % n)
}

/// Rotation of a square raster by `h` cells along both axes.
pub open spec fn rotate_grid_spec<T>(s: Seq<T>, n: int, h: int) -> Seq<T> {
    Seq::new(s.len(), |i: int| s[rotated(n, h, i)])
}

/// Moves the centre cell `(n/2, n/2)` to flat index 0.
pub open spec fn fft_shifted<T>(s: Seq<T>, n: int) -> Seq<T> {
    rotate_grid_spec(s, n, n / 2)
}

/// Moves flat index 0 back to the centre cell `(n/2, n/2)`.
pub open spec fn ifft_shifted<T>(s: Seq<T>, n: int) -> Seq<T> {
    rotate_grid_spec(s, n, n - n / 2)
}

proof fn lemma_rotated_parts(n: int, h: int, i: int)
    requires
        0 < n,
        0 <= h <= n,
        0 <= i < n * n,
    ensures
        0 <= rotated(n, h, i) < n * n,
        rotated(n, h, i) / n == (i / n + h) % n,
        rotated(n, h, i) % n == (i % n + h) % n,
{
    lemma_cell_div_mod(n, i);
    lemma_row_bound(n, i);
    lemma_mod_once(i / n + h, n);
    lemma_mod_once(i % n + h, n);
    lemma_cell_in_bounds(n, (i / n + h) % n, (i % n + h) % n);
    lemma_cell_split(n, (i / n + h) % n, (i % n + h) % n);
}

/// Rotating by `h` and then by `n - h` restores every index.
pub proof fn lemma_rotated_inverse(n: int, h: int, i: int)
    requires
        0 < n,
        0 <= h <= n,
        0 <= i < n * n,
    ensures
        rotated(n, n - h, rotated(n, h, i)) == i,
{
    let j = rotated(n, h, i);
    lemma_rotated_parts(n, h, i);
    lemma_cell_div_mod(n, i);
    lemma_cell_div_mod(n, j);
    lemma_row_bound(n, i);
    lemma_row_bound(n, j);
    lemma_mod_once(i / n + h, n);
    lemma_mod_once(i % n + h, n);
    lemma_mod_once(j / n + n - h, n);
    lemma_mod_once(j % n + n - h, n);
}

/// Shifting a kernel to zero phase and back, or back and then to zero phase,
/// gives the raster it started from.
pub proof fn lemma_shift_round_trip<T>(s: Seq<T>, n: int)
    requires
        0 <= n,
        s.len() == n * n,
    ensures
        ifft_shifted(fft_shifted(s, n), n) == s,
        fft_shifted(ifft_shifted(s, n), n) == s,
{
    assert forall|i: int| 0 <= i < s.len() implies #[trigger] ifft_shifted(fft_shifted(s, n), n)[i] == s[i] by {
        lemma_rotated_parts(n, n - n / 2, i);
        lemma_rotated_inverse(n, n - n / 2, i);
    }
    assert forall|i: int| 0 <= i < s.len() implies #[trigger] fft_shifted(ifft_shifted(s, n), n)[i] == s[i] by {
        lemma_rotated_parts(n, n / 2, i);
        lemma_rotated_inverse(n, n / 2, i);
    }
    assert(ifft_shifted(fft_shifted(s, n), n) =~= s);
    assert(fft_shifted(ifft_shifted(s, n), n) =~= s);
}

/// The zero-phase shift puts the centre cell at flat index 0.
pub proof fn lemma_fft_shift_centre<T>(s: Seq<T>, n: int)
    requires
        0 < n,
        s.len() == n * n,
    ensures
        fft_shifted(s, n)[0] == s[cell(n, n / 2, n / 2)],
{
    assert(0 < n * n) by (nonlinear_arith)
        requires
            0 < n,
    ;
    lemma_mod_once(n / 2, n);
}

fn rotate_grid<T: Copy>(data: &Vec<T>, n: usize, h: usize) -> (r: Vec<T>)
    requires
        data@.len() == n * n,
        h <= n,
    ensures
        r@ == rotate_grid_spec(data@, n as int, h as int),
{
    let len = data.len();
    let mut out: Vec<T> = Vec::with_capacity(len);
    let mut i: usize = 0;
    while i < len
        invariant
            len == data@.len(),
            len == n * n,
            h <= n,
            i <= len,
            out@.len() == i,
            forall|k: int| 0 <= k < i ==> out@[k] == data@[rotated(n as int, h as int, k)],
        decreases len - i,
    {
        proof {
            lemma_rotated_parts(n as int, h as int, i as int);
            lemma_cell_div_mod(n as int, i as int);
            lemma_row_bound(n as int, i as int);
            assert(n <= 1 || n + n <= n * n) by (nonlinear_arith);
        }
        let row = (i / n + h) % n;
        let col = (i % n + h) % n;
        out.push(data[row * n + col]);
        i = i + 1;
    }
    assert(out@ =~= rotate_grid_spec(data@, n as int, h as int));
    out
}

/// Rotates every row and then every column left by half the side, so that
/// a kernel whose peak sits at the centre `(n/2, n/2)` has it at index 0.
pub fn fft_shift_2d<T: Copy>(data: &mut Vec<T>, size: usize)
    requires
        old(data)@.len() == size * size,
    ensures
        final(data)@ == fft_shifted(old(data)@, size as int),
{
    let shifted = rotate_grid(data, size, size / 2);
    *data = shifted;
}

/// Rotates every row and then every column right by half the side: the
/// inverse of [`fft_shift_2d`], moving index 0 back to the centre.
pub fn ifft_shift_2d<T: Copy>(data: &mut Vec<T>, size: usize)
    requires
        old(data)@.len() == size * size,
    ensures
        final(data)@ == ifft_shifted(old(data)@, size as int),
{
    let shifted = rotate_grid(data, size, size - size / 2);
    *data = shifted;
}

} // verus!
