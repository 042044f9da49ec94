use vstd::prelude::*;

verus! {

/// Flat row-major index of the cell at `(row, col)` in a raster of side `n`.
pub open spec fn cell(n: int, row: int, col: int) -> int {
    row * n + col
}

/// Squares are monotone on naturals.
pub proof fn lemma_square_monotone(a: nat, b: nat)
    requires
        a <= b,
    ensures
        a * a <= b * b,
{
    assert(a * a <= b * b) by (nonlinear_arith)
        requires
            a <= b,
    ;
}

/// A cell index of a square raster stays below its length.
pub proof fn lemma_cell_in_bounds(n: int, row: int, col: int)
    requires
        0 <= row < n,
        0 <= col < n,
    ensures
        0 <= cell(n, row, col) < n * n,
{
    assert(0 <= row * n + col < n * n) by (nonlinear_arith)
        requires
            0 <= row < n,
            0 <= col < n,
    ;
}

/// The row and column of a flat index recompose it.
pub proof fn lemma_cell_div_mod(n: int, i: int)
    requires
        0 < n,
        0 <= i,
    ensures
        i == cell(n, i / n, i % n),
        0 <= i % n < n,
{
    vstd::arithmetic::div_mod::lemma_fundamental_div_mod(i, n);
    vstd::arithmetic::mul::lemma_mul_is_commutative(n, i / n);
}

/// The row of an index inside a square raster is inside it too.
pub proof fn lemma_row_bound(n: int, i: int)
    requires
        0 < n,
        0 <= i < n * n,
    ensures
        0 <= i / n < n,
{
    lemma_cell_div_mod(n, i);
    vstd::arithmetic::div_mod::lemma_div_pos_is_pos(i, n);
    let q = i / n;
    let m = i % n;
    assert(q < n) by (nonlinear_arith)
        requires
            i == q * n + m,
            0 <= m,
            i < n * n,
            0 < n,
    ;
}

/// A flat index taken apart into row and column.
pub proof fn lemma_cell_split(n: int, row: int, col: int)
    requires
        0 <= row,
        0 <= col < n,
    ensures
        cell(n, row, col) / n == row,
        cell(n, row, col) % n == col,
{
    vstd::arithmetic::div_mod::lemma_fundamental_div_mod_converse(row * n + col, n, row, col);
}

/// Reduction of a value below twice the modulus.
pub proof fn lemma_mod_once(x: int, n: int)
    requires
        0 < n,
        0 <= x < 2 * n,
    ensures
        x % n == if x < n { x } else { x - n },
        x / n == if x < n { 0int } else { 1int },
{
    if x < n {
        vstd::arithmetic::div_mod::lemma_fundamental_div_mod_converse(x, n, 0, x);
    } else {
        vstd::arithmetic::div_mod::lemma_fundamental_div_mod_converse(x, n, 1, x - n);
    }
}

/// Side of a square raster of `len` cells: `Some(n)` exactly when `n * n == len`.
pub fn square_side(len: usize) -> (r: Option<usize>)
    ensures
        match r {
            Some(n) => n * n == len,
            None => forall|n: nat| #[trigger] (n * n) != len,
        },
{
    let mut s: usize = 0;
    loop
        invariant
            s * s <= len,
            s <= len,
        ensures
            s * s <= len,
            len < (s + 1) * (s + 1),
        decreases len - s,
    {
        let t: u128 = s as u128 + 1;
        if s >= len {
            proof {
                assert(len < t * t) by (nonlinear_arith)
                    requires
                        s == len,
                        t == s + 1,
                ;
            }
            break;
        }
        proof {
            assert(t * t <= 0xffff_ffff_ffff_fffe_0000_0000_0000_0001u128) by (nonlinear_arith)
                requires
                    t <= 0xffff_ffff_ffff_ffffu128,
            ;
        }
        if t * t > len as u128 {
            break;
        }
        s = s + 1;
    }
    if (s as u128) * (s as u128) == len as u128 {
        Some(s)
    } else {
        proof {
            assert forall|n: nat| #[trigger] (n * n) != len by {
                if n <= s {
                    lemma_square_monotone(n, s as nat);
                } else {
                    lemma_square_monotone((s + 1) as nat, n);
                }
            }
        }
        None
    }
}

} // verus!
