use vstd::prelude::*;

use crate::grid::{
    cell, lemma_cell_div_mod, lemma_cell_in_bounds, lemma_cell_split, lemma_row_bound, lemma_square_monotone,
};

verus! {

/// One of the four overlapping quadrant tiles of a square raster: its origin
/// `(x, y)` in the source, its side, and its cells in row-major order.
pub struct Tile<T> {
    pub x: usize,
    pub y: usize,
    pub side: usize,
    pub data: Vec<T>,
}

/// Side of each tile: half the raster, the overlap, and the odd remainder.
pub open spec fn tile_side_spec(size: int, overlap: int) -> int {
    size / 2 + overlap + size % 2
}

/// Origin coordinate of the second tile along an axis.
pub open spec fn tile_offset_spec(size: int, overlap: int) -> int {
    size / 2 - overlap
}

/// Origin column of tile `q`; tiles are ordered (0,0), (offset,0), (0,offset), (offset,offset).
pub open spec fn tile_x(size: int, overlap: int, q: int) -> int {
    if q % 2 == 1 { tile_offset_spec(size, overlap) } else { 0 }
}

/// Origin row of tile `q`.
pub open spec fn tile_y(size: int, overlap: int, q: int) -> int {
    if q >= 2 { tile_offset_spec(size, overlap) } else { 0 }
}

/// Start of the core half along an axis: the first half ends at `size/2`.
pub open spec fn core_start(size: int, second: bool) -> int {
    if second { size / 2 } else { 0 }
}

/// End (exclusive) of the core half along an axis.
pub open spec fn core_end(size: int, second: bool) -> int {
    if second { size } else { size / 2 }
}

/// Whether source cell `(x, y)` lies in the core (non-overlap) region of tile `q`.
pub open spec fn in_core(size: int, q: int, x: int, y: int) -> bool {
    &&& core_start(size, q % 2 == 1) <= x < core_end(size, q % 2 == 1)
    &&& core_start(size, q >= 2) <= y < core_end(size, q >= 2)
}

/// Whether source cell `(x, y)` is covered by tile `q`, overlap included.
pub open spec fn in_tile(size: int, overlap: int, q: int, x: int, y: int) -> bool {
    &&& tile_x(size, overlap, q) <= x < tile_x(size, overlap, q) + tile_side_spec(size, overlap)
    &&& tile_y(size, overlap, q) <= y < tile_y(size, overlap, q) + tile_side_spec(size, overlap)
}

/// The square window of side `side` at `(x0, y0)` of a raster of side `size`.
pub open spec fn crop_spec<T>(s: Seq<T>, size: int, x0: int, y0: int, side: int) -> Seq<T> {
    Seq::new((side * side) as nat, |i: int| s[cell(size, y0 + i / side, x0 + i % side)])
}

/// The tiles cover the raster: each source cell lies in the core of exactly
/// one of the four tiles, and that tile covers the cell.
pub proof fn lemma_cores_partition(size: int, overlap: int, x: int, y: int)
    requires
        0 <= overlap <= size / 2,
        0 <= x < size,
        0 <= y < size,
    ensures
        exists|q: int| 0 <= q < 4 && #[trigger] in_core(size, q, x, y),
        forall|q: int, p: int|
            0 <= q < 4 && 0 <= p < 4 && #[trigger] in_core(size, q, x, y) && #[trigger] in_core(
                size,
                p,
                x,
                y,
            ) ==> q == p,
        forall|q: int| 0 <= q < 4 && #[trigger] in_core(size, q, x, y) ==> in_tile(size, overlap, q, x, y),
{
    let q = (if y < size / 2 { 0int } else { 2int }) + (if x < size / 2 { 0int } else { 1int });
    assert(in_core(size, q, x, y));
}

/// Copies the square window of side `side` at `(x0, y0)`.
fn crop<T: Copy>(data: &Vec<T>, size: usize, x0: usize, y0: usize, side: usize) -> (r: Vec<T>)
    requires
        data@.len() == size * size,
        x0 + side <= size,
        y0 + side <= size,
    ensures
        r@ == crop_spec(data@, size as int, x0 as int, y0 as int, side as int),
{
    let total = data.len();
    proof {
        lemma_square_monotone(side as nat, size as nat);
    }
    let len = side * side;
    let mut out: Vec<T> = Vec::with_capacity(len);
    let mut i: usize = 0;
    while i < len
        invariant
            len == side * side,
            total == data@.len(),
            data@.len() == size * size,
            x0 + side <= size,
            y0 + side <= size,
            i <= len,
            out@.len() == i,
            forall|k: int|
                0 <= k < i ==> out@[k] == data@[cell(size as int, y0 + k / side as int, x0 + k % side as int)],
        decreases len - i,
    {
        proof {
            lemma_cell_div_mod(side as int, i as int);
            lemma_row_bound(side as int, i as int);
            lemma_cell_in_bounds(size as int, (y0 + i / side) as int, (x0 + i % side) as int);
        }
        let row = y0 + i / side;
        let col = x0 + i % side;
        out.push(data[row * size + col]);
        i = i + 1;
    }
    assert(out@ =~= crop_spec(data@, size as int, x0 as int, y0 as int, side as int));
    out
}

/// Side of each tile for a raster of side `size` and a filter overlap.
pub fn tile_side(size: usize, overlap: usize) -> (r: usize)
    requires
        overlap <= size / 2,
    ensures
        r == tile_side_spec(size as int, overlap as int),
        r <= size,
{
    size / 2 + overlap + size % 2
}

/// Splits a square raster into four overlapping quadrant tiles anchored at
/// (0,0), (offset,0), (0,offset), (offset,offset) with `offset = size/2 - overlap`.
pub fn extract_tiles<T: Copy>(data: &Vec<T>, size: usize, overlap: usize) -> (r: Vec<Tile<T>>)
    requires
        data@.len() == size * size,
        overlap <= size / 2,
    ensures
        r@.len() == 4,
        forall|q: int|
            0 <= q < 4 ==> {
                let t = #[trigger] r@[q];
                &&& t.x == tile_x(size as int, overlap as int, q)
                &&& t.y == tile_y(size as int, overlap as int, q)
                &&& t.side == tile_side_spec(size as int, overlap as int)
                &&& t.data@ == crop_spec(data@, size as int, t.x as int, t.y as int, t.side as int)
            },
{
    let side = tile_side(size, overlap);
    let offset = size / 2 - overlap;
    let mut tiles: Vec<Tile<T>> = Vec::with_capacity(4);
    let mut q: usize = 0;
    while q < 4
        invariant
            data@.len() == size * size,
            overlap <= size / 2,
            side == tile_side_spec(size as int, overlap as int),
            offset == tile_offset_spec(size as int, overlap as int),
            q <= 4,
            tiles@.len() == q,
            forall|p: int|
                0 <= p < q ==> {
                    let t = #[trigger] tiles@[p];
                    &&& t.x == tile_x(size as int, overlap as int, p)
                    &&& t.y == tile_y(size as int, overlap as int, p)
                    &&& t.side == side
                    &&& t.data@ == crop_spec(data@, size as int, t.x as int, t.y as int, side as int)
                },
        decreases 4 - q,
    {
        let x = if q % 2 == 1 { offset } else { 0 };
        let y = if q >= 2 { offset } else { 0 };
        let cells = crop(data, size, x, y, side);
        tiles.push(Tile { x, y, side, data: cells });
        q = q + 1;
    }
    tiles
}

/// Index of the tile whose core holds source cell `(x, y)`.
pub open spec fn core_tile(size: int, x: int, y: int) -> int {
    (if y < size / 2 { 0int } else { 2int }) + (if x < size / 2 { 0int } else { 1int })
}

/// Whether `t` is tile `q` of a raster of side `size` with this overlap, by shape.
pub open spec fn tile_shaped<T>(t: Tile<T>, size: int, overlap: int, q: int) -> bool {
    &&& t.x == tile_x(size, overlap, q)
    &&& t.y == tile_y(size, overlap, q)
    &&& t.side == tile_side_spec(size, overlap)
    &&& t.data@.len() == t.side * t.side
}

/// Cell `(x, y)` of the raster rebuilt from the tiles' cores.
pub open spec fn merged_cell<T>(tiles: Seq<Tile<T>>, size: int, x: int, y: int) -> T {
    let t = tiles[core_tile(size, x, y)];
    t.data@[cell(t.side as int, y - t.y, x - t.x)]
}

/// Rebuilds the full raster from four tiles, taking each cell from the tile
/// whose core holds it and discarding the overlap.
pub fn merge_tiles<T: Copy>(tiles: &Vec<Tile<T>>, size: usize, overlap: usize) -> (r: Vec<T>)
    requires
        tiles@.len() == 4,
        overlap <= size / 2,
        size * size <= usize::MAX,
        forall|q: int| 0 <= q < 4 ==> tile_shaped(#[trigger] tiles@[q], size as int, overlap as int, q),
    ensures
        r@.len() == size * size,
        forall|i: int|
            0 <= i < r@.len() ==> #[trigger] r@[i] == merged_cell(tiles@, size as int, i % size as int, i / size as int),
{
    let len = size * size;
    let half = size / 2;
    let mut out: Vec<T> = Vec::with_capacity(len);
    let mut i: usize = 0;
    while i < len
        invariant
            tiles@.len() == 4,
            overlap <= size / 2,
            half == size / 2,
            len == size * size,
            forall|q: int| 0 <= q < 4 ==> tile_shaped(#[trigger] tiles@[q], size as int, overlap as int, q),
            i <= len,
            out@.len() == i,
            forall|k: int|
                0 <= k < i ==> #[trigger] out@[k] == merged_cell(tiles@, size as int, k % size as int, k / size as int),
        decreases len - i,
    {
        proof {
            if size == 0 {
                assert(size * size == 0);
            }
            lemma_cell_div_mod(size as int, i as int);
            lemma_row_bound(size as int, i as int);
        }
        let y = i / size;
        let x = i % size;
        let q: usize = (if y < half { 0 } else { 2 }) + (if x < half { 0 } else { 1 });
        let t = &tiles[q];
        let cells = t.data.len();
        proof {
            assert(cells == t.side * t.side);
            lemma_cores_partition(size as int, overlap as int, x as int, y as int);
            assert(in_core(size as int, q as int, x as int, y as int));
            lemma_cell_in_bounds(t.side as int, (y - t.y) as int, (x - t.x) as int);
        }
        out.push(t.data[(y - t.y) * t.side + (x - t.x)]);
        i = i + 1;
    }
    out
}

/// Reassembling the tiles of a raster gives back that raster: the cores
/// cover every cell once and carry the cell's own value.
pub proof fn lemma_merge_extract<T>(s: Seq<T>, size: int, overlap: int, tiles: Seq<Tile<T>>)
    requires
        s.len() == size * size,
        0 <= overlap <= size / 2,
        tiles.len() == 4,
        forall|q: int|
            0 <= q < 4 ==> {
                let t = #[trigger] tiles[q];
                &&& t.x == tile_x(size, overlap, q)
                &&& t.y == tile_y(size, overlap, q)
                &&& t.side == tile_side_spec(size, overlap)
                &&& t.data@ == crop_spec(s, size, t.x as int, t.y as int, t.side as int)
            },
    ensures
        forall|x: int, y: int|
            0 <= x < size && 0 <= y < size ==> #[trigger] merged_cell(tiles, size, x, y) == s[cell(size, y, x)],
{
    assert forall|x: int, y: int| 0 <= x < size && 0 <= y < size implies #[trigger] merged_cell(tiles, size, x, y) == s[cell(size, y, x)] by {
        let q = core_tile(size, x, y);
        lemma_cores_partition(size, overlap, x, y);
        assert(in_core(size, q, x, y));
        let t = tiles[q];
        let side = t.side as int;
        let j = cell(side, y - t.y, x - t.x);
        lemma_cell_in_bounds(side, y - t.y, x - t.x);
        lemma_cell_split(side, y - t.y, x - t.x);
    }
}

} // verus!
