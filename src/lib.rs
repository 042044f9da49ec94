//! Structural core of a square heightmap transformation engine.
//!
//! Rasters are flat row-major sequences of cells of side `n`. Every function
//! here is generic over the cell type or works on indices alone, so the layout
//! logic (spectral shifts, kernel geometry, tiling, neighbourhoods, resampling
//! taps, subdivision) is verified independently of the cell arithmetic. The
//! image codec's settings and sample framing are verified too; the encoder and
//! decoder themselves are the png crate's.
mod codec;
mod grid;
mod kernel;
mod ruggedness;
mod shift;
mod subdivision;
mod tiles;
mod upscale;

pub use codec::{
    decode_image, encode_image, parse_bit_depth, parse_color_type, parse_compression, BitDepth,
    CodecError, ColorType, Compression,
};
pub use grid::square_side;
pub use kernel::{high_pass_mask, kernel_distances};
pub use ruggedness::{neighbor_count, neighbors, padded_centre_index, padded_neighbors};
pub use shift::{fft_shift_2d, ifft_shift_2d};
pub use subdivision::{add_padding, blur_taps, refine_pairs, vertex_window, Tap};
pub use tiles::{extract_tiles, merge_tiles, tile_side, Tile};
pub use upscale::{AxisTaps, BorderMode, UpscaleLayout, SCALE};
