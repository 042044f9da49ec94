use heightmap_engine::{
    add_padding, blur_taps, fft_shift_2d, high_pass_mask, ifft_shift_2d, kernel_distances, refine_pairs, square_side,
    vertex_window, BorderMode, Tap, UpscaleLayout,
};

#[test]
fn square_side_of_lengths() {
    assert_eq!(square_side(16), Some(4));
    assert_eq!(square_side(15), None);
    assert_eq!(square_side(17), None);
    assert_eq!(square_side(0), Some(0));
    assert_eq!(square_side(1), Some(1));
    assert_eq!(square_side(4296 * 4296), Some(4296));
}

#[test]
fn fft_shift_moves_centre_to_origin() {
    let mut data: Vec<u32> = (0..16).collect();
    fft_shift_2d(&mut data, 4);
    // The centre cell (2, 2) holds 10.
    assert_eq!(data[0], 10);
    assert_eq!(data, vec![10, 11, 8, 9, 14, 15, 12, 13, 2, 3, 0, 1, 6, 7, 4, 5]);
    ifft_shift_2d(&mut data, 4);
    assert_eq!(data, (0..16).collect::<Vec<u32>>());
}

#[test]
fn shifts_of_odd_raster_are_inverse() {
    let start: Vec<u32> = (0..9).collect();
    let mut data = start.clone();
    fft_shift_2d(&mut data, 3);
    assert_eq!(data[0], 4);
    assert_eq!(data, vec![4, 5, 3, 7, 8, 6, 1, 2, 0]);
    ifft_shift_2d(&mut data, 3);
    assert_eq!(data, start);
    ifft_shift_2d(&mut data, 3);
    fft_shift_2d(&mut data, 3);
    assert_eq!(data, start);
}

#[test]
fn kernel_distances_from_centre() {
    let d = kernel_distances(4);
    assert_eq!(d.len(), 16);
    assert_eq!(d[2 * 4 + 2], 0);
    assert_eq!(d[0], 8);
    assert_eq!(d[3], 4 + 1);
    assert_eq!(d[15], 2);
}

#[test]
fn gaussian_weights_sum_to_one() {
    let size = 8;
    let radius = 2.0f64;
    let sigma = (radius - 1.0) * 0.3 + 0.8;
    let raw: Vec<f64> = kernel_distances(size)
        .iter()
        .map(|&d| (-(d as f64) / (2.0 * sigma * sigma)).exp())
        .collect();
    let sum: f64 = raw.iter().sum();
    let total: f64 = raw.iter().map(|w| w / sum).sum();
    assert!((total - 1.0).abs() < 1e-9);
}

#[test]
fn degenerate_high_pass_is_unit_impulse() {
    let m = high_pass_mask(5, 1);
    let ones: Vec<usize> = (0..25).filter(|&i| m[i] != 0).collect();
    assert_eq!(ones, vec![2 * 5 + 2]);
    assert_eq!(m.iter().map(|&w| w as u32).sum::<u32>(), 1);
    let z = high_pass_mask(4, 0);
    assert_eq!(z.iter().map(|&w| w as u32).sum::<u32>(), 1);
    assert_eq!(z[10], 1);
}

#[test]
fn high_pass_removes_low_band() {
    let m = high_pass_mask(4, 2);
    // Centre and its four direct neighbours lie inside the radius.
    assert_eq!(m[10], 0);
    assert_eq!(m[6], 0);
    assert_eq!(m[9], 0);
    assert_eq!(m[5], 1);
    assert_eq!(m[0], 1);
    assert_eq!(m.iter().map(|&w| w as u32).sum::<u32>(), 16 - 5);
}

#[test]
fn padding_repeats_edges() {
    let data = vec![1u8, 2, 3, 4];
    let p = add_padding(&data, 2, 2);
    assert_eq!(p.len(), 36);
    assert_eq!(&p[0..6], &[1, 1, 1, 2, 2, 2]);
    assert_eq!(&p[12..18], &[1, 1, 1, 2, 2, 2]);
    assert_eq!(&p[18..24], &[3, 3, 3, 4, 4, 4]);
    assert_eq!(&p[30..36], &[3, 3, 3, 4, 4, 4]);
    assert_eq!(add_padding(&data, 2, 0), data);
}

#[test]
fn vertex_window_reads_four_rows() {
    let data: Vec<u32> = (0..36).collect();
    let w = vertex_window(&data, 6, 1, 2);
    assert_eq!(w, vec![13, 14, 15, 16, 19, 20, 21, 22, 25, 26, 27, 28, 31, 32, 33, 34]);
}

#[test]
fn refine_pairs_pick_corner_vertices() {
    let elevation = vec![10u32, 20, 30, 40];
    let vertices: Vec<u32> = (0..9).collect();
    let pairs = refine_pairs(&elevation, &vertices, 2);
    assert_eq!(pairs.len(), 16);
    assert_eq!(pairs[0], (0, 10));
    assert_eq!(pairs[1], (1, 10));
    assert_eq!(pairs[4], (3, 10));
    assert_eq!(pairs[5], (4, 10));
    assert_eq!(pairs[15], (8, 40));
    assert_eq!(pairs[10], (4, 40));
}

#[test]
fn uniform_raster_subdivides_uniformly() {
    let side = 3;
    let elevation = vec![7.0f64; side * side];
    let padded = add_padding(&elevation, side, 2);
    let vside = side + 1;
    let mut vertices = Vec::new();
    for y in 0..vside {
        for x in 0..vside {
            let w = vertex_window(&padded, side + 4, x, y);
            let s0 = (w[5] - w[0]) / 2.0 + w[5];
            let s1 = (w[6] - w[3]) / 2.0 + w[6];
            let s2 = (w[9] - w[12]) / 2.0 + w[9];
            let s3 = (w[10] - w[15]) / 2.0 + w[10];
            vertices.push((s0 + s1 + s2 + s3) / 4.0);
        }
    }
    let out: Vec<f64> = refine_pairs(&elevation, &vertices, side).iter().map(|(v, e)| (v + e) / 2.0).collect();
    assert_eq!(out.len(), 36);
    assert!(out.iter().all(|&v| v == 7.0));
}

#[test]
fn upscale_taps_keep_border_width() {
    let layout = UpscaleLayout { base: 4096, padding: 100, mode: BorderMode::Preserve };
    assert_eq!(layout.input_side(), 4296);
    assert_eq!(layout.output_side(), 16584);
    let t = layout.taps(0);
    assert_eq!(t.index, vec![74, 75, 76, 77]);
    assert_eq!(t.phase, 0);
    let t = layout.taps(16583);
    assert_eq!(t.index, vec![4219, 4220, 4221, 4222]);
    assert_eq!(t.phase, 3);
    let t = layout.taps(401);
    assert_eq!(t.index, vec![174, 175, 176, 177]);
    assert_eq!(t.phase, 1);
}

#[test]
fn upscale_taps_clamp_when_scaling_border() {
    let layout = UpscaleLayout { base: 4, padding: 1, mode: BorderMode::Scale };
    assert_eq!(layout.input_side(), 6);
    assert_eq!(layout.output_side(), 24);
    assert_eq!(layout.taps(0).index, vec![0, 0, 1, 2]);
    assert_eq!(layout.taps(23).index, vec![4, 5, 5, 5]);
    assert_eq!(layout.taps(23).phase, 3);
}

#[test]
fn blur_taps_at_ends_and_inside() {
    assert_eq!(blur_taps(5, 0), vec![(0, Tap::StartEdge), (1, Tap::After)]);
    assert_eq!(blur_taps(5, 2), vec![(1, Tap::Before), (2, Tap::Centre), (3, Tap::After)]);
    assert_eq!(blur_taps(5, 4), vec![(3, Tap::Before), (4, Tap::EndEdge)]);
    assert_eq!(blur_taps(2, 1), vec![(0, Tap::Before), (1, Tap::EndEdge)]);
}

#[test]
fn uniform_raster_upscales_uniformly() {
    fn cubic(x: f64) -> f64 {
        let (b, c) = (1.0 / 3.0, 1.0 / 3.0);
        let ax = x.abs();
        if ax < 1.0 {
            ((12.0 - 9.0 * b - 6.0 * c) * ax.powi(3) + (-18.0 + 12.0 * b + 6.0 * c) * ax * ax + (6.0 - 2.0 * b)) / 6.0
        } else if ax < 2.0 {
            ((-b - 6.0 * c) * ax.powi(3) + (6.0 * b + 30.0 * c) * ax * ax + (-12.0 * b - 48.0 * c) * ax + (8.0 * b + 24.0 * c))
                / 6.0
        } else {
            0.0
        }
    }
    for mode in [BorderMode::Preserve, BorderMode::Scale] {
        let layout = UpscaleLayout { base: 6, padding: 4, mode };
        let side = layout.input_side();
        let input = vec![2.5f64; side * side];
        for y in 0..layout.output_side() {
            let ty = layout.taps(y);
            for x in 0..layout.output_side() {
                let tx = layout.taps(x);
                let (px, py) = (tx.phase as f64 / 4.0, ty.phase as f64 / 4.0);
                let wx = [cubic(1.0 + px), cubic(px), cubic(1.0 - px), cubic(2.0 - px)];
                let wy = [cubic(1.0 + py), cubic(py), cubic(1.0 - py), cubic(2.0 - py)];
                let mut acc = 0.0;
                for i in 0..4 {
                    for j in 0..4 {
                        acc += wx[i] * wy[j] * input[ty.index[j] * side + tx.index[i]];
                    }
                }
                assert!((acc - 2.5).abs() < 1e-9);
            }
        }
    }
}

#[test]
fn blur_plan_keeps_flat_line_flat_with_skewed_kernel() {
    let k = [1.0f64, 2.0, 5.0];
    let sum: f64 = k.iter().sum();
    let weight = |t: Tap| match t {
        Tap::Before => k[0],
        Tap::Centre => k[1],
        Tap::After => k[2],
        Tap::StartEdge => k[0] + k[1],
        Tap::EndEdge => k[1] + k[2],
    } / sum;
    for p in 0..6 {
        let total: f64 = blur_taps(6, p).iter().map(|&(_, t)| weight(t) * 4.0).sum();
        assert!((total - 4.0).abs() < 1e-12);
    }
}
