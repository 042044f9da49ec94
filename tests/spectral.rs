use heightmap_engine::{fft_shift_2d, kernel_distances, square_side};
use rustfft::num_complex::Complex;
use rustfft::FftPlanner;

fn blurred(values: &[f32], radius: f32) -> Vec<f32> {
    let size = square_side(values.len()).unwrap();
    let sigma = (radius - 1.0) * 0.3 + 0.8;
    let raw: Vec<f32> = kernel_distances(size)
        .iter()
        .map(|&d| (-(d as f32) / (2.0 * sigma * sigma)).exp())
        .collect();
    let sum: f32 = raw.iter().sum();
    let mut kernel: Vec<Complex<f32>> = raw.iter().map(|&w| Complex::new(w / sum, 0.0)).collect();
    fft_shift_2d(&mut kernel, size);
    let mut planner = FftPlanner::new();
    let fft = planner.plan_fft_forward(values.len());
    let ifft = planner.plan_fft_inverse(values.len());
    let mut spectrum: Vec<Complex<f32>> = values.iter().map(|&v| Complex::new(v, 0.0)).collect();
    fft.process(&mut spectrum);
    fft.process(&mut kernel);
    for (s, k) in spectrum.iter_mut().zip(&kernel) {
        *s *= *k;
    }
    ifft.process(&mut spectrum);
    spectrum.iter().map(|c| c.re / values.len() as f32).collect()
}

#[test]
fn uniform_raster_blurs_to_itself() {
    let values = vec![10.0f32; 16];
    let out = blurred(&values, 2.0);
    assert!(out.iter().all(|&v| (v - 10.0).abs() <= 1e-4));
}

#[test]
fn zero_phase_kernel_keeps_an_impulse_centred() {
    let mut values = vec![0.0f32; 25];
    values[12] = 1.0;
    let out = blurred(&values, 1.0);
    let peak = (0..25).max_by(|&a, &b| out[a].partial_cmp(&out[b]).unwrap()).unwrap();
    assert_eq!(peak, 12);
    assert!((out.iter().sum::<f32>() - 1.0).abs() < 1e-4);
}
