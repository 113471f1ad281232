//! The mel filterbank: edge spacing, the triangular matrix and the
//! projection.

use audio_visualizer::fixed::UNIT;
use audio_visualizer::melbank::{apply_mel_matrix, compute_mel_matrix, get_mel_frequency_bins};

fn fx(x: f64) -> i64 {
    (x * UNIT as f64).round() as i64
}

fn hz_to_mel(f: f64) -> f64 {
    2595.0 * (1.0 + f / 700.0).log10()
}

fn mel_to_hz(m: f64) -> f64 {
    700.0 * (10f64.powf(m / 2595.0) - 1.0)
}

/// The filter edges over `[fmin, fmax]` Hz at `n` bins, in fixed-point Hz.
fn edges_hz(n: usize, fmin: f64, fmax: f64) -> Vec<i64> {
    let bins = get_mel_frequency_bins(n, fx(hz_to_mel(fmin)), fx(hz_to_mel(fmax)));
    bins.iter().map(|m| fx(mel_to_hz(*m as f64 / UNIT as f64))).collect()
}

#[test]
fn mel_edges_form_arithmetic_progression() {
    let bins = get_mel_frequency_bins(6, fx(hz_to_mel(20.0)), fx(hz_to_mel(12000.0)));
    assert_eq!(bins.len(), 8);
    let step = bins[1] - bins[0];
    for i in 1..8 {
        assert_eq!(bins[i] - bins[i - 1], step);
    }
    assert!(step > 0);
}

#[test]
fn mel_matrix_sanity() {
    // four filters against eight FFT bins over 0..8000 Hz at 16 kHz
    let edges = edges_hz(4, 0.0, 8000.0);
    let m = compute_mel_matrix(&edges, 8, 16000);
    assert_eq!(m.len(), 4);
    for row in &m {
        assert_eq!(row.len(), 8);
        for &w in row {
            assert!(0 <= w && w <= UNIT);
        }
    }
    // the first filter's upper edge sits near 1219 Hz: every FFT bin from
    // 2286 Hz on carries no weight in row 0
    for j in 2..8 {
        assert_eq!(m[0][j], 0);
    }
    // the bins next to the first filter's center carry weight
    assert!(m[0][1] > 0);
}

#[test]
fn mel_matrix_center_weight_is_one() {
    // with edges aligned on the FFT grid, the filter's center bin weighs
    // exactly one
    let step = (8000i64 * UNIT) / 7;
    let edges = vec![0, step, 2 * step];
    let m = compute_mel_matrix(&edges, 8, 16000);
    assert_eq!(m.len(), 1);
    assert_eq!(m[0][1], UNIT);
    assert_eq!(m[0][0], 0);
    assert_eq!(m[0][2], 0);
    // the filter is triangular: it rises up to the center and falls after
    for j in 1..8 {
        assert!(m[0][j] <= m[0][1]);
    }
}

#[test]
fn mel_matrix_rows_sum_positive() {
    // a dense FFT grid puts at least one bin on every filter's slope
    let edges = edges_hz(4, 0.0, 8000.0);
    let m = compute_mel_matrix(&edges, 256, 16000);
    for row in &m {
        let sum: i64 = row.iter().sum();
        assert!(sum > 0);
    }
}

#[test]
fn mel_projection_of_zeros_is_zeros() {
    let edges = edges_hz(6, 20.0, 12000.0);
    let spectrum = vec![0i64; 64];
    let out = apply_mel_matrix(&spectrum, &edges, 44100);
    assert_eq!(out, vec![0i64; 6]);
}

#[test]
fn mel_projection_weighs_the_spectrum() {
    // a flat spectrum projects each filter to at most its row sum
    let edges = edges_hz(4, 0.0, 8000.0);
    let spectrum = vec![UNIT; 128];
    let out = apply_mel_matrix(&spectrum, &edges, 16000);
    assert_eq!(out.len(), 4);
    for v in out {
        assert!(v > 0);
    }
}
