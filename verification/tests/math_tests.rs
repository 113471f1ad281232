//! The vector arithmetic: transpose, linear spacing, elementwise
//! products and mirroring.

use audio_visualizer::fixed::UNIT;
use audio_visualizer::math::{array_product, clone_flip, linspace, transpose, MathError};

/// A real amplitude as a fixed-point integer.
fn fx(x: f64) -> i64 {
    (x * UNIT as f64).round() as i64
}

#[test]
fn transpose_len_and_start_code() {
    // the buffer always holds one byte per color per intensity plus the
    // start code, and the start code is zero
    for n in 0..5usize {
        let v = vec![fx(0.5); n];
        let out = transpose(&v, [10, 20, 30]);
        assert_eq!(out.len(), 3 * n + 1);
        assert_eq!(out[0], 0);
    }
}

#[test]
fn transpose_literal() {
    // the first intensity is skipped, so the final three bytes stay zero
    let v = vec![0, fx(0.5), fx(1.0)];
    let out = transpose(&v, [100, 200, 0]);
    assert_eq!(out, vec![0, 50, 100, 0, 100, 200, 0, 0, 0, 0]);
}

#[test]
fn transpose_rounds_half_away_from_zero() {
    // 0.5 * 255 = 127.5 rounds up to 128
    let v = vec![0, fx(0.5)];
    let out = transpose(&v, [255, 255, 255]);
    assert_eq!(out[1], 128);
    assert_eq!(out[2], 128);
    assert_eq!(out[3], 128);
}

#[test]
fn transpose_white_is_rounded_255_fold() {
    // with white, each byte is exactly round(v * 255)
    let v = vec![0, fx(0.25), fx(0.5), fx(1.0)];
    let out = transpose(&v, [255, 255, 255]);
    assert_eq!(out[1], 64); // round(63.75)
    assert_eq!(out[4], 128); // round(127.5)
    assert_eq!(out[7], 255);
}

#[test]
fn transpose_saturates() {
    // an intensity above one saturates into the byte range
    let v = vec![0, fx(2.0)];
    let out = transpose(&v, [255, 255, 255]);
    assert_eq!(out[1], 255);
    // a negative intensity clamps to zero
    let v2 = vec![0, fx(-1.0)];
    let out2 = transpose(&v2, [255, 255, 255]);
    assert_eq!(out2[1], 0);
}

#[test]
fn linspace_is_arithmetic_progression() {
    let out = linspace(fx(0.0), fx(7.0), 8);
    assert_eq!(out.len(), 8);
    let step = out[1] - out[0];
    for i in 1..8 {
        assert_eq!(out[i] - out[i - 1], step);
    }
    assert_eq!(out[0], 0);
    assert_eq!(out[7], fx(7.0));
}

#[test]
fn array_product_multiplies_pointwise() {
    let a = vec![fx(1.0), fx(2.0), fx(-1.0)];
    let b = vec![fx(0.5), fx(0.5), fx(1.0)];
    let out = array_product(&a, &b).unwrap();
    assert_eq!(out, vec![fx(0.5), fx(1.0), fx(-1.0)]);
}

#[test]
fn array_product_rejects_length_mismatch() {
    let a = vec![fx(1.0)];
    let b = vec![fx(1.0), fx(1.0)];
    assert_eq!(array_product(&a, &b).unwrap_err(), MathError::NoEqualLength);
}

#[test]
fn clone_flip_reverses() {
    let v = vec![1, 2, 3, 4];
    assert_eq!(clone_flip(&v), vec![4, 3, 2, 1]);
    let e: Vec<i64> = Vec::new();
    assert_eq!(clone_flip(&e), Vec::<i64>::new());
}
