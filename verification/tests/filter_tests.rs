//! The exponential filters and the gain normalizer.

use audio_visualizer::fixed::UNIT;
use audio_visualizer::smoothing::{
    apply_gain_filter, apply_smoothing_filter, ExponentialFilter, ExponentialVecFilter,
};

fn amp(x: f64) -> i64 {
    (x * UNIT as f64).round() as i64
}

#[test]
fn filter_rise_halves_the_distance() {
    // rise factor one half: each update closes half the gap upward
    let mut f = ExponentialFilter::new(0, amp(0.5), amp(0.1));
    assert_eq!(f.update(amp(1.0)), amp(0.5));
    assert_eq!(f.update(amp(1.0)), amp(0.75));
}

#[test]
fn filter_decay_quarters_the_distance() {
    // decay factor one quarter: each update keeps three quarters
    let mut f = ExponentialFilter::new(amp(1.0), amp(0.5), amp(0.25));
    assert_eq!(f.update(0), amp(0.75));
    assert_eq!(f.update(0), amp(0.5625));
}

#[test]
fn filter_rising_update_stays_strictly_between() {
    // on a rising input the new state lands strictly between the old
    // state and the input
    let mut f = ExponentialFilter::new(0, amp(0.5), amp(0.1));
    let out = f.update(amp(1.0));
    assert!(0 < out && out < amp(1.0));
    let out2 = f.update(amp(2.0));
    assert!(amp(0.5) < out2 && out2 < amp(2.0));
}

#[test]
fn vector_filter_smooths_lane_by_lane() {
    let mut f = ExponentialVecFilter::new(vec![0, amp(1.0)], amp(0.5), amp(0.5));
    let mut values = vec![amp(1.0), 0];
    f.update(&mut values);
    assert_eq!(values, vec![amp(0.5), amp(0.5)]);
}

#[test]
fn vector_filter_passes_extra_lanes_through() {
    // entries beyond the filter's lanes stay untouched
    let mut f = ExponentialVecFilter::new(vec![0], amp(0.5), amp(0.5));
    let mut values = vec![amp(1.0), amp(0.25)];
    f.update(&mut values);
    assert_eq!(values, vec![amp(0.5), amp(0.25)]);
}

#[test]
fn gain_normalizer_stays_near_one() {
    // any non-negative input whose maximum reaches one unit normalizes to
    // at most 66199/65536, about 1.011
    let mut filter = ExponentialFilter::gain_settings();
    for round in 1..20u32 {
        let mut buffer: Vec<i64> = (0..16).map(|i| amp(0.3) * i * round as i64).collect();
        apply_gain_filter(&mut buffer, &mut filter);
        for v in buffer {
            assert!(0 <= v && v <= UNIT + 663);
        }
    }
}

#[test]
fn gain_normalizer_keeps_empty_input() {
    let mut filter = ExponentialFilter::gain_settings();
    let before = filter.last;
    let mut buffer: Vec<i64> = Vec::new();
    apply_gain_filter(&mut buffer, &mut filter);
    assert!(buffer.is_empty());
    assert_eq!(filter.last, before);
}

#[test]
fn smoothing_preset_starts_at_zero() {
    let mut f = ExponentialVecFilter::smoothing_settings(4);
    let mut values = vec![0i64; 4];
    apply_smoothing_filter(&mut values, &mut f);
    assert_eq!(values, vec![0, 0, 0, 0]);
}
