//! The peak detector: levels, edges and their alternation.

use audio_visualizer::detection::PeakDetector;
use audio_visualizer::fixed::UNIT;

fn amp(x: f64) -> i64 {
    (x * UNIT as f64).round() as i64
}

fn default_detector() -> PeakDetector {
    // the bass preset: accuracy 0.1, sensitivity 1.5, gain decay 0.001,
    // smoothing (0.6, 0.05)
    PeakDetector::new(amp(0.1), amp(1.5), amp(0.001), (amp(0.6), amp(0.05)))
}

#[test]
fn detector_announces_rise_and_fall() {
    let mut d = default_detector();
    let silence = vec![0i64; 10];
    let loud = vec![amp(1.0); 10];

    for _ in 0..20 {
        d.update(&silence);
    }
    let mut saw_start = false;
    for _ in 0..20 {
        let (_, edge) = d.update(&loud);
        if edge == Some(true) {
            saw_start = true;
        }
        assert_ne!(edge, Some(false));
    }
    assert!(saw_start);

    let mut saw_end = false;
    for _ in 0..200 {
        let (_, edge) = d.update(&silence);
        if edge == Some(false) {
            saw_end = true;
        }
        assert_ne!(edge, Some(true));
    }
    assert!(saw_end);
}

#[test]
fn detector_edges_alternate() {
    // over any input schedule, announced edges strictly alternate
    let mut d = default_detector();
    let mut last_edge: Option<bool> = None;
    for round in 0..6 {
        let level = if round % 2 == 0 { 0.0 } else { 1.0 };
        let bank = vec![amp(level); 8];
        for _ in 0..120 {
            let (_, edge) = d.update(&bank);
            if let Some(b) = edge {
                if let Some(prev) = last_edge {
                    assert_ne!(b, prev);
                }
                last_edge = Some(b);
            }
        }
    }
    assert!(last_edge.is_some());
}

#[test]
fn detector_output_is_bounded() {
    let mut d = default_detector();
    for i in 0..50u32 {
        let bank = vec![amp(0.01) * (i as i64 % 7); 5];
        let (level, _) = d.update(&bank);
        assert!(0 <= level && level <= 3 * UNIT);
    }
}
