//! The remaining effects on a loud tick: the energy and bass bells and
//! the composed shine frame.

use audio_visualizer::dsp::{build_audio_data, power_spectrum, tick_overlap};
use audio_visualizer::effects::effect_from_name;
use audio_visualizer::fixed::UNIT;
use audio_visualizer::melbank::get_mel_frequency_bins;
use audio_visualizer::stream::{InnerStream, Settings};

fn fx(x: f64) -> i64 {
    (x * UNIT as f64).round() as i64
}

fn hz_to_mel(f: f64) -> f64 {
    2595.0 * (1.0 + f / 700.0).log10()
}

fn mel_to_hz(m: f64) -> f64 {
    700.0 * (10f64.powf(m / 2595.0) - 1.0)
}

fn edges_hz(n: usize, fmin: f64, fmax: f64) -> Vec<i64> {
    let bins = get_mel_frequency_bins(n, fx(hz_to_mel(fmin)), fx(hz_to_mel(fmax)));
    bins.iter().map(|m| fx(mel_to_hz(*m as f64 / UNIT as f64))).collect()
}

/// One loud tick against the given effect; returns the rendered frame.
fn loud_frame(effect_name: &str) -> audio_visualizer::channel::Frame {
    let effect = effect_from_name(effect_name).unwrap();
    let mut state = InnerStream::new(Settings::default(), 16000, effect);
    let input = tick_overlap(&mut state, &vec![fx(0.5); 256]).unwrap();
    // a flat, loud magnitude spectrum
    let mags = vec![fx(16.0); 257];
    let power = power_spectrum(&mags);
    let bins = state.effect.amount_melbank_bins(state.settings.n_bins);
    let edges = edges_hz(bins, 20.0, 7999.0);
    let low_edges = edges_hz(bins, 0.0, 200.0);
    let shine_edges = edges_hz(60, 0.0, 200.0);
    // a narrow bell so the edges of the strip stay dark
    let center = (bins as f64 - 1.0) / 2.0;
    let gaussian: Vec<i64> = (0..bins)
        .map(|i| {
            let x = i as f64 - center;
            fx((-x * x / 200.0).exp())
        })
        .collect();
    let data = build_audio_data(
        &state, &input, &power, &edges, &low_edges, &shine_edges, &gaussian,
    );
    state.effect.transpose_animation(data)
}

#[test]
fn energy_effect_scales_the_bell() {
    let frame = loud_frame("Energy");
    let view = frame.view.unwrap();
    assert_eq!(view.effect.len(), 60);
    // a loud signal lights the bell's center more than its edges
    assert!(view.effect[30] > view.effect[0]);
    assert!(view.effect[30] > 0);
    assert!(frame.data.is_some());
}

#[test]
fn bass_effect_follows_the_low_band() {
    let frame = loud_frame("Bass");
    let view = frame.view.unwrap();
    assert_eq!(view.effect.len(), 60);
    // the first loud tick rises far above the decayed baseline: the bell
    // lights up, shaped like the Gaussian
    assert!(view.effect[30] >= view.effect[0]);
    assert!(view.effect[30] > 0);
}

#[test]
fn shine_effect_composes_both_halves() {
    let frame = loud_frame("Shine");
    let view = frame.view.unwrap();
    // half bins, mirrored back to the full strip
    assert_eq!(view.effect.len(), 60);
    let dmx = frame.data.unwrap();
    assert_eq!(dmx.len(), 3 * 60 + 1);
    assert_eq!(dmx[0], 0);
}

#[test]
fn spectrum_effect_mirrors_its_output() {
    let frame = loud_frame("Spectrum");
    let view = frame.view.unwrap();
    assert_eq!(view.effect.len(), 60);
    for i in 0..30 {
        assert_eq!(view.effect[i], view.effect[59 - i]);
    }
}
