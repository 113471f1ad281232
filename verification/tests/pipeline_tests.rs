//! The tick pipeline end to end: overlap and tick dropping, the silence
//! gate, effect rendering and effect swapping.

use audio_visualizer::dsp::{build_audio_data, power_spectrum, tick_overlap, tick_window};
use audio_visualizer::effects::effect_from_name;
use audio_visualizer::fixed::UNIT;
use audio_visualizer::melbank::get_mel_frequency_bins;
use audio_visualizer::stream::{InnerStream, Settings};
use audio_visualizer::ControllerError;

fn fx(x: f64) -> i64 {
    (x * UNIT as f64).round() as i64
}

fn hz_to_mel(f: f64) -> f64 {
    2595.0 * (1.0 + f / 700.0).log10()
}

fn mel_to_hz(m: f64) -> f64 {
    700.0 * (10f64.powf(m / 2595.0) - 1.0)
}

fn edges_hz(n: usize, fmin: f64, fmax: f64) -> Vec<i64> {
    let bins = get_mel_frequency_bins(n, fx(hz_to_mel(fmin)), fx(hz_to_mel(fmax)));
    bins.iter().map(|m| fx(mel_to_hz(*m as f64 / UNIT as f64))).collect()
}

fn fresh_stream(effect_name: &str) -> InnerStream {
    let effect = effect_from_name(effect_name).unwrap();
    InnerStream::new(Settings::default(), 44100, effect)
}

#[test]
fn tick_dropping_on_length_change() {
    let mut state = fresh_stream("Melbank");
    // the first tick fixes the callback size
    let first = tick_overlap(&mut state, &vec![0i64; 1024]);
    assert!(first.is_some());
    assert_eq!(first.unwrap().len(), 2048);
    assert_eq!(state.last_frame.len(), 1024);
    // a shorter tick is dropped and leaves the kept frame alone
    let kept = state.last_frame.clone();
    let second = tick_overlap(&mut state, &vec![fx(0.5); 512]);
    assert!(second.is_none());
    assert_eq!(state.last_frame, kept);
    // a tick of the right size goes through again
    let third = tick_overlap(&mut state, &vec![0i64; 1024]);
    assert!(third.is_some());
}

#[test]
fn overlap_carries_the_previous_frame() {
    let mut state = fresh_stream("Melbank");
    tick_overlap(&mut state, &vec![fx(0.25); 4]).unwrap();
    let out = tick_overlap(&mut state, &vec![fx(0.5); 4]).unwrap();
    assert_eq!(out[..4], vec![fx(0.25); 4][..]);
    assert_eq!(out[4..], vec![fx(0.5); 4][..]);
}

#[test]
fn silence_is_gated_to_zero() {
    // every sample at most 0.0002 in magnitude: the pre-FFT buffer is
    // zeroed entirely
    let input = vec![5i64; 64]; // 5/65536, below the silence threshold of 13/65536
    let hann = vec![UNIT; 64];
    let w = tick_window(&input, &hann);
    assert_eq!(w, vec![0i64; 64]);
}

#[test]
fn loud_input_passes_the_gate() {
    let mut input = vec![0i64; 64];
    input[10] = fx(0.5);
    let hann = vec![UNIT; 64];
    let w = tick_window(&input, &hann);
    assert!(w.iter().any(|v| *v != 0));
}

#[test]
fn silent_tick_renders_all_zero_frames() {
    // from fresh state, a silent tick yields an all-zero intensity vector
    // and DMX bytes that are zero after the start code
    let mut state = fresh_stream("Melbank");
    let input = tick_overlap(&mut state, &vec![0i64; 256]).unwrap();
    let hann = vec![UNIT; 512];
    let w = tick_window(&input, &hann);
    assert_eq!(w, vec![0i64; 512]);
    // the FFT of silence is silence; 257 magnitude bins for 512 samples
    let mags = vec![0i64; 257];
    let power = power_spectrum(&mags);
    let bins = state.effect.amount_melbank_bins(state.settings.n_bins);
    assert_eq!(bins, 60);
    let edges = edges_hz(bins, 20.0, 12000.0);
    let low_edges = edges_hz(bins, 0.0, 200.0);
    let shine_edges = edges_hz(60, 0.0, 200.0);
    let gaussian = vec![UNIT; bins];
    let data = build_audio_data(
        &state, &input, &power, &edges, &low_edges, &shine_edges, &gaussian,
    );
    let frame = state.effect.transpose_animation(data);
    let view = frame.view.unwrap();
    assert_eq!(view.effect, vec![0i64; 60]);
    let dmx = frame.data.unwrap();
    assert_eq!(dmx.len(), 3 * 60 + 1);
    assert!(dmx.iter().all(|b| *b == 0));
}

#[test]
fn effect_swap_changes_bin_count_on_next_tick() {
    let mut state = fresh_stream("Melbank");
    assert_eq!(state.effect.amount_melbank_bins(60), 60);
    // swapping to a mirroring effect halves the requested mel bins
    let spectrum = effect_from_name("Spectrum").unwrap();
    state.update_effect(spectrum);
    let bins = state.effect.amount_melbank_bins(state.settings.n_bins);
    assert_eq!(bins, 30);
    // the first tick after the swap renders with the new effect's shape
    let input = tick_overlap(&mut state, &vec![0i64; 256]).unwrap();
    let power = power_spectrum(&vec![0i64; 257]);
    let edges = edges_hz(bins, 20.0, 12000.0);
    let low_edges = edges_hz(bins, 0.0, 200.0);
    let shine_edges = edges_hz(60, 0.0, 200.0);
    let gaussian = vec![UNIT; bins];
    let data = build_audio_data(
        &state, &input, &power, &edges, &low_edges, &shine_edges, &gaussian,
    );
    let frame = state.effect.transpose_animation(data);
    // the mirrored vector is twice the halved bin count
    assert_eq!(frame.view.unwrap().effect.len(), 60);
}

#[test]
fn view_only_effect_emits_no_dmx() {
    let mut state = fresh_stream("FFT (View Only)");
    let input = tick_overlap(&mut state, &vec![0i64; 256]).unwrap();
    let power = power_spectrum(&vec![0i64; 257]);
    let bins = state.effect.amount_melbank_bins(state.settings.n_bins);
    let edges = edges_hz(bins, 20.0, 12000.0);
    let low_edges = edges_hz(bins, 0.0, 200.0);
    let shine_edges = edges_hz(60, 0.0, 200.0);
    let gaussian = vec![UNIT; bins];
    let data = build_audio_data(
        &state, &input, &power, &edges, &low_edges, &shine_edges, &gaussian,
    );
    let frame = state.effect.transpose_animation(data);
    assert!(frame.data.is_none());
    assert!(frame.view.is_some());
}

#[test]
fn color_spectrum_emits_dmx_only() {
    let mut state = fresh_stream("Color Spectrum (Data Only)");
    assert!(!state.is_color_selection_used());
    let input = tick_overlap(&mut state, &vec![0i64; 256]).unwrap();
    let power = power_spectrum(&vec![0i64; 257]);
    let bins = state.effect.amount_melbank_bins(state.settings.n_bins);
    assert_eq!(bins, 30);
    let edges = edges_hz(bins, 20.0, 12000.0);
    let low_edges = edges_hz(bins, 0.0, 200.0);
    let shine_edges = edges_hz(60, 0.0, 200.0);
    let gaussian = vec![UNIT; bins];
    let data = build_audio_data(
        &state, &input, &power, &edges, &low_edges, &shine_edges, &gaussian,
    );
    let frame = state.effect.transpose_animation(data);
    assert!(frame.view.is_none());
    let dmx = frame.data.unwrap();
    // 30 bins split into thirds of 10, tripled and mirrored to 60 LEDs
    assert_eq!(dmx.len(), 18 * 10 + 1);
    assert_eq!(dmx[0], 0);
}

#[test]
fn unknown_effect_name_is_rejected() {
    let err = match effect_from_name("Strobe") {
        Ok(_) => panic!("an unknown name must be rejected"),
        Err(e) => e,
    };
    assert_eq!(err, ControllerError::NoValidEffectName);
    assert!(effect_from_name("Melbank").is_ok());
    assert!(effect_from_name("Bass").is_ok());
    assert!(effect_from_name("Energy").is_ok());
    assert!(effect_from_name("Shine").is_ok());
}

#[test]
fn settings_updates_take_effect() {
    let mut state = fresh_stream("Melbank");
    let s = Settings { n_bins: 30, min_frequency: 100, max_frequency: 5000 };
    state.update_settings(s);
    assert_eq!(state.settings, s);
    state.update_color([1, 2, 3]);
    assert_eq!(state.color, [1, 2, 3]);
    assert!(state.is_color_selection_used());
}
