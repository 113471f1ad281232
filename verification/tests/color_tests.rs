//! The color fader: transitions, their per-channel steps and the effect
//! registry's names.

use audio_visualizer::color::Color;
use audio_visualizer::effects::effect_names;

#[test]
fn color_starts_without_transition() {
    let mut c = Color::new([10, 20, 30]);
    assert_eq!(c.rgb(), [10, 20, 30]);
    assert_eq!(c.rgb(), [10, 20, 30]);
}

#[test]
fn white_is_all_255() {
    let mut c = Color::white();
    assert_eq!(c.rgb(), [255, 255, 255]);
}

#[test]
fn change_color_steps_differ_per_channel() {
    // the red step divides the distance by the transition time; green and
    // blue divide only the current channel before subtracting
    let mut c = Color::new([10, 10, 10]);
    c.change_transition_time(20);
    c.change_color([210, 210, 210]);
    // red: (210 - 10) / 20 = 10; green/blue: 210 - 10 / 20 = 210
    let after = c.rgb();
    assert_eq!(after[0], 20);
    assert_eq!(after[1], 220);
    assert_eq!(after[2], 220);
}

#[test]
fn change_color_saturates_channels() {
    let mut c = Color::new([200, 200, 200]);
    c.change_transition_time(20);
    c.change_color([255, 255, 255]);
    // green adds 255 - 200 / 20 = 245 and saturates at 255
    let after = c.rgb();
    assert_eq!(after[0], 202); // red adds (255 - 200) / 20 = 2
    assert_eq!(after[1], 255);
    assert_eq!(after[2], 255);
}

#[test]
fn transition_runs_out_after_its_steps() {
    let mut c = Color::new([0, 0, 0]);
    c.change_transition_time(2);
    c.change_color([20, 0, 0]);
    assert_eq!(c.rgb(), [10, 0, 0]);
    assert_eq!(c.rgb(), [20, 0, 0]);
    // the step counter is spent: the next call clears the transition
    assert_eq!(c.rgb(), [20, 0, 0]);
    assert_eq!(c.rgb(), [20, 0, 0]);
}

#[test]
fn transition_time_applies_to_next_change() {
    let mut c = Color::new([0, 0, 0]);
    c.change_color([100, 0, 0]);
    // with the default 20 steps the red step is 5
    assert_eq!(c.rgb(), [5, 0, 0]);
    c.change_transition_time(5);
    c.change_color([100, 0, 0]);
    // now the distance from 5 splits into 5 steps of 19
    assert_eq!(c.rgb(), [24, 0, 0]);
}

#[test]
fn registry_names_are_stable() {
    let names = effect_names();
    assert_eq!(
        names,
        vec![
            "Melbank",
            "Spectrum",
            "Shine",
            "Energy",
            "Bass",
            "Color Spectrum (Data Only)",
            "FFT (View Only)",
        ],
    );
}
