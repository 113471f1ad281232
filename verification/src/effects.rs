//! The audio effects: each turns the per-tick DSP artifacts into an
//! intensity vector, and optionally into a frame of its own shape.
//!
//! All effects share the same primitives: the gain normalizer, the
//! vector smoothing filter, the peak detector, mirroring, and the
//! transpose step.  The caller supplies, besides the mel projection of
//! the power spectrum, the low-band projections and the Gaussian bell
//! that the energy-style effects scale, all of which this module's
//! contracts pin down pointwise.

use vstd::prelude::*;

use crate::channel::{Frame, ViewFrame};
use crate::color::Color;
use crate::detection::{detector_edge, detector_on_peak_next, detector_output, PeakDetector};
use crate::fixed::{div_floor, fdiv, imin, isqrt, sqrt_nat, LEN_MAX, POW_MAX, RAW_MAX, SIG_MAX,
    UNIT};
use crate::math::{copy_vec, seq_max, seq_sum, seq_sum_sq};
use crate::smoothing::{
    apply_gain_filter, apply_smoothing_filter, filter_step, gain_divisor, lemma_gain_bound,
    ExponentialFilter, ExponentialVecFilter, GAIN_ALPHA_RISE,
};
use crate::stream::Settings;
use crate::FPS;

verus! {

/// Rise factor of the energy effect's gain filter (`0.9`).
pub const ENERGY_GAIN_RISE: i64 = 58982;

/// Decay factor of the energy effect's gain filter (`0.001`).
pub const ENERGY_GAIN_DECAY: i64 = 66;

/// Rise factor of the energy effect's output smoothing (`0.4`).
pub const ENERGY_SMOOTH_RISE: i64 = 26214;

/// Decay factor of the energy effect's output smoothing (`0.1`).
pub const ENERGY_SMOOTH_DECAY: i64 = 6554;

/// Baseline decay of the bass effect's peak detector (`0.1`).
pub const BASS_ACCURACY: i64 = 6554;

/// Sensitivity of the bass effect's peak detector (`1.5`).
pub const BASS_SENSITIVITY: i64 = 98304;

/// Gain decay of the bass effect's peak detector (`0.001`).
pub const BASS_GAIN_DECAY: i64 = 66;

/// Output smoothing of the bass effect's peak detector (`0.6`, `0.05`).
pub const BASS_SMOOTH_RISE: i64 = 39322;

/// Decay part of the bass effect's output smoothing.
pub const BASS_SMOOTH_DECAY: i64 = 3277;

/// The per-tick artifacts an effect renders from.  The mel projections
/// and the Gaussian bell are produced by the pipeline; their lengths and
/// ranges are tied together by `wf`.
pub struct AudioData {
    /// Mel projection of the power spectrum at the effect's bin count.
    pub melbank: Vec<i64>,
    /// Mel projection of the low band (up to 200 Hz) at the same count.
    pub low_melbank: Vec<i64>,
    /// Mel projection of the low band at the shine resolution (60 bins).
    pub shine_melbank: Vec<i64>,
    /// The squared FFT magnitudes.
    pub power_spectrum: Vec<i64>,
    /// The overlapped raw PCM of this tick (twice the callback length).
    pub raw_data: Vec<i64>,
    /// A Gaussian bell of the melbank's length, supplied by the caller.
    pub gaussian: Vec<i64>,
    /// The settings of this tick.
    pub settings: Settings,
    /// The sample rate of the stream, in Hz.
    pub sample_rate: u32,
    /// The color to paint with.
    pub color: [u8; 3],
}

impl AudioData {
    /// The artifact lengths agree and every entry is in its range.
    pub open spec fn wf(&self) -> bool {
        &&& self.melbank@.len() <= 4096
        &&& forall|i: int|
            0 <= i < self.melbank@.len() ==> 0 <= #[trigger] self.melbank@[i] <= SIG_MAX
        &&& self.low_melbank@.len() == self.melbank@.len()
        &&& forall|i: int|
            0 <= i < self.low_melbank@.len() ==> 0 <= #[trigger] self.low_melbank@[i] <= SIG_MAX
        &&& self.shine_melbank@.len() <= LEN_MAX
        &&& forall|i: int|
            0 <= i < self.shine_melbank@.len() ==> 0 <= #[trigger] self.shine_melbank@[i]
                <= SIG_MAX
        &&& self.power_spectrum@.len() <= LEN_MAX
        &&& forall|i: int|
            0 <= i < self.power_spectrum@.len() ==> 0 <= #[trigger] self.power_spectrum@[i]
                <= POW_MAX
        &&& 1 <= self.raw_data@.len() <= LEN_MAX
        &&& forall|i: int|
            0 <= i < self.raw_data@.len() ==> -RAW_MAX <= #[trigger] self.raw_data@[i] <= RAW_MAX
        &&& self.gaussian@.len() == self.melbank@.len()
        &&& forall|i: int|
            0 <= i < self.gaussian@.len() ==> 0 <= #[trigger] self.gaussian@[i] <= UNIT
        &&& self.settings.wf()
    }
}

/// The mirrored view of a normalized and smoothed vector: the first
/// half reflects the processed entries in reverse, the second half
/// repeats them in order.
pub open spec fn mirror_val(
    gf: ExponentialFilter,
    sf: ExponentialVecFilter,
    mel: Seq<i64>,
    i: int,
) -> int {
    if i < mel.len() {
        gain_smooth_spec(gf, sf, mel, mel.len() - 1 - i)
    } else {
        gain_smooth_spec(gf, sf, mel, i - mel.len())
    }
}

/// The value at lane `i` after the gain normalizer and then the
/// smoothing filter: the entry divided by the normalizer's divisor over
/// the vector's maximum, then smoothed against lane `i` of the smoothing
/// filter (entries beyond the filter's lanes pass through).
pub open spec fn gain_smooth_spec(
    gf: ExponentialFilter,
    sf: ExponentialVecFilter,
    xs: Seq<i64>,
    i: int,
) -> int {
    let y = fdiv(
        xs[i] * UNIT,
        gain_divisor(gf.last as int, seq_max(xs), gf.alpha_rise as int, gf.alpha_decay as int),
    );
    if i < sf.last@.len() {
        filter_step(sf.last@[i] as int, y, sf.alpha_rise as int, sf.alpha_decay as int)
    } else {
        y
    }
}

/// A zero entry of a zero vector normalizes and smooths to zero: on a
/// silent tick every renderer built from the gain normalizer and the
/// smoothing filter (in its starting state) emits darkness.
pub proof fn lemma_zero_entry_renders_zero(
    gf: ExponentialFilter,
    sf: ExponentialVecFilter,
    xs: Seq<i64>,
    i: int,
)
    requires
        0 <= i < xs.len(),
        xs[i] == 0i64,
        i < sf.last@.len() ==> sf.last@[i] == 0i64,
    ensures
        gain_smooth_spec(gf, sf, xs, i) == 0,
{
    let d = gain_divisor(gf.last as int, seq_max(xs), gf.alpha_rise as int, gf.alpha_decay as int);
    assert(0 * UNIT == 0) by (nonlinear_arith);
    assert(fdiv(0, d) == 0);
    if i < sf.last@.len() {
        assert(filter_step(0, 0, sf.alpha_rise as int, sf.alpha_decay as int) == 0) by {
            assert(sf.alpha_decay as int * 0 + (UNIT - sf.alpha_decay as int) * 0 == 0)
                by (nonlinear_arith);
            assert(fdiv(0, UNIT as int) == 0);
        }
    }
}

/// A gain filter state fit for normalizing: well-formed, non-negative,
/// rising at least as fast as `0.9`.
pub open spec fn gain_state_wf(gf: ExponentialFilter) -> bool {
    &&& gf.wf()
    &&& gf.last >= 0
    &&& gf.alpha_rise >= 58982
}

/// A smoothing filter state whose lanes all lie in `[0, 3]`.
pub open spec fn smooth_state_wf(sf: ExponentialVecFilter) -> bool {
    &&& sf.wf()
    &&& forall|i: int| 0 <= i < sf.last@.len() ==> 0 <= #[trigger] sf.last@[i] <= 3 * UNIT
}

/// Normalize and smooth a buffer in place: afterwards entry `i` equals
/// `gain_smooth_spec` of the original buffer, and lies in `[0, 3]`.
fn gain_then_smooth(
    buffer: &mut Vec<i64>,
    gf: &mut ExponentialFilter,
    sf: &mut ExponentialVecFilter,
)
    requires
        gain_state_wf(*old(gf)),
        smooth_state_wf(*old(sf)),
        forall|i: int| 0 <= i < old(buffer)@.len() ==> 0 <= #[trigger] old(buffer)@[i] <= SIG_MAX,
    ensures
        gain_state_wf(*final(gf)),
        smooth_state_wf(*final(sf)),
        final(gf).alpha_rise == old(gf).alpha_rise,
        final(gf).alpha_decay == old(gf).alpha_decay,
        final(sf).alpha_rise == old(sf).alpha_rise,
        final(sf).alpha_decay == old(sf).alpha_decay,
        final(sf).last@.len() == old(sf).last@.len(),
        final(buffer)@.len() == old(buffer)@.len(),
        forall|i: int|
            0 <= i < old(buffer)@.len() ==> #[trigger] final(buffer)@[i] as int == gain_smooth_spec(
                *old(gf),
                *old(sf),
                old(buffer)@,
                i,
            ) && 0 <= final(buffer)@[i] <= 3 * UNIT,
        old(buffer)@.len() > 0 ==> final(gf).last as int == filter_step(
            old(gf).last as int,
            seq_max(old(buffer)@),
            old(gf).alpha_rise as int,
            old(gf).alpha_decay as int,
        ),
        old(buffer)@.len() == 0 ==> *final(gf) == *old(gf),
        forall|i: int|
            0 <= i < imin(old(sf).last@.len() as int, old(buffer)@.len() as int) ==> final(sf).last@[i] == final(buffer)@[i],
        forall|i: int|
            imin(old(sf).last@.len() as int, old(buffer)@.len() as int) <= i < old(sf).last@.len() ==> final(sf).last@[i] == old(sf).last@[i],
{
    apply_gain_filter(buffer, gf);
    proof {
        if old(buffer)@.len() > 0 {
            crate::math::lemma_seq_max_is_bound(old(buffer)@);
            crate::smoothing::lemma_filter_step_bounds(
                old(gf).last as int,
                seq_max(old(buffer)@),
                old(gf).alpha_rise as int,
                old(gf).alpha_decay as int,
            );
        }
    }
    apply_smoothing_filter(buffer, sf);
    proof {
        assert forall|i: int| 0 <= i < sf.last@.len() implies 0 <= #[trigger] sf.last@[i] <= 3
            * UNIT by {
            if i < imin(old(sf).last@.len() as int, old(buffer)@.len() as int) {
                assert(sf.last@[i] == buffer@[i]);
            } else {
                assert(sf.last@[i] == old(sf).last@[i]);
            }
        }
    }
}

/// Renders the mel projection itself: normalized and smoothed.
pub struct MelbankEffect {
    /// The gain normalizer's filter.
    pub gain_filter: ExponentialFilter,
    /// The per-lane smoothing filter.
    pub smooth_filter: ExponentialVecFilter,
}

impl MelbankEffect {
    /// The filter states are in the normalizer's and smoother's ranges.
    pub open spec fn wf(&self) -> bool {
        gain_state_wf(self.gain_filter) && smooth_state_wf(self.smooth_filter)
    }

    /// A fresh melbank effect with the preset filters.
    pub fn new() -> (e: Self)
        ensures
            e.wf(),
            e.gain_filter.alpha_rise == GAIN_ALPHA_RISE,
    {
        MelbankEffect {
            gain_filter: ExponentialFilter::gain_settings(),
            smooth_filter: ExponentialVecFilter::smoothing_settings(FPS),
        }
    }

    /// The normalized and smoothed mel projection.
    pub fn visualize(&mut self, data: &AudioData) -> (out: Vec<i64>)
        requires
            old(self).wf(),
            data.wf(),
        ensures
            final(self).wf(),
            out@.len() == data.melbank@.len(),
            forall|i: int|
                0 <= i < out@.len() ==> #[trigger] out@[i] as int == gain_smooth_spec(
                    old(self).gain_filter,
                    old(self).smooth_filter,
                    data.melbank@,
                    i,
                ) && 0 <= out@[i] <= 3 * UNIT,
    {
        let mut buffer = copy_vec(&data.melbank);
        gain_then_smooth(&mut buffer, &mut self.gain_filter, &mut self.smooth_filter);
        buffer
    }
}

/// Renders the mel projection mirrored around its start: the reversed
/// half followed by the original half.
pub struct SpectrumEffect {
    /// The gain normalizer's filter.
    pub gain_filter: ExponentialFilter,
    /// The per-lane smoothing filter.
    pub smooth_filter: ExponentialVecFilter,
}

impl SpectrumEffect {
    /// The filter states are in the normalizer's and smoother's ranges.
    pub open spec fn wf(&self) -> bool {
        gain_state_wf(self.gain_filter) && smooth_state_wf(self.smooth_filter)
    }

    /// A fresh spectrum effect with the preset filters.
    pub fn new() -> (e: Self)
        ensures
            e.wf(),
    {
        SpectrumEffect {
            gain_filter: ExponentialFilter::gain_settings(),
            smooth_filter: ExponentialVecFilter::smoothing_settings(FPS),
        }
    }

    /// The normalized and smoothed mel projection, mirrored: entry `i`
    /// of the first half reflects entry `len - 1 - i` of the processed
    /// projection, the second half repeats it in order.
    pub fn visualize(&mut self, data: &AudioData) -> (out: Vec<i64>)
        requires
            old(self).wf(),
            data.wf(),
        ensures
            final(self).wf(),
            out@.len() == 2 * data.melbank@.len(),
            forall|i: int|
                0 <= i < data.melbank@.len() ==> #[trigger] out@[i] as int == gain_smooth_spec(
                    old(self).gain_filter,
                    old(self).smooth_filter,
                    data.melbank@,
                    data.melbank@.len() - 1 - i,
                ) && 0 <= out@[i] <= 3 * UNIT,
            forall|i: int|
                data.melbank@.len() <= i < 2 * data.melbank@.len() ==> #[trigger] out@[i] as int
                    == gain_smooth_spec(
                    old(self).gain_filter,
                    old(self).smooth_filter,
                    data.melbank@,
                    i - data.melbank@.len(),
                ) && 0 <= out@[i] <= 3 * UNIT,
    {
        let mut buffer = copy_vec(&data.melbank);
        gain_then_smooth(&mut buffer, &mut self.gain_filter, &mut self.smooth_filter);
        let mut out = crate::math::clone_flip(&buffer);
        let n = buffer.len();
        let mut i: usize = 0;
        while i < n
            invariant
                i <= n,
                n == buffer@.len(),
                out@.len() == n + i,
                forall|k: int| 0 <= k < n ==> out@[k] == buffer@[n - 1 - k],
                forall|k: int| n <= k < n + i ==> #[trigger] out@[k] == buffer@[k - n],
            decreases n - i,
        {
            out.push(buffer[i]);
            i = i + 1;
        }
        out
    }
}

/// Renders the power spectrum itself, normalized; preview only.
pub struct FftEffect {
    /// The gain normalizer's filter.
    pub gain_filter: ExponentialFilter,
}

impl FftEffect {
    /// The filter state is in the normalizer's range.
    pub open spec fn wf(&self) -> bool {
        gain_state_wf(self.gain_filter)
    }

    /// A fresh view-only effect with the preset gain filter.
    pub fn new() -> (e: Self)
        ensures
            e.wf(),
    {
        FftEffect { gain_filter: ExponentialFilter::gain_settings() }
    }

    /// The normalized power spectrum.
    pub fn visualize(&mut self, data: &AudioData) -> (out: Vec<i64>)
        requires
            old(self).wf(),
            data.wf(),
        ensures
            final(self).wf(),
            out@.len() == data.power_spectrum@.len(),
            forall|i: int|
                0 <= i < out@.len() ==> #[trigger] out@[i] as int == fdiv(
                    data.power_spectrum@[i] * UNIT,
                    gain_divisor(
                        old(self).gain_filter.last as int,
                        seq_max(data.power_spectrum@),
                        old(self).gain_filter.alpha_rise as int,
                        old(self).gain_filter.alpha_decay as int,
                    ),
                ) && 0 <= out@[i] <= 3 * UNIT,
    {
        let mut buffer = copy_vec(&data.power_spectrum);
        proof {
            assert(forall|i: int|
                0 <= i < data.power_spectrum@.len() ==> 0 <= #[trigger] data.power_spectrum@[i]
                    <= SIG_MAX);
        }
        apply_gain_filter(&mut buffer, &mut self.gain_filter);
        proof {
            if data.power_spectrum@.len() > 0 {
                crate::math::lemma_seq_max_is_bound(data.power_spectrum@);
                crate::smoothing::lemma_filter_step_bounds(
                    old(self).gain_filter.last as int,
                    seq_max(data.power_spectrum@),
                    old(self).gain_filter.alpha_rise as int,
                    old(self).gain_filter.alpha_decay as int,
                );
            }
        }
        buffer
    }
}


/// The integer RMS of the raw PCM: the square root of the mean square.
pub open spec fn energy_rms(raw: Seq<i64>) -> int {
    sqrt_nat(fdiv(seq_sum_sq(raw), raw.len() as int) as nat) as int
}

/// The smoothed, gain-normalized RMS level the energy effect scales by.
pub open spec fn energy_level(gf: ExponentialFilter, sm: ExponentialFilter, raw: Seq<i64>) -> int {
    let r = energy_rms(raw);
    let y = fdiv(
        r * UNIT,
        gain_divisor(gf.last as int, r, gf.alpha_rise as int, gf.alpha_decay as int),
    );
    filter_step(sm.last as int, y, sm.alpha_rise as int, sm.alpha_decay as int)
}

/// Scale a Gaussian bell by a level in `[0, 3]`: entry `i` becomes the
/// bell value times the level, scaled back to an amplitude.
fn scale_gaussian(gaussian: &Vec<i64>, level: i64) -> (out: Vec<i64>)
    requires
        0 <= level <= 3 * UNIT,
        forall|i: int| 0 <= i < gaussian@.len() ==> 0 <= #[trigger] gaussian@[i] <= UNIT,
    ensures
        out@.len() == gaussian@.len(),
        forall|i: int|
            0 <= i < out@.len() ==> #[trigger] out@[i] as int == fdiv(
                gaussian@[i] * level,
                UNIT as int,
            ) && 0 <= out@[i] <= 3 * UNIT,
{
    let n = gaussian.len();
    let mut out: Vec<i64> = Vec::new();
    let mut i: usize = 0;
    while i < n
        invariant
            i <= n,
            n == gaussian@.len(),
            0 <= level <= 3 * UNIT,
            forall|k: int| 0 <= k < n ==> 0 <= #[trigger] gaussian@[k] <= UNIT,
            out@.len() == i,
            forall|k: int|
                0 <= k < i ==> #[trigger] out@[k] as int == fdiv(gaussian@[k] * level, UNIT as int)
                    && 0 <= out@[k] <= 3 * UNIT,
        decreases n - i,
    {
        proof {
            assert(0 <= gaussian@[i as int] * level <= UNIT * (3 * UNIT)) by (nonlinear_arith)
                requires
                    0 <= gaussian@[i as int] <= UNIT,
                    0 <= level <= 3 * UNIT,
            ;
            vstd::arithmetic::div_mod::lemma_div_is_ordered(
                gaussian@[i as int] * level,
                UNIT as int * (3 * UNIT),
                UNIT as int,
            );
            vstd::arithmetic::div_mod::lemma_div_multiples_vanish(3 * UNIT as int, UNIT as int);
        }
        let v = div_floor((gaussian[i] as i128) * (level as i128), UNIT as i128) as i64;
        out.push(v);
        i = i + 1;
    }
    out
}

/// Renders a Gaussian bell scaled by the smoothed RMS of the raw PCM.
pub struct EnergyEffect {
    /// Normalizes the RMS against its running gain.
    pub gain_filter: ExponentialFilter,
    /// Smooths the normalized RMS over time.
    pub smoothing_filter: ExponentialFilter,
}

impl EnergyEffect {
    /// The gain filter is fit for normalizing and the smoother's state
    /// stays in `[0, 3]`.
    pub open spec fn wf(&self) -> bool {
        &&& gain_state_wf(self.gain_filter)
        &&& self.smoothing_filter.wf()
        &&& 0 <= self.smoothing_filter.last <= 3 * UNIT
    }

    /// A fresh energy effect with the preset filters.
    pub fn new() -> (e: Self)
        ensures
            e.wf(),
    {
        EnergyEffect {
            gain_filter: ExponentialFilter::new(
                crate::smoothing::FILTER_INIT,
                ENERGY_GAIN_RISE,
                ENERGY_GAIN_DECAY,
            ),
            smoothing_filter: ExponentialFilter::new(
                crate::smoothing::FILTER_INIT,
                ENERGY_SMOOTH_RISE,
                ENERGY_SMOOTH_DECAY,
            ),
        }
    }

    /// The RMS of the raw PCM, normalized by the gain filter and
    /// smoothed: the scalar level of this tick, in `[0, 3]`.
    fn smoothed_rms(&mut self, data: &AudioData) -> (r: i64)
        requires
            old(self).wf(),
            data.wf(),
        ensures
            final(self).wf(),
            r as int == energy_level(
                old(self).gain_filter,
                old(self).smoothing_filter,
                data.raw_data@,
            ),
            0 <= r <= 3 * UNIT,
    {
        let n = data.raw_data.len();
        let mut acc: i128 = 0;
        let mut j: usize = 0;
        while j < n
            invariant
                j <= n,
                n == data.raw_data@.len(),
                n <= LEN_MAX,
                forall|k: int|
                    0 <= k < n ==> -RAW_MAX <= #[trigger] data.raw_data@[k] <= RAW_MAX,
                acc == seq_sum_sq(data.raw_data@.take(j as int)),
                0 <= acc <= j * 0x1_0000_0000_0000_0000,
            decreases n - j,
        {
            proof {
                assert(data.raw_data@.take(j + 1).drop_last() =~= data.raw_data@.take(j as int));
                assert(data.raw_data@.take(j + 1).last() == data.raw_data@[j as int]);
                assert(0 <= (data.raw_data@[j as int] as int) * (data.raw_data@[j as int] as int)
                    <= 0x1_0000_0000_0000_0000) by (nonlinear_arith)
                    requires
                        -RAW_MAX <= data.raw_data@[j as int] <= RAW_MAX,
                ;
            }
            let x = data.raw_data[j] as i128;
            acc = acc + x * x;
            j = j + 1;
        }
        proof {
            assert(data.raw_data@.take(n as int) =~= data.raw_data@);
        }
        let mean = div_floor(acc, n as i128);
        proof {
            crate::fixed::lemma_sqrt_nat_bounds(mean as nat);
            let s = sqrt_nat(mean as nat) as int;
            assert(s <= 0x1_0000_0000_0000) by (nonlinear_arith)
                requires
                    0 <= s,
                    s * s <= mean as int,
                    mean <= 0x4000_0000_0000_0000_0000_0000,
            ;
        }
        let rms = isqrt(mean as u128) as i64;
        let g = self.gain_filter.update(rms);
        let d = if g < 1 {
            1
        } else {
            g
        };
        proof {
            lemma_gain_bound(
                rms as int,
                rms as int,
                old(self).gain_filter.last as int,
                old(self).gain_filter.alpha_rise as int,
                old(self).gain_filter.alpha_decay as int,
            );
            assert(0 <= (rms as int) * (UNIT as int)) by (nonlinear_arith)
                requires
                    rms >= 0,
            ;
        }
        let y = div_floor((rms as i128) * (UNIT as i128), d as i128) as i64;
        self.smoothing_filter.update(y)
    }

    /// A Gaussian bell of the melbank's length, scaled by the smoothed
    /// RMS level of this tick's raw PCM.
    pub fn visualize(&mut self, data: &AudioData) -> (out: Vec<i64>)
        requires
            old(self).wf(),
            data.wf(),
        ensures
            final(self).wf(),
            out@.len() == data.melbank@.len(),
            forall|i: int|
                0 <= i < out@.len() ==> #[trigger] out@[i] as int == fdiv(
                    data.gaussian@[i] * energy_level(
                        old(self).gain_filter,
                        old(self).smoothing_filter,
                        data.raw_data@,
                    ),
                    UNIT as int,
                ) && 0 <= out@[i] <= 3 * UNIT,
    {
        let level = self.smoothed_rms(data);
        scale_gaussian(&data.gaussian, level)
    }
}

/// Renders a Gaussian bell scaled by the peak level of the low band.
pub struct BassEffect {
    /// Detects transients in the low-band mel projection.
    pub peak_detector: PeakDetector,
}

impl BassEffect {
    /// The detector's state is well-formed.
    pub open spec fn wf(&self) -> bool {
        self.peak_detector.wf()
    }

    /// A fresh bass effect with the preset detector.
    pub fn new() -> (e: Self)
        ensures
            e.wf(),
    {
        BassEffect {
            peak_detector: PeakDetector::new(
                BASS_ACCURACY,
                BASS_SENSITIVITY,
                BASS_GAIN_DECAY,
                (BASS_SMOOTH_RISE, BASS_SMOOTH_DECAY),
            ),
        }
    }

    /// A Gaussian bell of the melbank's length, scaled by the detector's
    /// peak level over the low-band mel projection.
    pub fn visualize(&mut self, data: &AudioData) -> (out: Vec<i64>)
        requires
            old(self).wf(),
            data.wf(),
        ensures
            final(self).wf(),
            out@.len() == data.melbank@.len(),
            forall|i: int|
                0 <= i < out@.len() ==> #[trigger] out@[i] as int == fdiv(
                    data.gaussian@[i] * detector_output(
                        old(self).peak_detector,
                        seq_sum(data.low_melbank@),
                    ),
                    UNIT as int,
                ) && 0 <= out@[i] <= 3 * UNIT,
            final(self).peak_detector.on_peak == detector_on_peak_next(
                old(self).peak_detector,
                seq_sum(data.low_melbank@),
            ),
    {
        let r = self.peak_detector.update(&data.low_melbank);
        let output = r.0;
        scale_gaussian(&data.gaussian, output)
    }
}

/// Composes a mirrored spectrum with a whole-strip shine that flashes on
/// low-band peaks and fades its own color.
pub struct ShineEffect {
    /// The gain normalizer's filter of the spectrum half.
    pub gain_filter: ExponentialFilter,
    /// The per-lane smoothing filter of the spectrum half.
    pub smooth_filter: ExponentialVecFilter,
    /// Detects low-band peaks for the shine half.
    pub peak_detector: PeakDetector,
    /// The effect's own color fader.
    pub color: Color,
}

/// Baseline decay of the shine effect's peak detector (`0.1`).
pub const SHINE_ACCURACY: i64 = 6554;

/// Sensitivity of the shine effect's peak detector (`1.5`).
pub const SHINE_SENSITIVITY: i64 = 98304;

/// Gain decay of the shine effect's peak detector (`0.0001`).
pub const SHINE_GAIN_DECAY: i64 = 7;

/// Output smoothing of the shine effect's peak detector (`0.8`, `0.1`).
pub const SHINE_SMOOTH_RISE: i64 = 52429;

/// Decay part of the shine effect's output smoothing.
pub const SHINE_SMOOTH_DECAY: i64 = 6554;

/// Frames of the shine effect's fade back to the user color.
pub const SHINE_TRANSITION_TIME: u8 = 3;

impl ShineEffect {
    /// All sub-states are well-formed.
    pub open spec fn wf(&self) -> bool {
        &&& gain_state_wf(self.gain_filter)
        &&& smooth_state_wf(self.smooth_filter)
        &&& self.peak_detector.wf()
        &&& self.color.wf()
    }

    /// A fresh shine effect: preset filters, preset detector, white
    /// fader.
    pub fn new() -> (e: Self)
        ensures
            e.wf(),
            !e.peak_detector.on_peak,
    {
        ShineEffect {
            gain_filter: ExponentialFilter::gain_settings(),
            smooth_filter: ExponentialVecFilter::smoothing_settings(FPS),
            peak_detector: PeakDetector::new(
                SHINE_ACCURACY,
                SHINE_SENSITIVITY,
                SHINE_GAIN_DECAY,
                (SHINE_SMOOTH_RISE, SHINE_SMOOTH_DECAY),
            ),
            color: Color::new([255, 255, 255]),
        }
    }

    /// One intensity of the composed shine frame: the mirrored spectrum
    /// value, overridden by the whole-strip peak level wherever the
    /// level is stronger (within the first `n_bins` entries).
    pub open spec fn shine_out_val(
        e: ShineEffect,
        mel: Seq<i64>,
        shine_mel: Seq<i64>,
        n_bins: int,
        i: int,
    ) -> int {
        let m = mirror_val(e.gain_filter, e.smooth_filter, mel, i);
        let p = detector_output(e.peak_detector, seq_sum(shine_mel));
        if i < n_bins && p > m {
            p
        } else {
            m
        }
    }

    /// The mirrored, normalized and smoothed mel projection.
    fn build_spectrum_animation(&mut self, melbank: &Vec<i64>) -> (out: Vec<i64>)
        requires
            old(self).wf(),
            forall|i: int| 0 <= i < melbank@.len() ==> 0 <= #[trigger] melbank@[i] <= SIG_MAX,
        ensures
            final(self).wf(),
            final(self).peak_detector == old(self).peak_detector,
            final(self).color == old(self).color,
            out@.len() == 2 * melbank@.len(),
            forall|i: int|
                0 <= i < out@.len() ==> #[trigger] out@[i] as int == mirror_val(
                    old(self).gain_filter,
                    old(self).smooth_filter,
                    melbank@,
                    i,
                ) && 0 <= out@[i] <= 3 * UNIT,
    {
        let mut buffer = copy_vec(melbank);
        gain_then_smooth(&mut buffer, &mut self.gain_filter, &mut self.smooth_filter);
        let mut out = crate::math::clone_flip(&buffer);
        let n = buffer.len();
        let mut i: usize = 0;
        while i < n
            invariant
                i <= n,
                n == buffer@.len(),
                out@.len() == n + i,
                forall|k: int| 0 <= k < n ==> out@[k] == buffer@[n - 1 - k],
                forall|k: int| n <= k < n + i ==> #[trigger] out@[k] == buffer@[k - n],
            decreases n - i,
        {
            out.push(buffer[i]);
            i = i + 1;
        }
        out
    }

    /// A whole-strip vector at the detector's peak level over the shine
    /// projection; on a peak edge the fader is pointed at white (start,
    /// doubled transition) or back at the frame's color (end).
    fn build_shine_animation(&mut self, data: &AudioData) -> (out: Vec<i64>)
        requires
            old(self).wf(),
            data.wf(),
        ensures
            final(self).wf(),
            final(self).gain_filter == old(self).gain_filter,
            final(self).smooth_filter == old(self).smooth_filter,
            out@.len() == data.settings.n_bins,
            forall|i: int|
                0 <= i < out@.len() ==> #[trigger] out@[i] as int == detector_output(
                    old(self).peak_detector,
                    seq_sum(data.shine_melbank@),
                ) && 0 <= out@[i] <= 3 * UNIT,
            final(self).peak_detector.on_peak == detector_on_peak_next(
                old(self).peak_detector,
                seq_sum(data.shine_melbank@),
            ),
            detector_edge(old(self).peak_detector, seq_sum(data.shine_melbank@)) is None ==> final(self).color == old(self).color,
            detector_edge(old(self).peak_detector, seq_sum(data.shine_melbank@)) == Some(true)
                ==> final(self).color.transition_time == 2 * SHINE_TRANSITION_TIME && final(self).color.transition_step == Some(old(self).color.transition_time) && final(self).color.color == old(self).color.color,
            detector_edge(old(self).peak_detector, seq_sum(data.shine_melbank@)) == Some(false)
                ==> final(self).color.transition_time == SHINE_TRANSITION_TIME && final(self).color.transition_step == Some(old(self).color.transition_time) && final(self).color.color == old(self).color.color,
    {
        let r = self.peak_detector.update(&data.shine_melbank);
        let peak_value = r.0;
        let n = data.settings.n_bins;
        let mut out: Vec<i64> = Vec::new();
        let mut i: usize = 0;
        while i < n
            invariant
                i <= n,
                out@.len() == i,
                forall|k: int| 0 <= k < i ==> out@[k] == peak_value,
            decreases n - i,
        {
            out.push(peak_value);
            i = i + 1;
        }
        match r.1 {
            None => {},
            Some(started) => {
                let target: [u8; 3] = if started {
                    [255, 255, 255]
                } else {
                    data.color
                };
                let time: u8 = if started {
                    2 * SHINE_TRANSITION_TIME
                } else {
                    SHINE_TRANSITION_TIME
                };
                self.color.change_color(target);
                self.color.change_transition_time(time);
            },
        }
        out
    }

    /// The composed frame: the mirrored spectrum, lifted to the peak
    /// level wherever the low band shines through.
    pub fn visualize(&mut self, data: &AudioData) -> (out: Vec<i64>)
        requires
            old(self).wf(),
            data.wf(),
        ensures
            final(self).wf(),
            out@.len() == 2 * data.melbank@.len(),
            forall|i: int|
                0 <= i < out@.len() ==> #[trigger] out@[i] as int == ShineEffect::shine_out_val(
                    *old(self),
                    data.melbank@,
                    data.shine_melbank@,
                    data.settings.n_bins as int,
                    i,
                ) && 0 <= out@[i] <= 3 * UNIT,
            final(self).peak_detector.on_peak == detector_on_peak_next(
                old(self).peak_detector,
                seq_sum(data.shine_melbank@),
            ),
            detector_edge(old(self).peak_detector, seq_sum(data.shine_melbank@)) is None ==> final(self).color == old(self).color,
    {
        let mut main = self.build_spectrum_animation(&data.melbank);
        let shine = self.build_shine_animation(data);
        let n = if main.len() < shine.len() {
            main.len()
        } else {
            shine.len()
        };
        let mut i: usize = 0;
        while i < n
            invariant
                i <= n,
                n == imin(main@.len() as int, shine@.len() as int),
                main@.len() == 2 * data.melbank@.len(),
                shine@.len() == data.settings.n_bins,
                forall|k: int|
                    0 <= k < shine@.len() ==> #[trigger] shine@[k] as int == detector_output(
                        old(self).peak_detector,
                        seq_sum(data.shine_melbank@),
                    ) && 0 <= shine@[k] <= 3 * UNIT,
                forall|k: int|
                    i <= k < main@.len() ==> #[trigger] main@[k] as int == mirror_val(
                        old(self).gain_filter,
                        old(self).smooth_filter,
                        data.melbank@,
                        k,
                    ) && 0 <= main@[k] <= 3 * UNIT,
                forall|k: int|
                    0 <= k < i ==> #[trigger] main@[k] as int == ShineEffect::shine_out_val(
                        *old(self),
                        data.melbank@,
                        data.shine_melbank@,
                        data.settings.n_bins as int,
                        k,
                    ) && 0 <= main@[k] <= 3 * UNIT,
            decreases n - i,
        {
            if shine[i] > main[i] {
                let v = shine[i];
                main.set(i, v);
            }
            i = i + 1;
        }
        proof {
            assert(forall|k: int|
                n <= k < main@.len() ==> #[trigger] main@[k] as int == ShineEffect::shine_out_val(
                    *old(self),
                    data.melbank@,
                    data.shine_melbank@,
                    data.settings.n_bins as int,
                    k,
                ));
        }
        main
    }
}

/// The larger of two bytes.
pub open spec fn umax(a: u8, b: u8) -> u8 {
    if a > b {
        a
    } else {
        b
    }
}

/// The value the color-spectrum effect reads for its `c`-th third at
/// mirrored position `i`: the processed projection's chunk `c`, tripled
/// and reflected around the middle.
pub open spec fn cs_lane(
    gf: ExponentialFilter,
    sf: ExponentialVecFilter,
    mel: Seq<i64>,
    c: int,
    i: int,
) -> int {
    let l = mel.len() as int / 3;
    let j = if i < 3 * l {
        3 * l - 1 - i
    } else {
        i - 3 * l
    };
    gain_smooth_spec(gf, sf, mel, c * l + (j % l))
}

/// One byte of the color-spectrum frame: the three thirds transposed
/// red, green and blue, merged by the byte-wise maximum — on channel
/// `ch` only the matching third contributes its full weight.
pub open spec fn cs_byte(
    gf: ExponentialFilter,
    sf: ExponentialVecFilter,
    mel: Seq<i64>,
    ch: int,
    i: int,
) -> u8 {
    let b0 = crate::math::transpose_byte(cs_lane(gf, sf, mel, 0, i), if ch == 0 { 255int } else { 0int });
    let b1 = crate::math::transpose_byte(cs_lane(gf, sf, mel, 1, i), if ch == 1 { 255int } else { 0int });
    let b2 = crate::math::transpose_byte(cs_lane(gf, sf, mel, 2, i), if ch == 2 { 255int } else { 0int });
    umax(umax(b0, b1), b2)
}

/// Renders three mirrored copies of the low, middle and high thirds of
/// the mel projection, transposed red, green and blue, merged by the
/// byte-wise maximum; DMX only, with no external color.
pub struct ColorSpectrumEffect {
    /// The gain normalizer's filter.
    pub gain_filter: ExponentialFilter,
    /// The per-lane smoothing filter.
    pub smooth_filter: ExponentialVecFilter,
}

impl ColorSpectrumEffect {
    /// The filter states are in the normalizer's and smoother's ranges.
    pub open spec fn wf(&self) -> bool {
        gain_state_wf(self.gain_filter) && smooth_state_wf(self.smooth_filter)
    }

    /// A fresh color-spectrum effect with the preset filters.
    pub fn new() -> (e: Self)
        ensures
            e.wf(),
    {
        ColorSpectrumEffect {
            gain_filter: ExponentialFilter::gain_settings(),
            smooth_filter: ExponentialVecFilter::smoothing_settings(FPS),
        }
    }

    /// The DMX bytes of one color-spectrum frame: each of the three
    /// processed thirds is tripled, mirrored and transposed with its
    /// primary color, and the three buffers merge by byte-wise maximum.
    pub fn animate_color_spectrum(&mut self, data: &AudioData) -> (out: Vec<u8>)
        requires
            old(self).wf(),
            data.wf(),
        ensures
            final(self).wf(),
            out@.len() == 18 * (data.melbank@.len() / 3) + 1,
            out@[0] == 0u8,
            forall|i: int|
                1 <= i < 6 * (data.melbank@.len() / 3) ==> out@[3 * i - 2] == cs_byte(
                    old(self).gain_filter,
                    old(self).smooth_filter,
                    data.melbank@,
                    0,
                    i,
                ) && out@[3 * i - 1] == cs_byte(
                    old(self).gain_filter,
                    old(self).smooth_filter,
                    data.melbank@,
                    1,
                    i,
                ) && out@[3 * i] == cs_byte(
                    old(self).gain_filter,
                    old(self).smooth_filter,
                    data.melbank@,
                    2,
                    i,
                ),
    {
        let mut buffer = copy_vec(&data.melbank);
        gain_then_smooth(&mut buffer, &mut self.gain_filter, &mut self.smooth_filter);
        let chunk_len = buffer.len() / 3;
        let ghost gf0 = old(self).gain_filter;
        let ghost sf0 = old(self).smooth_filter;
        let ghost mel = data.melbank@;

        let low = Self::tripled_mirrored(&buffer, 0, chunk_len);
        let middle = Self::tripled_mirrored(&buffer, 1, chunk_len);
        let high = Self::tripled_mirrored(&buffer, 2, chunk_len);
        proof {
            assert forall|i: int| 0 <= i < 6 * chunk_len implies low@[i] as int == cs_lane(
                gf0,
                sf0,
                mel,
                0,
                i,
            ) && middle@[i] as int == cs_lane(gf0, sf0, mel, 1, i) && high@[i] as int == cs_lane(
                gf0,
                sf0,
                mel,
                2,
                i,
            ) by {
                let l = mel.len() as int / 3;
                let j = if i < 3 * l {
                    3 * l - 1 - i
                } else {
                    i - 3 * l
                };
                assert(0 <= j % l < l);
                assert(low@[i] == buffer@[0 * l + (j % l)]);
                assert(middle@[i] == buffer@[1 * l + (j % l)]);
                assert(high@[i] == buffer@[2 * l + (j % l)]);
                assert(buffer@[0 * l + (j % l)] as int == gain_smooth_spec(gf0, sf0, mel, 0 * l + (j % l)));
                assert(buffer@[1 * l + (j % l)] as int == gain_smooth_spec(gf0, sf0, mel, 1 * l + (j % l)));
                assert(buffer@[2 * l + (j % l)] as int == gain_smooth_spec(gf0, sf0, mel, 2 * l + (j % l)));
            }
        }

        let t_low = crate::math::transpose(&low, [255, 0, 0]);
        let mut t_middle = crate::math::transpose(&middle, [0, 255, 0]);
        let t_high = crate::math::transpose(&high, [0, 0, 255]);
        let ghost mid0 = t_middle@;

        let n = t_middle.len();
        let mut k: usize = 0;
        while k < n
            invariant
                k <= n,
                n == t_middle@.len(),
                mid0.len() == n,
                t_low@.len() == n,
                t_high@.len() == n,
                forall|j: int|
                    0 <= j < k ==> #[trigger] t_middle@[j] == umax(
                        umax(t_low@[j], mid0[j]),
                        t_high@[j],
                    ),
                forall|j: int| k <= j < n ==> t_middle@[j] == mid0[j],
            decreases n - k,
        {
            let a = t_low[k];
            if a > t_middle[k] {
                t_middle.set(k, a);
            }
            let b = t_high[k];
            if b > t_middle[k] {
                t_middle.set(k, b);
            }
            k = k + 1;
        }
        proof {
            let l6 = 6 * (data.melbank@.len() / 3);
            assert forall|i: int|
                1 <= i < l6 implies t_middle@[3 * i - 2] == cs_byte(gf0, sf0, mel, 0, i)
                && t_middle@[3 * i - 1] == cs_byte(gf0, sf0, mel, 1, i) && t_middle@[3 * i]
                == cs_byte(gf0, sf0, mel, 2, i) by {
                assert(t_middle@[3 * i - 2] == umax(umax(t_low@[3 * i - 2], mid0[3 * i - 2]), t_high@[3 * i - 2]));
                assert(t_middle@[3 * i - 1] == umax(umax(t_low@[3 * i - 1], mid0[3 * i - 1]), t_high@[3 * i - 1]));
                assert(t_middle@[3 * i] == umax(umax(t_low@[3 * i], mid0[3 * i]), t_high@[3 * i]));
                assert(low@[i] as int == cs_lane(gf0, sf0, mel, 0, i));
                assert(middle@[i] as int == cs_lane(gf0, sf0, mel, 1, i));
                assert(high@[i] as int == cs_lane(gf0, sf0, mel, 2, i));
                assert(t_low@[3 * i - 2] == crate::math::transpose_byte(low@[i] as int, 255));
                assert(mid0[3 * i - 2] == crate::math::transpose_byte(middle@[i] as int, 0));
                assert(t_high@[3 * i - 2] == crate::math::transpose_byte(high@[i] as int, 0));
                assert(t_low@[3 * i - 1] == crate::math::transpose_byte(low@[i] as int, 0));
                assert(mid0[3 * i - 1] == crate::math::transpose_byte(middle@[i] as int, 255));
                assert(t_high@[3 * i - 1] == crate::math::transpose_byte(high@[i] as int, 0));
                assert(t_low@[3 * i] == crate::math::transpose_byte(low@[i] as int, 0));
                assert(mid0[3 * i] == crate::math::transpose_byte(middle@[i] as int, 0));
                assert(t_high@[3 * i] == crate::math::transpose_byte(high@[i] as int, 255));
            }
        }
        t_middle
    }

    /// Chunk `c` of a processed buffer, tripled and mirrored: the
    /// reflection of three copies of the chunk, followed by the copies.
    fn tripled_mirrored(buffer: &Vec<i64>, c: usize, l: usize) -> (out: Vec<i64>)
        requires
            (c + 1) * l <= buffer@.len(),
            l == buffer@.len() / 3,
            c <= 2,
            buffer@.len() <= LEN_MAX,
            forall|i: int| 0 <= i < buffer@.len() ==> 0 <= #[trigger] buffer@[i] <= 3 * UNIT,
        ensures
            out@.len() == 6 * l,
            forall|i: int|
                0 <= i < 6 * l ==> 0 <= #[trigger] out@[i] <= 3 * UNIT && out@[i] == buffer@[
                    c * l + ((if i < 3 * l { 3 * l - 1 - i } else { i - 3 * l }) % (l as int))
                ],
    {
        let mut t: Vec<i64> = Vec::new();
        let mut j: usize = 0;
        while j < 3 * l
            invariant
                j <= 3 * l,
                (c + 1) * l <= buffer@.len(),
                c <= 2,
                buffer@.len() <= LEN_MAX,
                l == buffer@.len() / 3,
                forall|i: int| 0 <= i < buffer@.len() ==> 0 <= #[trigger] buffer@[i] <= 3 * UNIT,
                t@.len() == j,
                forall|i: int|
                    0 <= i < j ==> #[trigger] t@[i] == buffer@[c * l + (i % (l as int))] && 0
                        <= t@[i] <= 3 * UNIT,
            decreases 3 * l - j,
        {
            proof {
                assert(0 <= c * l && c * l + ((j as int) % (l as int)) < buffer@.len())
                    by (nonlinear_arith)
                    requires
                        (c as int + 1) * (l as int) <= buffer@.len(),
                        0 <= (j as int) % (l as int) < l as int,
                        c <= 2,
                        l >= 1,
                ;
            }
            let v = buffer[c * l + (j % l)];
            t.push(v);
            j = j + 1;
        }
        let mut out = crate::math::clone_flip(&t);
        let n = t.len();
        let mut i: usize = 0;
        while i < n
            invariant
                i <= n,
                n == t@.len(),
                out@.len() == n + i,
                forall|k: int| 0 <= k < n ==> out@[k] == t@[n - 1 - k],
                forall|k: int| n <= k < n + i ==> #[trigger] out@[k] == t@[k - n],
            decreases n - i,
        {
            out.push(t[i]);
            i = i + 1;
        }
        proof {
            assert forall|i: int|
                0 <= i < 6 * l implies 0 <= #[trigger] out@[i] <= 3 * UNIT && out@[i] == buffer@[
                c * l + ((if i < 3 * l {
                    3 * l - 1 - i
                } else {
                    i - 3 * l
                }) % (l as int))
            ] by {
                if i < 3 * l {
                    assert(out@[i] == t@[3 * l - 1 - i]);
                } else {
                    assert(out@[i] == t@[i - 3 * l]);
                }
            }
        }
        out
    }
}

/// The current effect of a stream: one of the registered renderers.
pub enum Effect {
    /// The plain mel projection.
    Melbank(MelbankEffect),
    /// The mirrored mel projection.
    Spectrum(SpectrumEffect),
    /// Mirrored spectrum plus low-band shine with its own color.
    Shine(ShineEffect),
    /// Gaussian bell scaled by the signal's RMS.
    Energy(EnergyEffect),
    /// Gaussian bell scaled by low-band peaks.
    Bass(BassEffect),
    /// Red, green and blue thirds of the spectrum, merged.
    ColorSpectrum(ColorSpectrumEffect),
    /// The normalized power spectrum, preview only.
    Fft(FftEffect),
}

impl Effect {
    /// The state of the wrapped effect is well-formed.
    pub open spec fn wf(&self) -> bool {
        match self {
            Effect::Melbank(e) => e.wf(),
            Effect::Spectrum(e) => e.wf(),
            Effect::Shine(e) => e.wf(),
            Effect::Energy(e) => e.wf(),
            Effect::Bass(e) => e.wf(),
            Effect::ColorSpectrum(e) => e.wf(),
            Effect::Fft(e) => e.wf(),
        }
    }

    /// How many mel bins the pipeline should deliver for a requested
    /// intensity-vector length: half for the mirroring effects.
    pub open spec fn amount_melbank_bins_spec(&self, led_amount: int) -> int {
        match self {
            Effect::Spectrum(_) => led_amount / 2,
            Effect::Shine(_) => led_amount / 2,
            Effect::ColorSpectrum(_) => led_amount / 2,
            _ => led_amount,
        }
    }

    /// How many mel bins the pipeline should deliver.
    pub fn amount_melbank_bins(&self, led_amount: usize) -> (r: usize)
        ensures
            r as int == self.amount_melbank_bins_spec(led_amount as int),
            r <= led_amount,
    {
        match self {
            Effect::Spectrum(_) => led_amount / 2,
            Effect::Shine(_) => led_amount / 2,
            Effect::ColorSpectrum(_) => led_amount / 2,
            _ => led_amount,
        }
    }

    /// Whether the effect paints itself and the color wheel is idle.
    pub open spec fn disable_color_wheel_spec(&self) -> bool {
        self is ColorSpectrum
    }

    /// Whether the color wheel should be disabled for this effect.
    pub fn disable_color_wheel(&self) -> (r: bool)
        ensures
            r == self.disable_color_wheel_spec(),
    {
        match self {
            Effect::ColorSpectrum(_) => true,
            _ => false,
        }
    }

    /// The intensity vector the current effect renders; the
    /// color-spectrum effect renders bytes only and is excluded.
    pub fn visualize(&mut self, data: &AudioData) -> (out: Vec<i64>)
        requires
            old(self).wf(),
            data.wf(),
            !((*old(self)) is ColorSpectrum),
        ensures
            final(self).wf(),
            ((*final(self)) is Melbank) == ((*old(self)) is Melbank),
            ((*final(self)) is Spectrum) == ((*old(self)) is Spectrum),
            ((*final(self)) is Shine) == ((*old(self)) is Shine),
            ((*final(self)) is Energy) == ((*old(self)) is Energy),
            ((*final(self)) is Bass) == ((*old(self)) is Bass),
            ((*final(self)) is ColorSpectrum) == ((*old(self)) is ColorSpectrum),
            ((*final(self)) is Fft) == ((*old(self)) is Fft),
            out@.len() == effect_out_len(*old(self), *data),
            forall|i: int|
                0 <= i < out@.len() ==> #[trigger] out@[i] as int == effect_value(
                    *old(self),
                    *data,
                    i,
                ) && 0 <= out@[i] <= 3 * UNIT,
    {
        match self {
            Effect::Melbank(e) => e.visualize(data),
            Effect::Spectrum(e) => e.visualize(data),
            Effect::Shine(e) => e.visualize(data),
            Effect::Energy(e) => e.visualize(data),
            Effect::Bass(e) => e.visualize(data),
            Effect::ColorSpectrum(_) => {
                proof {
                    assert(false);
                }
                Vec::new()
            },
            Effect::Fft(e) => e.visualize(data),
        }
    }

    /// Render one frame: the default effects transpose their intensity
    /// vector with the frame's color and publish both outputs; the
    /// view-only effect omits the DMX bytes, the color-spectrum effect
    /// omits the preview, and the shine effect paints with its own
    /// fader's color.
    pub fn transpose_animation(&mut self, data: AudioData) -> (f: Frame)
        requires
            old(self).wf(),
            data.wf(),
        ensures
            final(self).wf(),
            (*old(self)) is Melbank || (*old(self)) is Spectrum || (*old(self)) is Energy || (*old(
                self,
            )) is Bass ==> default_frame_matches(*old(self), data, f, data.color),
            (*old(self)) is Shine ==> f.view is Some && default_frame_matches(
                *old(self),
                data,
                f,
                f.view->Some_0.color,
            ) && f.view->Some_0.color == (*final(self))->Shine_0.color.color,
            (*old(self)) is Fft ==> f.data is None && f.view is Some && f.view->Some_0.color
                == data.color && f.view->Some_0.effect@.len() == effect_out_len(*old(self), data)
                && forall|i: int|
                0 <= i < f.view->Some_0.effect@.len() ==> #[trigger] f.view->Some_0.effect@[
                    i
                ] as int == effect_value(*old(self), data, i),
            (*old(self)) is ColorSpectrum ==> f.view is None && f.data is Some && f.data->Some_0@.len()
                == 18 * (data.melbank@.len() / 3) + 1 && f.data->Some_0@[0] == 0u8 && forall|i: int|
                1 <= i < 6 * (data.melbank@.len() / 3) ==> f.data->Some_0@[3 * i - 2] == cs_byte(
                    (*old(self))->ColorSpectrum_0.gain_filter,
                    (*old(self))->ColorSpectrum_0.smooth_filter,
                    data.melbank@,
                    0,
                    i,
                ) && f.data->Some_0@[3 * i - 1] == cs_byte(
                    (*old(self))->ColorSpectrum_0.gain_filter,
                    (*old(self))->ColorSpectrum_0.smooth_filter,
                    data.melbank@,
                    1,
                    i,
                ) && f.data->Some_0@[3 * i] == cs_byte(
                    (*old(self))->ColorSpectrum_0.gain_filter,
                    (*old(self))->ColorSpectrum_0.smooth_filter,
                    data.melbank@,
                    2,
                    i,
                ),
    {
        match self {
            Effect::ColorSpectrum(e) => {
                let animation = e.animate_color_spectrum(&data);
                return Frame { data: Some(animation), view: None };
            },
            _ => {},
        }
        let x = self.visualize(&data);
        match self {
            Effect::Fft(_) => {
                return Frame { data: None, view: Some(ViewFrame { effect: x, color: data.color }) };
            },
            _ => {},
        }
        let color: [u8; 3] = match self {
            Effect::Shine(e) => e.color.rgb(),
            _ => data.color,
        };
        let transposed = crate::math::transpose(&x, color);
        proof {
            assert forall|i: int|
                1 <= i < x@.len() implies transposed@[3 * i - 2] == crate::math::transpose_byte(
                effect_value(*old(self), data, i),
                color[0] as int,
            ) && transposed@[3 * i - 1] == crate::math::transpose_byte(
                effect_value(*old(self), data, i),
                color[1] as int,
            ) && transposed@[3 * i] == crate::math::transpose_byte(
                effect_value(*old(self), data, i),
                color[2] as int,
            ) by {
                assert(x@[i] as int == effect_value(*old(self), data, i));
                assert(transposed@[3 * i - 2] == crate::math::transpose_byte(
                    x@[i] as int,
                    color[0] as int,
                ));
                assert(transposed@[3 * i - 1] == crate::math::transpose_byte(
                    x@[i] as int,
                    color[1] as int,
                ));
                assert(transposed@[3 * i] == crate::math::transpose_byte(
                    x@[i] as int,
                    color[2] as int,
                ));
            }
        }
        Frame { data: Some(transposed), view: Some(ViewFrame { effect: x, color }) }
    }
}

/// The intensity an effect produces at index `i` of its vector, as a
/// function of the effect's state before the tick and the tick's data.
pub open spec fn effect_value(e: Effect, data: AudioData, i: int) -> int {
    match e {
        Effect::Melbank(m) => gain_smooth_spec(m.gain_filter, m.smooth_filter, data.melbank@, i),
        Effect::Spectrum(m) => mirror_val(m.gain_filter, m.smooth_filter, data.melbank@, i),
        Effect::Shine(sh) => ShineEffect::shine_out_val(
            sh,
            data.melbank@,
            data.shine_melbank@,
            data.settings.n_bins as int,
            i,
        ),
        Effect::Energy(en) => fdiv(
            data.gaussian@[i] * energy_level(en.gain_filter, en.smoothing_filter, data.raw_data@),
            UNIT as int,
        ),
        Effect::Bass(b) => fdiv(
            data.gaussian@[i] * detector_output(b.peak_detector, seq_sum(data.low_melbank@)),
            UNIT as int,
        ),
        Effect::ColorSpectrum(_) => 0,
        Effect::Fft(fe) => fdiv(
            data.power_spectrum@[i] * UNIT,
            gain_divisor(
                fe.gain_filter.last as int,
                seq_max(data.power_spectrum@),
                fe.gain_filter.alpha_rise as int,
                fe.gain_filter.alpha_decay as int,
            ),
        ),
    }
}

/// The length of the intensity vector an effect produces.
pub open spec fn effect_out_len(e: Effect, data: AudioData) -> int {
    match e {
        Effect::Melbank(_) => data.melbank@.len() as int,
        Effect::Spectrum(_) => 2 * data.melbank@.len() as int,
        Effect::Shine(_) => 2 * data.melbank@.len() as int,
        Effect::Energy(_) => data.melbank@.len() as int,
        Effect::Bass(_) => data.melbank@.len() as int,
        Effect::ColorSpectrum(_) => 6 * (data.melbank@.len() as int / 3),
        Effect::Fft(_) => data.power_spectrum@.len() as int,
    }
}

/// The frame shape of the effects that publish both outputs: the
/// intensity vector in the preview, its transpose under `color` in the
/// DMX bytes.
pub open spec fn default_frame_matches(e: Effect, data: AudioData, f: Frame, color: [u8; 3]) -> bool {
    &&& f.view matches Some(v) && v.color == color && v.effect@.len() == effect_out_len(e, data)
        && (forall|i: int|
        0 <= i < v.effect@.len() ==> #[trigger] v.effect@[i] as int == effect_value(e, data, i))
    &&& f.data matches Some(d) && d@.len() == 3 * effect_out_len(e, data) + 1 && d@[0] == 0u8 && (
    forall|i: int|
        1 <= i < effect_out_len(e, data) ==> d@[3 * i - 2] == crate::math::transpose_byte(
            effect_value(e, data, i),
            color[0] as int,
        ) && d@[3 * i - 1] == crate::math::transpose_byte(effect_value(e, data, i), color[1] as int)
            && d@[3 * i] == crate::math::transpose_byte(effect_value(e, data, i), color[2] as int))
}

/// The registered effect names, in registry order.
pub fn effect_names() -> (names: Vec<&'static str>)
    ensures
        names@.len() == 7,
        names@[0]@ == "Melbank"@,
        names@[1]@ == "Spectrum"@,
        names@[2]@ == "Shine"@,
        names@[3]@ == "Energy"@,
        names@[4]@ == "Bass"@,
        names@[5]@ == "Color Spectrum (Data Only)"@,
        names@[6]@ == "FFT (View Only)"@,
{
    let mut names: Vec<&'static str> = Vec::new();
    names.push("Melbank");
    names.push("Spectrum");
    names.push("Shine");
    names.push("Energy");
    names.push("Bass");
    names.push("Color Spectrum (Data Only)");
    names.push("FFT (View Only)");
    names
}

/// Build a fresh effect from its registered name; an unknown name is the
/// `NoValidEffectName` error, and nothing else is.
pub fn effect_from_name(name: &str) -> (r: Result<Effect, crate::ControllerError>)
    ensures
        r is Ok <==> (name@ == "Melbank"@ || name@ == "Spectrum"@ || name@ == "Shine"@ || name@
            == "Energy"@ || name@ == "Bass"@ || name@ == "Color Spectrum (Data Only)"@ || name@
            == "FFT (View Only)"@),
        r matches Ok(e) ==> e.wf() && (name@ == "Melbank"@ ==> e is Melbank) && (name@
            == "Spectrum"@ ==> e is Spectrum) && (name@ == "Shine"@ ==> e is Shine) && (name@
            == "Energy"@ ==> e is Energy) && (name@ == "Bass"@ ==> e is Bass) && (name@
            == "Color Spectrum (Data Only)"@ ==> e is ColorSpectrum) && (name@
            == "FFT (View Only)"@ ==> e is Fft),
        r matches Err(er) ==> er == crate::ControllerError::NoValidEffectName,
{
    proof {
        reveal_strlit("Melbank");
        reveal_strlit("Spectrum");
        reveal_strlit("Shine");
        reveal_strlit("Energy");
        reveal_strlit("Bass");
        reveal_strlit("Color Spectrum (Data Only)");
        reveal_strlit("FFT (View Only)");
        assert("Melbank"@.len() == 7);
        assert("Spectrum"@.len() == 8);
        assert("Shine"@.len() == 5);
        assert("Energy"@.len() == 6);
        assert("Bass"@.len() == 4);
        assert("Color Spectrum (Data Only)"@.len() == 26);
        assert("FFT (View Only)"@.len() == 15);
    }
    let owned = name.to_owned();
    if owned == "Melbank".to_owned() {
        Ok(Effect::Melbank(MelbankEffect::new()))
    } else if owned == "Spectrum".to_owned() {
        Ok(Effect::Spectrum(SpectrumEffect::new()))
    } else if owned == "Shine".to_owned() {
        Ok(Effect::Shine(ShineEffect::new()))
    } else if owned == "Energy".to_owned() {
        Ok(Effect::Energy(EnergyEffect::new()))
    } else if owned == "Bass".to_owned() {
        Ok(Effect::Bass(BassEffect::new()))
    } else if owned == "Color Spectrum (Data Only)".to_owned() {
        Ok(Effect::ColorSpectrum(ColorSpectrumEffect::new()))
    } else if owned == "FFT (View Only)".to_owned() {
        Ok(Effect::Fft(FftEffect::new()))
    } else {
        Err(crate::ControllerError::NoValidEffectName)
    }
}

} // verus!
