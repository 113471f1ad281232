//! Transient peak detection against an adaptive average baseline.
//!
//! Per update the detector sums the mel vector, compares the sum against
//! a slowly adapting baseline scaled by the sensitivity, normalizes the
//! surviving peak by a gain filter, smooths it, and announces the start
//! or the end of a peak when the smoothed level crosses the threshold.

use vstd::prelude::*;

use crate::fixed::{div_floor, fdiv, SIG_MAX, SUM_MAX, UNIT, LEN_MAX};
use crate::math::{seq_sum, vec_sum};
use crate::smoothing::{filter_step, lemma_gain_bound, ExponentialFilter, FILTER_INIT};

verus! {

/// Rise factor of the detector's average filter (`0.1` in fixed point).
pub const AVERAGE_ALPHA_RISE: i64 = 6554;

/// Rise factor of the detector's gain filter (`0.9` in fixed point).
pub const DETECTOR_GAIN_RISE: i64 = 58982;

/// Smoothed level at which a peak starts or ends (`0.1` in fixed point).
pub const PEAK_THRESHOLD: i64 = 6554;

/// Peak detector over an adaptive average baseline.
pub struct PeakDetector {
    /// Tracks the average level of the incoming sums.
    pub average_filter: ExponentialFilter,
    /// Tracks the size of the recent peaks, for normalization.
    pub gain_filter: ExponentialFilter,
    /// Smooths the normalized output.
    pub smooth_filter: ExponentialFilter,
    /// How far above the baseline a sum must rise to count, as a
    /// fixed-point multiplier of at least one.
    pub sensitivity: i64,
    /// Whether a peak is currently running.
    pub on_peak: bool,
}

/// The baseline the detector compares a new sum against.
pub open spec fn detector_baseline(d: PeakDetector, sum: int) -> int {
    filter_step(
        d.average_filter.last as int,
        sum,
        d.average_filter.alpha_rise as int,
        d.average_filter.alpha_decay as int,
    )
}

/// The sum if it clears the sensitivity-scaled baseline, else zero.
pub open spec fn detector_raw(d: PeakDetector, sum: int) -> int {
    if sum * UNIT > detector_baseline(d, sum) * d.sensitivity {
        sum
    } else {
        0
    }
}

/// The gain filter's new state after seeing the gated sum.
pub open spec fn detector_gain(d: PeakDetector, sum: int) -> int {
    filter_step(
        d.gain_filter.last as int,
        detector_raw(d, sum),
        d.gain_filter.alpha_rise as int,
        d.gain_filter.alpha_decay as int,
    )
}

/// The gated sum normalized by the gain, with peaks below half the gain
/// suppressed and the divisor held away from zero.
pub open spec fn detector_norm(d: PeakDetector, sum: int) -> int {
    let raw = detector_raw(d, sum);
    let g = detector_gain(d, sum);
    let raw2 = if raw < fdiv(g, 2) {
        0
    } else {
        raw
    };
    let dd = if g < 1 {
        1int
    } else {
        g
    };
    fdiv(raw2 * UNIT, dd)
}

/// The smoothed output level of one update.
pub open spec fn detector_output(d: PeakDetector, sum: int) -> int {
    filter_step(
        d.smooth_filter.last as int,
        detector_norm(d, sum),
        d.smooth_filter.alpha_rise as int,
        d.smooth_filter.alpha_decay as int,
    )
}

/// The edge one update announces: a peak starts when the level rises
/// through the threshold with no peak running, and ends when it falls
/// below the threshold during a peak.
pub open spec fn detector_edge(d: PeakDetector, sum: int) -> Option<bool> {
    let y = detector_output(d, sum);
    if d.on_peak && y < PEAK_THRESHOLD {
        Some(false)
    } else if !d.on_peak && y > PEAK_THRESHOLD {
        Some(true)
    } else {
        None
    }
}

/// Whether a peak is running after one update.
pub open spec fn detector_on_peak_next(d: PeakDetector, sum: int) -> bool {
    match detector_edge(d, sum) {
        Some(b) => b,
        None => d.on_peak,
    }
}

impl PeakDetector {
    /// The filters are well-formed, the gain filter rises at `0.9` with a
    /// decay of at most one half, the sensitivity is at least one, and
    /// the filter states stay in the ranges the updates preserve.
    pub open spec fn wf(&self) -> bool {
        &&& self.average_filter.wf()
        &&& self.gain_filter.wf()
        &&& self.smooth_filter.wf()
        &&& self.gain_filter.alpha_rise == DETECTOR_GAIN_RISE
        &&& self.sensitivity >= UNIT
        &&& 0 <= self.average_filter.last <= SUM_MAX
        &&& 0 <= self.gain_filter.last <= SUM_MAX
        &&& 0 <= self.smooth_filter.last <= 3 * UNIT
    }

    /// Create a detector.  `accuracy` is the decay of the baseline
    /// filter, `sensitivity` the multiplier over the baseline a sum must
    /// clear, `gain_decay` the decay of the peak-gain filter, and
    /// `smoothing` the rise and decay of the output filter; all are
    /// fixed-point fractions in `[0, 1]` but the sensitivity, which is at
    /// least one.
    pub fn new(accuracy: i64, sensitivity: i64, gain_decay: i64, smoothing: (i64, i64)) -> (d:
        PeakDetector)
        requires
            0 <= accuracy <= UNIT,
            sensitivity >= UNIT,
            0 <= gain_decay <= UNIT,
            0 <= smoothing.0 <= UNIT,
            0 <= smoothing.1 <= UNIT,
        ensures
            d.wf(),
            !d.on_peak,
            d.average_filter.last == FILTER_INIT,
            d.average_filter.alpha_rise == AVERAGE_ALPHA_RISE,
            d.average_filter.alpha_decay == accuracy,
            d.gain_filter.last == FILTER_INIT,
            d.gain_filter.alpha_rise == DETECTOR_GAIN_RISE,
            d.gain_filter.alpha_decay == gain_decay,
            d.smooth_filter.last == FILTER_INIT,
            d.smooth_filter.alpha_rise == smoothing.0,
            d.smooth_filter.alpha_decay == smoothing.1,
            d.sensitivity == sensitivity,
    {
        PeakDetector {
            average_filter: ExponentialFilter::new(FILTER_INIT, AVERAGE_ALPHA_RISE, accuracy),
            gain_filter: ExponentialFilter::new(FILTER_INIT, DETECTOR_GAIN_RISE, gain_decay),
            smooth_filter: ExponentialFilter::new(FILTER_INIT, smoothing.0, smoothing.1),
            sensitivity,
            on_peak: false,
        }
    }

    /// One detection step over a non-negative mel vector: returns the
    /// smoothed, gain-normalized peak level in `[0, 3]` and the edge
    /// event, announcing a start exactly when no peak was running and the
    /// level rises above the threshold, and an end exactly when a peak
    /// was running and the level falls below it.
    pub fn update(&mut self, melbank: &Vec<i64>) -> (r: (i64, Option<bool>))
        requires
            old(self).wf(),
            melbank@.len() <= LEN_MAX,
            forall|i: int| 0 <= i < melbank@.len() ==> 0 <= #[trigger] melbank@[i] <= SIG_MAX,
        ensures
            final(self).wf(),
            r.0 as int == detector_output(*old(self), seq_sum(melbank@)),
            0 <= r.0 <= 3 * UNIT,
            r.1 == detector_edge(*old(self), seq_sum(melbank@)),
            final(self).on_peak == detector_on_peak_next(*old(self), seq_sum(melbank@)),
            r.1 == Some(true) <==> !old(self).on_peak && r.0 > PEAK_THRESHOLD,
            r.1 == Some(false) <==> old(self).on_peak && r.0 < PEAK_THRESHOLD,
            r.1 is None ==> final(self).on_peak == old(self).on_peak,
            final(self).sensitivity == old(self).sensitivity,
            final(self).average_filter.last as int == detector_baseline(
                *old(self),
                seq_sum(melbank@),
            ),
            final(self).gain_filter.last as int == detector_gain(*old(self), seq_sum(melbank@)),
            final(self).smooth_filter.last == r.0,
            final(self).average_filter.alpha_rise == old(self).average_filter.alpha_rise,
            final(self).average_filter.alpha_decay == old(self).average_filter.alpha_decay,
            final(self).gain_filter.alpha_rise == old(self).gain_filter.alpha_rise,
            final(self).gain_filter.alpha_decay == old(self).gain_filter.alpha_decay,
            final(self).smooth_filter.alpha_rise == old(self).smooth_filter.alpha_rise,
            final(self).smooth_filter.alpha_decay == old(self).smooth_filter.alpha_decay,
    {
        let ghost d0 = *self;
        let sum = vec_sum(melbank);
        let baseline = self.average_filter.update(sum);

        // the sum counts as a peak only if it clears the scaled baseline
        proof {
            assert((baseline as int) * (self.sensitivity as int)
                <= 0x1000_0000_0000_0000 * 0x8000_0000_0000_0000
                && (baseline as int) * (self.sensitivity as int) >= 0) by (nonlinear_arith)
                requires
                    0 <= baseline <= 0x1000_0000_0000_0000,
                    0 < self.sensitivity <= 0x8000_0000_0000_0000,
            ;
        }
        let gate = (sum as i128) * (UNIT as i128) > (baseline as i128) * (self.sensitivity as i128);
        let raw = if gate {
            sum
        } else {
            0
        };
        let g = self.gain_filter.update(raw);

        // a peak below half the recent gain is too small to count
        let half_gain = g / 2;
        let raw2 = if raw < half_gain {
            0
        } else {
            raw
        };
        let dd = if g < 1 {
            1
        } else {
            g
        };
        proof {
            if raw2 == 0 {
                assert(fdiv(0 * UNIT, dd as int) == 0);
            } else {
                lemma_gain_bound(
                    raw2 as int,
                    raw2 as int,
                    d0.gain_filter.last as int,
                    d0.gain_filter.alpha_rise as int,
                    d0.gain_filter.alpha_decay as int,
                );
            }
        }
        let y0 = div_floor((raw2 as i128) * (UNIT as i128), dd as i128) as i64;
        let y = self.smooth_filter.update(y0);

        // announce a start or an end when the level crosses the threshold
        let edge: Option<bool> = if self.on_peak && y < PEAK_THRESHOLD {
            self.on_peak = false;
            Some(false)
        } else if !self.on_peak && y > PEAK_THRESHOLD {
            self.on_peak = true;
            Some(true)
        } else {
            None
        };
        (y, edge)
    }
}

/// Peaks alternate: while every update announces no edge, the running
/// flag keeps its value.
proof fn lemma_on_peak_stable(states: Seq<PeakDetector>, sums: Seq<int>, i: int, j: int)
    requires
        states.len() == sums.len() + 1,
        forall|k: int|
            0 <= k < sums.len() ==> #[trigger] states[k + 1].on_peak == detector_on_peak_next(
                states[k],
                sums[k],
            ),
        0 <= i <= j < states.len(),
        forall|k: int| i <= k < j ==> #[trigger] detector_edge(states[k], sums[k]) is None,
    ensures
        states[j].on_peak == states[i].on_peak,
    decreases j - i,
{
    if i < j {
        lemma_on_peak_stable(states, sums, i, j - 1);
        assert(detector_edge(states[j - 1], sums[j - 1]) is None);
        assert(states[j - 1 + 1].on_peak == detector_on_peak_next(states[j - 1], sums[j - 1]));
    }
}

/// Peak edges alternate: between one announced edge and the next, with
/// only silent updates in between, the announced booleans differ — every
/// start is followed by an end and every end by a start.
pub proof fn lemma_peak_edges_alternate(
    states: Seq<PeakDetector>,
    sums: Seq<int>,
    i: int,
    j: int,
    b: bool,
    b2: bool,
)
    requires
        states.len() == sums.len() + 1,
        forall|k: int|
            0 <= k < sums.len() ==> #[trigger] states[k + 1].on_peak == detector_on_peak_next(
                states[k],
                sums[k],
            ),
        0 <= i < j < sums.len(),
        detector_edge(states[i], sums[i]) == Some(b),
        detector_edge(states[j], sums[j]) == Some(b2),
        forall|k: int| i < k < j ==> #[trigger] detector_edge(states[k], sums[k]) is None,
    ensures
        b2 == !b,
{
    assert(states[i + 1].on_peak == b);
    lemma_on_peak_stable(states, sums, i + 1, j);
    assert(states[j].on_peak == b);
}

} // verus!
