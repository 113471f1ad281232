//! The per-tick DSP pipeline around the FFT.
//!
//! A tick starts with `tick_overlap`, which pairs the fresh PCM frame
//! with the previous one (dropping ticks whose length changed); the
//! overlapped buffer is pre-emphasized, gated against silence and
//! windowed by `tick_window`; the caller runs the FFT on the result and
//! hands the magnitudes to `power_spectrum`; `build_audio_data` projects
//! the powers through the mel filterbanks and bundles everything for the
//! current effect.

use vstd::prelude::*;

use crate::effects::AudioData;
use crate::fixed::{div_floor64, fdiv, LEN_MAX, MAG_MAX, POW_MAX, RAW_MAX, SIG_MAX, UNIT};
use crate::math::{array_product, copy_vec};
use crate::melbank::{apply_mel_matrix, mel_row_dot};
use crate::stream::InnerStream;

verus! {

/// The pre-emphasis coefficient (`0.9` in fixed point).
pub const PRE_EMPHASIS_ALPHA: i64 = 58982;

/// The silence gate: a tick whose pre-emphasized peak magnitude stays at
/// or below this (`0.0002` in fixed point) is zeroed.
pub const THRESHOLD: i64 = 13;

/// The magnitude of an integer.
pub open spec fn abs_int(a: int) -> int {
    if a >= 0 {
        a
    } else {
        -a
    }
}

/// The pre-emphasized signal: the first sample unchanged, every later
/// sample minus `0.9` of its predecessor.
pub open spec fn pre_emphasis_spec(x: Seq<i64>, i: int) -> int {
    if i == 0 {
        x[0] as int
    } else {
        x[i] - fdiv(PRE_EMPHASIS_ALPHA * x[i - 1], UNIT as int)
    }
}

/// The largest magnitude among the first `j` pre-emphasized samples.
pub open spec fn pre_abs_max(x: Seq<i64>, j: int) -> int
    decreases j,
{
    if j <= 0 {
        0
    } else {
        let a = abs_int(pre_emphasis_spec(x, j - 1));
        let rest = pre_abs_max(x, j - 1);
        if a > rest {
            a
        } else {
            rest
        }
    }
}

/// Whether a tick counts as silence: no pre-emphasized sample rises
/// above the silence threshold.
pub open spec fn tick_silent(x: Seq<i64>) -> bool {
    pre_abs_max(x, x.len() as int) <= THRESHOLD
}

/// What enters the FFT at index `i`: zero for a silent tick, otherwise
/// the pre-emphasized sample weighted by the window.
pub open spec fn gated_window_val(x: Seq<i64>, hann: Seq<i64>, i: int) -> int {
    if tick_silent(x) {
        0
    } else {
        fdiv(pre_emphasis_spec(x, i) * hann[i], UNIT as int)
    }
}

/// The overlapped buffer of one tick: the previous frame (zeros before
/// the first tick) followed by the fresh one.
pub open spec fn combined_input(last: Seq<i64>, data: Seq<i64>) -> Seq<i64> {
    Seq::new(
        data.len(),
        |i: int|
            if last.len() == 0 {
                0i64
            } else {
                last[i]
            },
    ) + data
}

/// The largest magnitude in a vector of amplitudes.
pub open spec fn seq_abs_max(s: Seq<i64>) -> int
    decreases s.len(),
{
    if s.len() == 0 {
        0
    } else {
        let a = abs_int(s.last() as int);
        let rest = seq_abs_max(s.drop_last());
        if a > rest {
            a
        } else {
            rest
        }
    }
}

/// A vector that carries the pre-emphasized samples pointwise has the
/// pre-emphasized peak magnitude.
proof fn lemma_abs_max_matches(s: Seq<i64>, x: Seq<i64>, j: int)
    requires
        0 <= j <= s.len(),
        s.len() == x.len(),
        forall|i: int| 0 <= i < s.len() ==> #[trigger] s[i] as int == pre_emphasis_spec(x, i),
    ensures
        seq_abs_max(s.take(j)) == pre_abs_max(x, j),
    decreases j,
{
    if j > 0 {
        lemma_abs_max_matches(s, x, j - 1);
        assert(s.take(j).drop_last() =~= s.take(j - 1));
        assert(s.take(j).last() == s[j - 1]);
    }
}

/// Pair the fresh PCM frame with the previous one.  On the very first
/// tick the previous frame counts as zeros; a tick whose length differs
/// from the previous frame's is dropped and changes nothing.  On
/// success the state remembers the fresh frame and the overlapped
/// buffer (previous frame, then fresh frame) comes back.
pub fn tick_overlap(state: &mut InnerStream, data: &Vec<i64>) -> (out: Option<Vec<i64>>)
    requires
        old(state).wf(),
        1 <= data@.len(),
        2 * data@.len() <= LEN_MAX,
        forall|i: int| 0 <= i < data@.len() ==> -RAW_MAX <= #[trigger] data@[i] <= RAW_MAX,
    ensures
        final(state).wf(),
        final(state).settings == old(state).settings,
        final(state).sample_rate == old(state).sample_rate,
        final(state).color == old(state).color,
        final(state).effect == old(state).effect,
        out is None <==> old(state).last_frame@.len() != 0 && old(state).last_frame@.len()
            != data@.len(),
        out is None ==> final(state).last_frame == old(state).last_frame,
        out is Some ==> final(state).last_frame@ == data@ && out->Some_0@ == combined_input(
            old(state).last_frame@,
            data@,
        ) && out->Some_0@.len() == 2 * data@.len() && forall|i: int|
            0 <= i < 2 * data@.len() ==> -RAW_MAX <= #[trigger] out->Some_0@[i] <= RAW_MAX,
{
    let n = data.len();
    if state.last_frame.len() != 0 && state.last_frame.len() != n {
        return None;
    }
    let first = state.last_frame.len() == 0;
    let mut input: Vec<i64> = Vec::new();
    let mut i: usize = 0;
    while i < n
        invariant
            i <= n,
            n == data@.len(),
            first == (state.last_frame@.len() == 0),
            !first ==> state.last_frame@.len() == n,
            state.wf(),
            input@.len() == i,
            forall|k: int|
                0 <= k < i ==> #[trigger] input@[k] == (if state.last_frame@.len() == 0 {
                    0i64
                } else {
                    state.last_frame@[k]
                }),
        decreases n - i,
    {
        if first {
            input.push(0);
        } else {
            input.push(state.last_frame[i]);
        }
        i = i + 1;
    }
    let mut j: usize = 0;
    while j < n
        invariant
            j <= n,
            n == data@.len(),
            input@.len() == n + j,
            forall|k: int|
                0 <= k < n ==> #[trigger] input@[k] == (if old(state).last_frame@.len() == 0 {
                    0i64
                } else {
                    old(state).last_frame@[k]
                }),
            forall|k: int| n <= k < n + j ==> #[trigger] input@[k] == data@[k - n],
            state == old(state),
        decreases n - j,
    {
        input.push(data[j]);
        j = j + 1;
    }
    state.last_frame = copy_vec(data);
    proof {
        assert(input@ =~= combined_input(old(state).last_frame@, data@));
    }
    Some(input)
}

/// The pre-emphasis filter: every sample minus `0.9` of the one before
/// it, leaving the first sample as it is.
pub fn pre_emphasis(x: &Vec<i64>) -> (y: Vec<i64>)
    requires
        1 <= x@.len(),
        forall|i: int| 0 <= i < x@.len() ==> -RAW_MAX <= #[trigger] x@[i] <= RAW_MAX,
    ensures
        y@.len() == x@.len(),
        forall|i: int|
            0 <= i < y@.len() ==> #[trigger] y@[i] as int == pre_emphasis_spec(x@, i) && -2
                * RAW_MAX <= y@[i] <= 2 * RAW_MAX,
{
    let n = x.len();
    let mut y: Vec<i64> = Vec::new();
    y.push(x[0]);
    let mut i: usize = 1;
    while i < n
        invariant
            1 <= i <= n,
            n == x@.len(),
            forall|k: int| 0 <= k < x@.len() ==> -RAW_MAX <= #[trigger] x@[k] <= RAW_MAX,
            y@.len() == i,
            forall|k: int|
                0 <= k < i ==> #[trigger] y@[k] as int == pre_emphasis_spec(x@, k) && -2 * RAW_MAX
                    <= y@[k] <= 2 * RAW_MAX,
        decreases n - i,
    {
        let damped = div_floor64(PRE_EMPHASIS_ALPHA * x[i - 1], UNIT);
        y.push(x[i] - damped);
        i = i + 1;
    }
    y
}

/// The silence gate: when no entry's magnitude rises above the
/// threshold, the whole vector is zeroed; otherwise it stays as it is.
pub fn threshold_filter(x: &mut Vec<i64>)
    requires
        forall|i: int| 0 <= i < old(x)@.len() ==> i64::MIN < #[trigger] old(x)@[i],
    ensures
        final(x)@.len() == old(x)@.len(),
        seq_abs_max(old(x)@) <= THRESHOLD ==> forall|i: int|
            0 <= i < final(x)@.len() ==> #[trigger] final(x)@[i] == 0i64,
        seq_abs_max(old(x)@) > THRESHOLD ==> final(x)@ == old(x)@,
{
    let n = x.len();
    let mut m: i64 = 0;
    let mut i: usize = 0;
    proof {
        assert(x@.take(0) =~= Seq::<i64>::empty());
    }
    while i < n
        invariant
            i <= n,
            n == x@.len(),
            x@ == old(x)@,
            forall|k: int| 0 <= k < x@.len() ==> i64::MIN < #[trigger] x@[k],
            m == seq_abs_max(x@.take(i as int)),
            m >= 0,
        decreases n - i,
    {
        proof {
            assert(x@.take(i + 1).drop_last() =~= x@.take(i as int));
            assert(x@.take(i + 1).last() == x@[i as int]);
        }
        let v = x[i];
        let a = if v < 0 {
            -v
        } else {
            v
        };
        if a > m {
            m = a;
        }
        i = i + 1;
    }
    proof {
        assert(x@.take(n as int) =~= x@);
    }
    if m <= THRESHOLD {
        let mut k: usize = 0;
        while k < n
            invariant
                k <= n,
                n == x@.len(),
                forall|j: int| 0 <= j < k ==> #[trigger] x@[j] == 0i64,
            decreases n - k,
        {
            x.set(k, 0);
            k = k + 1;
        }
    }
}

/// Pre-emphasize, gate and window one overlapped buffer: what enters
/// the FFT.  The window must be as long as the buffer.
pub fn tick_window(input: &Vec<i64>, hann: &Vec<i64>) -> (w: Vec<i64>)
    requires
        1 <= input@.len() <= LEN_MAX,
        forall|i: int| 0 <= i < input@.len() ==> -RAW_MAX <= #[trigger] input@[i] <= RAW_MAX,
        hann@.len() == input@.len(),
        forall|i: int| 0 <= i < hann@.len() ==> 0 <= #[trigger] hann@[i] <= UNIT,
    ensures
        w@.len() == input@.len(),
        forall|i: int|
            0 <= i < w@.len() ==> #[trigger] w@[i] as int == gated_window_val(input@, hann@, i)
                && -SIG_MAX <= w@[i] <= SIG_MAX,
{
    let mut filtered = pre_emphasis(input);
    proof {
        lemma_abs_max_matches(filtered@, input@, input@.len() as int);
        assert(filtered@.take(filtered@.len() as int) =~= filtered@);
    }
    threshold_filter(&mut filtered);
    let w = match array_product(&filtered, hann) {
        Ok(w) => w,
        Err(_) => {
            proof {
                assert(false);
            }
            Vec::new()
        },
    };
    proof {
        assert forall|i: int|
            0 <= i < w@.len() implies #[trigger] w@[i] as int == gated_window_val(input@, hann@, i)
            && -SIG_MAX <= w@[i] <= SIG_MAX by {
            if tick_silent(input@) {
                assert(filtered@[i] == 0i64);
                assert(0 * hann@[i] == 0) by (nonlinear_arith);
                assert(w@[i] as int == fdiv(0, UNIT as int));
            } else {
                assert(filtered@[i] as int == pre_emphasis_spec(input@, i));
            }
        }
    }
    w
}

/// The power spectrum: each magnitude squared, scaled back to an
/// amplitude.
pub fn power_spectrum(mags: &Vec<i64>) -> (p: Vec<i64>)
    requires
        mags@.len() <= LEN_MAX,
        forall|i: int| 0 <= i < mags@.len() ==> -MAG_MAX <= #[trigger] mags@[i] <= MAG_MAX,
    ensures
        p@.len() == mags@.len(),
        forall|i: int|
            0 <= i < p@.len() ==> #[trigger] p@[i] as int == fdiv(
                mags@[i] * mags@[i],
                UNIT as int,
            ) && 0 <= p@[i] <= POW_MAX,
{
    let n = mags.len();
    let mut p: Vec<i64> = Vec::new();
    let mut i: usize = 0;
    while i < n
        invariant
            i <= n,
            n == mags@.len(),
            forall|k: int| 0 <= k < n ==> -MAG_MAX <= #[trigger] mags@[k] <= MAG_MAX,
            p@.len() == i,
            forall|k: int|
                0 <= k < i ==> #[trigger] p@[k] as int == fdiv(mags@[k] * mags@[k], UNIT as int)
                    && 0 <= p@[k] <= POW_MAX,
        decreases n - i,
    {
        let v = mags[i];
        proof {
            assert(0 <= v * v <= MAG_MAX * MAG_MAX) by (nonlinear_arith)
                requires
                    -MAG_MAX <= v <= MAG_MAX,
            ;
            vstd::arithmetic::div_mod::lemma_div_is_ordered(
                v as int * v as int,
                MAG_MAX as int * MAG_MAX,
                UNIT as int,
            );
            assert(MAG_MAX as int * MAG_MAX == UNIT as int * POW_MAX) by (nonlinear_arith);
            vstd::arithmetic::div_mod::lemma_div_multiples_vanish(POW_MAX as int, UNIT as int);
        }
        let sq = crate::fixed::div_floor((v as i128) * (v as i128), UNIT as i128) as i64;
        p.push(sq);
        i = i + 1;
    }
    p
}

/// Bundle one tick's artifacts for the current effect: the power
/// spectrum is projected through the mel filterbank at the effect's bin
/// count, and through the low-band filterbanks, and the result carries
/// the state's settings, sample rate and color.  The caller supplies
/// the filter edges (in fixed-point Hz) and the Gaussian bell; their
/// lengths must match the effect's bin count.
pub fn build_audio_data(
    state: &InnerStream,
    input: &Vec<i64>,
    power: &Vec<i64>,
    edges_hz: &Vec<i64>,
    low_edges_hz: &Vec<i64>,
    shine_edges_hz: &Vec<i64>,
    gaussian: &Vec<i64>,
) -> (d: AudioData)
    requires
        state.wf(),
        1 <= power@.len() <= LEN_MAX,
        forall|i: int| 0 <= i < power@.len() ==> 0 <= #[trigger] power@[i] <= POW_MAX,
        1 <= input@.len() <= LEN_MAX,
        forall|i: int| 0 <= i < input@.len() ==> -RAW_MAX <= #[trigger] input@[i] <= RAW_MAX,
        edges_hz@.len() == state.effect.amount_melbank_bins_spec(state.settings.n_bins as int) + 2,
        edges_hz@.len() <= 4098,
        low_edges_hz@.len() == edges_hz@.len(),
        shine_edges_hz@.len() == 62,
        forall|i: int| 0 <= i < edges_hz@.len() ==> 0 <= #[trigger] edges_hz@[i] <= SIG_MAX,
        forall|i: int| 0 <= i < low_edges_hz@.len() ==> 0 <= #[trigger] low_edges_hz@[i] <= SIG_MAX,
        forall|i: int|
            0 <= i < shine_edges_hz@.len() ==> 0 <= #[trigger] shine_edges_hz@[i] <= SIG_MAX,
        gaussian@.len() == edges_hz@.len() - 2,
        forall|i: int| 0 <= i < gaussian@.len() ==> 0 <= #[trigger] gaussian@[i] <= UNIT,
    ensures
        d.wf(),
        d.settings == state.settings,
        d.sample_rate == state.sample_rate,
        d.color == state.color,
        d.raw_data@ == input@,
        d.power_spectrum@ == power@,
        d.gaussian@ == gaussian@,
        d.melbank@.len() == edges_hz@.len() - 2,
        forall|i: int|
            0 <= i < d.melbank@.len() ==> #[trigger] d.melbank@[i] as int == fdiv(
                mel_row_dot(
                    edges_hz@,
                    power@,
                    (state.sample_rate as u16) as int,
                    i,
                    power@.len() as int,
                ),
                UNIT as int,
            ),
        d.low_melbank@.len() == low_edges_hz@.len() - 2,
        forall|i: int|
            0 <= i < d.low_melbank@.len() ==> #[trigger] d.low_melbank@[i] as int == fdiv(
                mel_row_dot(
                    low_edges_hz@,
                    power@,
                    (state.sample_rate as u16) as int,
                    i,
                    power@.len() as int,
                ),
                UNIT as int,
            ),
        d.shine_melbank@.len() == 60,
        forall|i: int|
            0 <= i < d.shine_melbank@.len() ==> #[trigger] d.shine_melbank@[i] as int == fdiv(
                mel_row_dot(
                    shine_edges_hz@,
                    power@,
                    (state.sample_rate as u16) as int,
                    i,
                    power@.len() as int,
                ),
                UNIT as int,
            ),
{
    #[verifier::truncate]
    let sr16: u16 = state.sample_rate as u16;
    let melbank = apply_mel_matrix(power, edges_hz, sr16);
    let low_melbank = apply_mel_matrix(power, low_edges_hz, sr16);
    let shine_melbank = apply_mel_matrix(power, shine_edges_hz, sr16);
    AudioData {
        melbank,
        low_melbank,
        shine_melbank,
        power_spectrum: copy_vec(power),
        raw_data: copy_vec(input),
        gaussian: copy_vec(gaussian),
        settings: state.settings,
        sample_rate: state.sample_rate,
        color: state.color,
    }
}

} // verus!
