//! The triangular mel filterbank.
//!
//! The caller supplies the filter edges as fixed-point frequencies (the
//! two endpoints of the range converted to mel, spread linearly by
//! `get_mel_frequency_bins`, and converted back to Hz per edge).  From
//! the edges this module builds the dense triangular matrix against the
//! linearly spaced FFT bin frequencies and projects power spectra
//! through it.

use vstd::prelude::*;
use vstd::arithmetic::div_mod::{
    lemma_div_is_ordered, lemma_div_multiples_vanish, lemma_fundamental_div_mod,
};

use crate::fixed::{div_floor, fdiv, lemma_fdiv_bounds, LEN_MAX, POW_MAX, SIG_MAX, UNIT};

verus! {

/// The `j`-th of `n_fft` frequencies linearly spaced from `0` to half
/// the sample rate, as a fixed-point amplitude.
pub open spec fn fft_frequency(sample_rate: int, n_fft: int, j: int) -> int {
    fdiv(fdiv(sample_rate, 2) * UNIT, n_fft - 1) * j
}

/// The weight of one FFT frequency `f` in the mel filter with the given
/// edges: it climbs from `0` at the lower edge to one at the center and
/// falls back to `0` at the upper edge.  The falling slope wins where
/// both apply; a degenerate (empty) slope contributes nothing.
pub open spec fn mel_weight(lower: int, center: int, upper: int, f: int) -> int {
    if center <= f <= upper && center < upper {
        fdiv((upper - f) * UNIT, upper - center)
    } else if lower <= f <= center && lower < center {
        fdiv((f - lower) * UNIT, center - lower)
    } else {
        0
    }
}

/// Every mel weight is a fixed-point fraction in `[0, 1]`.
pub proof fn lemma_mel_weight_bounds(lower: int, center: int, upper: int, f: int)
    ensures
        0 <= mel_weight(lower, center, upper, f) <= UNIT,
{
    if center <= f <= upper && center < upper {
        let d = upper - center;
        assert(0 <= (upper - f) * UNIT <= d * UNIT) by (nonlinear_arith)
            requires
                center <= f <= upper,
                center < upper,
                d == upper - center,
        ;
        lemma_fdiv_bounds((upper - f) * UNIT, d);
        lemma_div_is_ordered((upper - f) * UNIT, d * UNIT, d);
        lemma_div_multiples_vanish(UNIT as int, d);
        assert(d * UNIT as int == UNIT as int * d) by (nonlinear_arith);
    } else if lower <= f <= center && lower < center {
        let d = center - lower;
        assert(0 <= (f - lower) * UNIT <= d * UNIT) by (nonlinear_arith)
            requires
                lower <= f <= center,
                lower < center,
                d == center - lower,
        ;
        lemma_fdiv_bounds((f - lower) * UNIT, d);
        lemma_div_is_ordered((f - lower) * UNIT, d * UNIT, d);
        lemma_div_multiples_vanish(UNIT as int, d);
        assert(d * UNIT as int == UNIT as int * d) by (nonlinear_arith);
    }
}

/// Each mel filter is triangular: zero at its outer edges, one at its
/// center, rising on the left slope and falling on the right one.
pub proof fn lemma_mel_weight_triangular(l: int, c: int, u: int, f1: int, f2: int)
    requires
        l < c < u,
    ensures
        mel_weight(l, c, u, l) == 0,
        mel_weight(l, c, u, c) == UNIT,
        mel_weight(l, c, u, u) == 0,
        l <= f1 <= f2 <= c ==> mel_weight(l, c, u, f1) <= mel_weight(l, c, u, f2),
        c <= f1 <= f2 <= u ==> mel_weight(l, c, u, f1) >= mel_weight(l, c, u, f2),
        0 <= mel_weight(l, c, u, f1) <= UNIT,
{
    lemma_mel_weight_bounds(l, c, u, f1);
    lemma_mel_weight_bounds(l, c, u, f2);
    // zero at the lower edge
    assert((l - l) * UNIT == 0) by (nonlinear_arith);
    assert(fdiv(0, c - l) == 0);
    // zero at the upper edge
    assert((u - u) * UNIT == 0) by (nonlinear_arith);
    assert(fdiv(0, u - c) == 0);
    // one at the center, through the falling slope
    lemma_div_multiples_vanish(UNIT as int, u - c);
    assert((u - c) * UNIT == UNIT as int * (u - c)) by (nonlinear_arith);
    assert(mel_weight(l, c, u, c) == UNIT);
    // the rising slope is monotone in `f`
    if l <= f1 <= f2 <= c {
        if f2 == c {
            lemma_mel_weight_bounds(l, c, u, f1);
            assert(mel_weight(l, c, u, f2) == UNIT);
        } else {
            assert((f1 - l) * UNIT <= (f2 - l) * UNIT) by (nonlinear_arith)
                requires
                    f1 <= f2,
            ;
            lemma_div_is_ordered((f1 - l) * UNIT, (f2 - l) * UNIT, c - l);
        }
    }
    // the falling slope is antitone in `f`
    if c <= f1 <= f2 <= u {
        assert((u - f2) * UNIT <= (u - f1) * UNIT) by (nonlinear_arith)
            requires
                f1 <= f2,
        ;
        lemma_div_is_ordered((u - f2) * UNIT, (u - f1) * UNIT, u - c);
    }
}

/// `n_bins + 2` mel values linearly spaced from `min_mel` with the step
/// `|max_mel - min_mel| / (n_bins + 1)`: the edges of the mel filters,
/// an exact arithmetic progression.
pub fn get_mel_frequency_bins(n_bins: usize, min_mel: i64, max_mel: i64) -> (out: Vec<i64>)
    requires
        n_bins <= LEN_MAX,
        0 <= min_mel <= SIG_MAX,
        0 <= max_mel <= SIG_MAX,
    ensures
        out@.len() == n_bins + 2,
        forall|b: int|
            0 <= b < n_bins + 2 ==> out@[b] == min_mel + fdiv(
                if max_mel >= min_mel {
                    max_mel - min_mel
                } else {
                    min_mel - max_mel
                },
                n_bins + 1,
            ) * b && 0 <= #[trigger] out@[b] <= 3 * SIG_MAX,
{
    let diff = if max_mel >= min_mel {
        max_mel - min_mel
    } else {
        min_mel - max_mel
    };
    let delta = div_floor(diff as i128, (n_bins + 1) as i128) as i64;
    let ghost rem: int = diff as int % (n_bins as int + 1);
    proof {
        lemma_fundamental_div_mod(diff as int, n_bins as int + 1);
    }
    let n = n_bins + 2;
    let mut out: Vec<i64> = Vec::new();
    let mut b: usize = 0;
    while b < n
        invariant
            b <= n,
            n == n_bins + 2,
            n_bins <= LEN_MAX,
            0 <= min_mel <= SIG_MAX,
            0 <= diff <= SIG_MAX,
            delta == fdiv(diff as int, n_bins as int + 1),
            diff == (n_bins as int + 1) * delta + rem,
            0 <= rem < n_bins + 1,
            0 <= delta <= diff,
            out@.len() == b,
            forall|k: int|
                0 <= k < b ==> out@[k] == min_mel + delta * k && 0 <= #[trigger] out@[k] <= 3
                    * SIG_MAX,
        decreases n - b,
    {
        proof {
            assert(0 <= delta * b <= diff + delta) by (nonlinear_arith)
                requires
                    diff == (n_bins as int + 1) * delta + rem,
                    0 <= rem < n_bins as int + 1,
                    0 <= b <= n_bins as int + 1,
                    0 <= delta,
            ;
        }
        out.push(min_mel + delta * (b as i64));
        b = b + 1;
    }
    out
}

/// The dot product of one mel filter row with a spectrum: the sum over
/// the first `j` FFT bins of the filter weight times the bin's power.
pub open spec fn mel_row_dot(
    edges: Seq<i64>,
    fft: Seq<i64>,
    sample_rate: int,
    i: int,
    j: int,
) -> int
    decreases j,
{
    if j <= 0 {
        0
    } else {
        mel_row_dot(edges, fft, sample_rate, i, j - 1) + mel_weight(
            edges[i] as int,
            edges[i + 1] as int,
            edges[i + 2] as int,
            fft_frequency(sample_rate, fft.len() as int, j - 1),
        ) * fft[j - 1]
    }
}

/// Build the dense triangular mel matrix: one row per filter, one column
/// per FFT bin frequency, each entry the `mel_weight` of that frequency
/// in that filter.
pub fn compute_mel_matrix(edges_hz: &Vec<i64>, n_fft_bins: usize, sample_rate: u16) -> (m: Vec<
    Vec<i64>,
>)
    requires
        edges_hz@.len() >= 2,
        edges_hz@.len() <= LEN_MAX,
        1 <= n_fft_bins <= LEN_MAX,
        forall|i: int| 0 <= i < edges_hz@.len() ==> 0 <= #[trigger] edges_hz@[i] <= SIG_MAX,
    ensures
        m@.len() == edges_hz@.len() - 2,
        forall|i: int| 0 <= i < m@.len() ==> #[trigger] m@[i]@.len() == n_fft_bins,
        forall|i: int, j: int|
            0 <= i < m@.len() && 0 <= j < n_fft_bins ==> #[trigger] m@[i]@[j] as int == mel_weight(
                edges_hz@[i] as int,
                edges_hz@[i + 1] as int,
                edges_hz@[i + 2] as int,
                fft_frequency(sample_rate as int, n_fft_bins as int, j),
            ) && 0 <= m@[i]@[j] <= UNIT,
{
    let half_rate: i64 = (sample_rate / 2) as i64 * UNIT;
    let frequencies = crate::math::linspace(0, half_rate, n_fft_bins);
    proof {
        assert(forall|j: int|
            0 <= j < n_fft_bins ==> frequencies@[j] as int == #[trigger] fft_frequency(
                sample_rate as int,
                n_fft_bins as int,
                j,
            ));
    }
    let n_bins = edges_hz.len() - 2;
    let mut m: Vec<Vec<i64>> = Vec::new();
    let mut i: usize = 0;
    while i < n_bins
        invariant
            i <= n_bins,
            n_bins == edges_hz@.len() - 2,
            edges_hz@.len() <= LEN_MAX,
            1 <= n_fft_bins <= LEN_MAX,
            forall|k: int| 0 <= k < edges_hz@.len() ==> 0 <= #[trigger] edges_hz@[k] <= SIG_MAX,
            frequencies@.len() == n_fft_bins,
            forall|j: int|
                0 <= j < n_fft_bins ==> frequencies@[j] as int == #[trigger] fft_frequency(
                    sample_rate as int,
                    n_fft_bins as int,
                    j,
                ) && -4 * SIG_MAX <= frequencies@[j] <= 4 * SIG_MAX,
            m@.len() == i,
            forall|k: int| 0 <= k < i ==> #[trigger] m@[k]@.len() == n_fft_bins,
            forall|k: int, j: int|
                0 <= k < i && 0 <= j < n_fft_bins ==> #[trigger] m@[k]@[j] as int == mel_weight(
                    edges_hz@[k] as int,
                    edges_hz@[k + 1] as int,
                    edges_hz@[k + 2] as int,
                    fft_frequency(sample_rate as int, n_fft_bins as int, j),
                ) && 0 <= m@[k]@[j] <= UNIT,
        decreases n_bins - i,
    {
        let lower = edges_hz[i];
        let center = edges_hz[i + 1];
        let upper = edges_hz[i + 2];
        let mut row: Vec<i64> = Vec::new();
        let mut j: usize = 0;
        while j < n_fft_bins
            invariant
                j <= n_fft_bins,
                1 <= n_fft_bins <= LEN_MAX,
                0 <= lower <= SIG_MAX,
                0 <= center <= SIG_MAX,
                0 <= upper <= SIG_MAX,
                lower == edges_hz@[i as int],
                center == edges_hz@[i as int + 1],
                upper == edges_hz@[i as int + 2],
                i < edges_hz@.len() - 2,
                frequencies@.len() == n_fft_bins,
                forall|k: int|
                    0 <= k < n_fft_bins ==> frequencies@[k] as int == #[trigger] fft_frequency(
                        sample_rate as int,
                        n_fft_bins as int,
                        k,
                    ) && -4 * SIG_MAX <= frequencies@[k] <= 4 * SIG_MAX,
                row@.len() == j,
                forall|k: int|
                    0 <= k < j ==> #[trigger] row@[k] as int == mel_weight(
                        lower as int,
                        center as int,
                        upper as int,
                        fft_frequency(sample_rate as int, n_fft_bins as int, k),
                    ) && 0 <= row@[k] <= UNIT,
            decreases n_fft_bins - j,
        {
            let f = frequencies[j];
            proof {
                assert(frequencies@[j as int] as int == fft_frequency(
                    sample_rate as int,
                    n_fft_bins as int,
                    j as int,
                ));
                lemma_mel_weight_bounds(
                    lower as int,
                    center as int,
                    upper as int,
                    f as int,
                );
                assert(-5 * SIG_MAX * UNIT <= (upper - f) * UNIT <= 5 * SIG_MAX * UNIT)
                    by (nonlinear_arith)
                    requires
                        -4 * SIG_MAX <= f <= 4 * SIG_MAX,
                        0 <= upper <= SIG_MAX,
                ;
                assert(-5 * SIG_MAX * UNIT <= (f - lower) * UNIT <= 5 * SIG_MAX * UNIT)
                    by (nonlinear_arith)
                    requires
                        -4 * SIG_MAX <= f <= 4 * SIG_MAX,
                        0 <= lower <= SIG_MAX,
                ;
            }
            let w: i64 = if center <= f && f <= upper && center < upper {
                div_floor(
                    ((upper - f) as i128) * (UNIT as i128),
                    (upper - center) as i128,
                ) as i64
            } else if lower <= f && f <= center && lower < center {
                div_floor(
                    ((f - lower) as i128) * (UNIT as i128),
                    (center - lower) as i128,
                ) as i64
            } else {
                0
            };
            row.push(w);
            j = j + 1;
        }
        m.push(row);
        i = i + 1;
    }
    m
}

/// Project a power spectrum through the mel filterbank with the given
/// edges: entry `i` of the result is the dot product of filter row `i`
/// with the spectrum, scaled back to an amplitude.
pub fn apply_mel_matrix(fft: &Vec<i64>, edges_hz: &Vec<i64>, sample_rate: u16) -> (out: Vec<i64>)
    requires
        edges_hz@.len() >= 2,
        edges_hz@.len() <= LEN_MAX,
        1 <= fft@.len() <= LEN_MAX,
        forall|i: int| 0 <= i < edges_hz@.len() ==> 0 <= #[trigger] edges_hz@[i] <= SIG_MAX,
        forall|j: int| 0 <= j < fft@.len() ==> 0 <= #[trigger] fft@[j] <= POW_MAX,
    ensures
        out@.len() == edges_hz@.len() - 2,
        forall|i: int|
            0 <= i < out@.len() ==> #[trigger] out@[i] as int == fdiv(
                mel_row_dot(edges_hz@, fft@, sample_rate as int, i, fft@.len() as int),
                UNIT as int,
            ) && 0 <= out@[i] <= SIG_MAX,
{
    let matrix = compute_mel_matrix(edges_hz, fft.len(), sample_rate);
    let n_bins = matrix.len();
    let n = fft.len();
    let mut out: Vec<i64> = Vec::new();
    let mut i: usize = 0;
    while i < n_bins
        invariant
            i <= n_bins,
            n_bins == edges_hz@.len() - 2,
            n == fft@.len(),
            1 <= n <= LEN_MAX,
            matrix@.len() == n_bins,
            forall|k: int| 0 <= k < n_bins ==> #[trigger] matrix@[k]@.len() == n,
            forall|k: int, j: int|
                0 <= k < n_bins && 0 <= j < n ==> #[trigger] matrix@[k]@[j] as int == mel_weight(
                    edges_hz@[k] as int,
                    edges_hz@[k + 1] as int,
                    edges_hz@[k + 2] as int,
                    fft_frequency(sample_rate as int, n as int, j),
                ) && 0 <= matrix@[k]@[j] <= UNIT,
            forall|j: int| 0 <= j < fft@.len() ==> 0 <= #[trigger] fft@[j] <= POW_MAX,
            out@.len() == i,
            forall|k: int|
                0 <= k < i ==> #[trigger] out@[k] as int == fdiv(
                    mel_row_dot(edges_hz@, fft@, sample_rate as int, k, fft@.len() as int),
                    UNIT as int,
                ) && 0 <= out@[k] <= SIG_MAX,
        decreases n_bins - i,
    {
        let row = &matrix[i];
        let mut acc: i128 = 0;
        let mut j: usize = 0;
        while j < n
            invariant
                j <= n,
                n == fft@.len(),
                1 <= n <= LEN_MAX,
                i < n_bins,
                n_bins == edges_hz@.len() - 2,
                row@.len() == n,
                forall|k: int|
                    0 <= k < n ==> #[trigger] row@[k] as int == mel_weight(
                        edges_hz@[i as int] as int,
                        edges_hz@[i as int + 1] as int,
                        edges_hz@[i as int + 2] as int,
                        fft_frequency(sample_rate as int, n as int, k),
                    ) && 0 <= row@[k] <= UNIT,
                forall|k: int| 0 <= k < fft@.len() ==> 0 <= #[trigger] fft@[k] <= POW_MAX,
                acc as int == mel_row_dot(edges_hz@, fft@, sample_rate as int, i as int, j as int),
                0 <= acc <= j * SIG_MAX,
            decreases n - j,
        {
            proof {
                assert(0 <= (row@[j as int] as int) * (fft@[j as int] as int) <= SIG_MAX)
                    by (nonlinear_arith)
                    requires
                        0 <= row@[j as int] <= UNIT,
                        0 <= fft@[j as int] <= POW_MAX,
                        UNIT as int * POW_MAX == SIG_MAX,
                ;
            }
            acc = acc + (row[j] as i128) * (fft[j] as i128);
            j = j + 1;
        }
        proof {
            lemma_fdiv_bounds(acc as int, UNIT as int);
            assert(fdiv(acc as int, UNIT as int) <= SIG_MAX) by (nonlinear_arith)
                requires
                    UNIT as int * fdiv(acc as int, UNIT as int) <= acc as int,
                    acc <= LEN_MAX as int * SIG_MAX,
                    fdiv(acc as int, UNIT as int) >= 0,
            ;
        }
        let v = div_floor(acc, UNIT as i128) as i64;
        out.push(v);
        i = i + 1;
    }
    out
}

/// A sequence of non-negative amplitudes with one entry of at least one
/// step has a positive sum.
proof fn lemma_seq_sum_positive(s: Seq<i64>, k: int)
    requires
        forall|i: int| 0 <= i < s.len() ==> #[trigger] s[i] >= 0,
        0 <= k < s.len(),
        s[k] >= 1,
    ensures
        crate::math::seq_sum(s) >= 1,
    decreases s.len(),
{
    if s.len() > 0 {
        if k == s.len() - 1 {
            lemma_seq_sum_nonneg(s.drop_last());
        } else {
            lemma_seq_sum_positive(s.drop_last(), k);
        }
    }
}

/// A sequence of non-negative amplitudes has a non-negative sum.
proof fn lemma_seq_sum_nonneg(s: Seq<i64>)
    requires
        forall|i: int| 0 <= i < s.len() ==> #[trigger] s[i] >= 0,
    ensures
        crate::math::seq_sum(s) >= 0,
    decreases s.len(),
{
    if s.len() > 0 {
        lemma_seq_sum_nonneg(s.drop_last());
    }
}

/// A mel filter row sums to a positive value whenever its edges are
/// ordered and some FFT frequency lands far enough up the rising slope
/// for its fixed-point weight not to round to zero — at least one step
/// of the slope above the lower edge.
pub proof fn lemma_mel_row_sum_positive(
    row: Seq<i64>,
    l: int,
    c: int,
    u: int,
    freqs: Seq<int>,
    k: int,
)
    requires
        l < c < u,
        row.len() == freqs.len(),
        forall|j: int|
            0 <= j < row.len() ==> #[trigger] row[j] as int == mel_weight(l, c, u, freqs[j]),
        0 <= k < freqs.len(),
        l <= freqs[k] <= c,
        (freqs[k] - l) * UNIT >= c - l,
    ensures
        crate::math::seq_sum(row) >= 1,
{
    let f = freqs[k];
    if c <= f {
        lemma_mel_weight_triangular(l, c, u, f, f);
        assert(f == c);
        assert(row[k] >= 1);
    } else {
        lemma_fdiv_bounds((f - l) * UNIT, c - l);
        assert(fdiv((f - l) * UNIT, c - l) >= 1) by (nonlinear_arith)
            requires
                (c - l) * fdiv((f - l) * UNIT, c - l) <= (f - l) * UNIT,
                (f - l) * UNIT < (c - l) * fdiv((f - l) * UNIT, c - l) + (c - l),
                (f - l) * UNIT >= c - l,
                c - l >= 1,
        ;
        assert(row[k] >= 1);
    }
    assert(forall|j: int| 0 <= j < row.len() ==> #[trigger] row[j] >= 0) by {
        assert forall|j: int| 0 <= j < row.len() implies #[trigger] row[j] >= 0 by {
            lemma_mel_weight_bounds(l, c, u, freqs[j]);
        }
    }
    lemma_seq_sum_positive(row, k);
}

/// Projecting an all-zero spectrum yields zero in every mel bin.
pub proof fn lemma_mel_zero_spectrum(
    edges: Seq<i64>,
    fft: Seq<i64>,
    sample_rate: int,
    i: int,
    j: int,
)
    requires
        forall|k: int| 0 <= k < fft.len() ==> #[trigger] fft[k] == 0i64,
        0 <= j <= fft.len(),
    ensures
        mel_row_dot(edges, fft, sample_rate, i, j) == 0,
        fdiv(mel_row_dot(edges, fft, sample_rate, i, j), UNIT as int) == 0,
    decreases j,
{
    if j > 0 {
        lemma_mel_zero_spectrum(edges, fft, sample_rate, i, j - 1);
        let w = mel_weight(
            edges[i] as int,
            edges[i + 1] as int,
            edges[i + 2] as int,
            fft_frequency(sample_rate, fft.len() as int, j - 1),
        );
        assert(w * fft[j - 1] == 0) by (nonlinear_arith)
            requires
                fft[j - 1] == 0i64,
        ;
    }
}

} // verus!
