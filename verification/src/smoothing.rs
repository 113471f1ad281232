//! Exponential smoothing with asymmetric rise and decay factors, and the
//! gain normalizer built on it.
//!
//! One update computes `a * x + (1 - a) * last` in fixed point, where `a`
//! is the rise factor when the input exceeds the state and the decay
//! factor otherwise; the result always lies between the old state and the
//! input.

use vstd::prelude::*;
use vstd::arithmetic::div_mod::{lemma_div_is_ordered, lemma_div_multiples_vanish};

use crate::fixed::{div_floor, fdiv, imin, lemma_fdiv_bounds, SIG_MAX, UNIT};
use crate::math::{lemma_seq_max_is_bound, seq_max, vec_max};

verus! {

/// Rise factor of the gain preset (`0.99` in fixed point).
pub const GAIN_ALPHA_RISE: i64 = 64881;

/// Decay factor of the gain preset (`0.1` in fixed point).
pub const GAIN_ALPHA_DECAY: i64 = 6554;

/// Initial state of the preset filters (`0.1` in fixed point).
pub const FILTER_INIT: i64 = 6554;

/// Rise factor of the smoothing preset (`0.99` in fixed point).
pub const SMOOTH_ALPHA_RISE: i64 = 64881;

/// Decay factor of the smoothing preset (`0.05` in fixed point).
pub const SMOOTH_ALPHA_DECAY: i64 = 3277;

/// One exponential smoothing step: `a * value + (1 - a) * last` scaled
/// back to an amplitude, with the rise factor chosen on a rising input
/// and the decay factor otherwise.
pub open spec fn filter_step(last: int, value: int, a_rise: int, a_decay: int) -> int {
    let a = if value > last {
        a_rise
    } else {
        a_decay
    };
    fdiv(a * value + (UNIT - a) * last, UNIT as int)
}

/// The numerator of a smoothing step stays far inside `i128` range.
proof fn lemma_step_num_bound(a: int, x: int, l: int)
    by (nonlinear_arith)
    requires
        0 <= a <= UNIT,
        -0x8000_0000_0000_0000 <= x <= 0x8000_0000_0000_0000,
        -0x8000_0000_0000_0000 <= l <= 0x8000_0000_0000_0000,
    ensures
        -0x1_0000_0000_0000_0000_0000 <= a * x <= 0x1_0000_0000_0000_0000_0000,
        -0x1_0000_0000_0000_0000_0000 <= (UNIT - a) * l <= 0x1_0000_0000_0000_0000_0000,
        -0x2_0000_0000_0000_0000_0000 <= a * x + (UNIT - a) * l <= 0x2_0000_0000_0000_0000_0000,
{
}

/// A smoothing step lands between its state and its input.
pub proof fn lemma_filter_step_bounds(l: int, v: int, ar: int, ad: int)
    requires
        0 <= ar <= UNIT,
        0 <= ad <= UNIT,
    ensures
        l <= v ==> l <= filter_step(l, v, ar, ad) <= v,
        v <= l ==> v <= filter_step(l, v, ar, ad) <= l,
{
    let a: int = if v > l {
        ar
    } else {
        ad
    };
    let num = a * v + (UNIT - a) * l;
    if l <= v {
        assert(UNIT * l <= num <= UNIT * v) by (nonlinear_arith)
            requires
                0 <= a <= UNIT,
                l <= v,
                num == a * v + (UNIT - a) * l,
        ;
        lemma_div_is_ordered(UNIT as int * l, num, UNIT as int);
        lemma_div_is_ordered(num, UNIT as int * v, UNIT as int);
        lemma_div_multiples_vanish(l, UNIT as int);
        lemma_div_multiples_vanish(v, UNIT as int);
    } else {
        assert(UNIT * v <= num <= UNIT * l) by (nonlinear_arith)
            requires
                0 <= a <= UNIT,
                v <= l,
                num == a * v + (UNIT - a) * l,
        ;
        lemma_div_is_ordered(UNIT as int * v, num, UNIT as int);
        lemma_div_is_ordered(num, UNIT as int * l, UNIT as int);
        lemma_div_multiples_vanish(v, UNIT as int);
        lemma_div_multiples_vanish(l, UNIT as int);
    }
}

/// A rising update moves the state strictly toward the input: whenever
/// the input exceeds the state by enough for the rise factor to bite
/// (`a_rise * (v - l) >= UNIT`), the new state lies strictly between the
/// old state and the input.
pub proof fn lemma_filter_update_strictly_between(l: int, v: int, ar: int, ad: int)
    requires
        0 < ar < UNIT,
        0 <= ad <= UNIT,
        v > l,
        ar * (v - l) >= UNIT,
    ensures
        l < filter_step(l, v, ar, ad) < v,
{
    let num = ar * v + (UNIT - ar) * l;
    assert(num >= UNIT * l + UNIT && num <= UNIT * v - 1) by (nonlinear_arith)
        requires
            0 < ar < UNIT,
            v > l,
            ar * (v - l) >= UNIT,
            num == ar * v + (UNIT - ar) * l,
    ;
    lemma_div_is_ordered(UNIT as int * l + UNIT as int, num, UNIT as int);
    lemma_div_is_ordered(num, UNIT as int * v - 1, UNIT as int);
    lemma_div_multiples_vanish(l + 1, UNIT as int);
    assert(UNIT as int * (l + 1) == UNIT as int * l + UNIT as int) by (nonlinear_arith);
    lemma_fdiv_bounds(UNIT as int * v - 1, UNIT as int);
    assert(fdiv(UNIT as int * v - 1, UNIT as int) < v) by (nonlinear_arith)
        requires
            UNIT as int * fdiv(UNIT as int * v - 1, UNIT as int) <= UNIT as int * v - 1,
    ;
}

/// One-pole exponential filter with separate rise and decay factors.
pub struct ExponentialFilter {
    /// The smoothed state, also the last returned value.
    pub last: i64,
    /// Smoothing factor used when the input exceeds the state.
    pub alpha_rise: i64,
    /// Smoothing factor used otherwise.
    pub alpha_decay: i64,
}

impl ExponentialFilter {
    /// Both factors are fixed-point fractions in `[0, 1]`.
    pub open spec fn wf(&self) -> bool {
        0 <= self.alpha_rise <= UNIT && 0 <= self.alpha_decay <= UNIT
    }

    /// Create a filter from an initial state and the two factors.
    pub fn new(last: i64, alpha_rise: i64, alpha_decay: i64) -> (f: Self)
        requires
            0 <= alpha_rise <= UNIT,
            0 <= alpha_decay <= UNIT,
        ensures
            f.wf(),
            f.last == last,
            f.alpha_rise == alpha_rise,
            f.alpha_decay == alpha_decay,
    {
        ExponentialFilter { last, alpha_rise, alpha_decay }
    }

    /// The preset of a gain filter: slow decay from a small positive
    /// state, near-immediate rise.
    pub fn gain_settings() -> (f: Self)
        ensures
            f.wf(),
            f.last == FILTER_INIT,
            f.alpha_rise == GAIN_ALPHA_RISE,
            f.alpha_decay == GAIN_ALPHA_DECAY,
    {
        ExponentialFilter {
            last: FILTER_INIT,
            alpha_rise: GAIN_ALPHA_RISE,
            alpha_decay: GAIN_ALPHA_DECAY,
        }
    }

    /// Smooth one value: the new state is `filter_step` of the old state
    /// and the input, and lies between the two.
    pub fn update(&mut self, value: i64) -> (r: i64)
        requires
            old(self).wf(),
        ensures
            final(self).wf(),
            final(self).alpha_rise == old(self).alpha_rise,
            final(self).alpha_decay == old(self).alpha_decay,
            r == final(self).last,
            final(self).last as int == filter_step(
                old(self).last as int,
                value as int,
                old(self).alpha_rise as int,
                old(self).alpha_decay as int,
            ),
            old(self).last <= value ==> old(self).last <= final(self).last <= value,
            value <= old(self).last ==> value <= final(self).last <= old(self).last,
    {
        let a = if value > self.last {
            self.alpha_rise
        } else {
            self.alpha_decay
        };
        proof {
            lemma_step_num_bound(a as int, value as int, self.last as int);
            lemma_filter_step_bounds(
                self.last as int,
                value as int,
                self.alpha_rise as int,
                self.alpha_decay as int,
            );
        }
        let num = (a as i128) * (value as i128) + ((UNIT - a) as i128) * (self.last as i128);
        let q = div_floor(num, UNIT as i128);
        self.last = q as i64;
        self.last
    }
}

/// Exponential filter applied lane by lane over a vector, with one state
/// per lane.
pub struct ExponentialVecFilter {
    /// The smoothed state of every lane.
    pub last: Vec<i64>,
    /// Smoothing factor used when an input exceeds its lane's state.
    pub alpha_rise: i64,
    /// Smoothing factor used otherwise.
    pub alpha_decay: i64,
}

impl ExponentialVecFilter {
    /// Both factors are fixed-point fractions in `[0, 1]`.
    pub open spec fn wf(&self) -> bool {
        0 <= self.alpha_rise <= UNIT && 0 <= self.alpha_decay <= UNIT
    }

    /// Create a vector filter from initial lane states and the factors.
    pub fn new(last: Vec<i64>, alpha_rise: i64, alpha_decay: i64) -> (f: Self)
        requires
            0 <= alpha_rise <= UNIT,
            0 <= alpha_decay <= UNIT,
        ensures
            f.wf(),
            f.last == last,
            f.alpha_rise == alpha_rise,
            f.alpha_decay == alpha_decay,
    {
        ExponentialVecFilter { last, alpha_rise, alpha_decay }
    }

    /// The preset of a smoothing filter over preview-sized vectors: `n`
    /// zeroed lanes, near-immediate rise, slow decay.
    pub fn smoothing_settings(n: usize) -> (f: Self)
        ensures
            f.wf(),
            f.last@.len() == n,
            forall|i: int| 0 <= i < n ==> f.last@[i] == 0i64,
            f.alpha_rise == SMOOTH_ALPHA_RISE,
            f.alpha_decay == SMOOTH_ALPHA_DECAY,
    {
        let mut last: Vec<i64> = Vec::new();
        let mut k: usize = 0;
        while k < n
            invariant
                k <= n,
                last@.len() == k,
                forall|i: int| 0 <= i < k ==> last@[i] == 0i64,
            decreases n - k,
        {
            last.push(0i64);
            k = k + 1;
        }
        ExponentialVecFilter {
            last,
            alpha_rise: SMOOTH_ALPHA_RISE,
            alpha_decay: SMOOTH_ALPHA_DECAY,
        }
    }

    /// Smooth a vector in place, lane by lane: each of the first
    /// `min(lanes, inputs)` entries becomes the `filter_step` of its lane
    /// state and its input, the state is set to the same value, and every
    /// entry beyond the shared prefix stays as it was.
    pub fn update(&mut self, values: &mut Vec<i64>)
        requires
            old(self).wf(),
        ensures
            final(self).wf(),
            final(self).alpha_rise == old(self).alpha_rise,
            final(self).alpha_decay == old(self).alpha_decay,
            final(self).last@.len() == old(self).last@.len(),
            final(values)@.len() == old(values)@.len(),
            forall|i: int|
                0 <= i < imin(old(self).last@.len() as int, old(values)@.len() as int)
                    ==> final(values)@[i] as int == filter_step(
                    old(self).last@[i] as int,
                    old(values)@[i] as int,
                    old(self).alpha_rise as int,
                    old(self).alpha_decay as int,
                ) && final(self).last@[i] == final(values)@[i] && (old(self).last@[i] <= old(values)@[i] ==> old(self).last@[i] <= final(values)@[i] <= old(values)@[i]) && (old(values)@[i] <= old(self).last@[i] ==> old(values)@[i] <= final(values)@[i] <= old(self).last@[i]),
            forall|i: int|
                imin(old(self).last@.len() as int, old(values)@.len() as int) <= i
                    < old(values)@.len() ==> final(values)@[i] == old(values)@[i],
            forall|i: int|
                imin(old(self).last@.len() as int, old(values)@.len() as int) <= i < old(self).last@.len() ==> final(self).last@[i] == old(self).last@[i],
    {
        let n = if self.last.len() < values.len() {
            self.last.len()
        } else {
            values.len()
        };
        let mut i: usize = 0;
        while i < n
            invariant
                i <= n,
                n == imin(old(self).last@.len() as int, old(values)@.len() as int),
                self.wf(),
                self.alpha_rise == old(self).alpha_rise,
                self.alpha_decay == old(self).alpha_decay,
                self.last@.len() == old(self).last@.len(),
                values@.len() == old(values)@.len(),
                forall|k: int|
                    0 <= k < i ==> values@[k] as int == filter_step(
                        old(self).last@[k] as int,
                        old(values)@[k] as int,
                        self.alpha_rise as int,
                        self.alpha_decay as int,
                    ) && self.last@[k] == values@[k] && (old(self).last@[k] <= old(values)@[k]
                        ==> old(self).last@[k] <= values@[k] <= old(values)@[k]) && (old(values)@[k] <= old(self).last@[k] ==> old(values)@[k] <= values@[k] <= old(self).last@[k]),
                forall|k: int| i <= k < values@.len() ==> values@[k] == old(values)@[k],
                forall|k: int| i <= k < self.last@.len() ==> self.last@[k] == old(self).last@[k],
            decreases n - i,
        {
            let l = self.last[i];
            let x = values[i];
            let a = if x > l {
                self.alpha_rise
            } else {
                self.alpha_decay
            };
            proof {
                lemma_step_num_bound(a as int, x as int, l as int);
                lemma_filter_step_bounds(
                    l as int,
                    x as int,
                    self.alpha_rise as int,
                    self.alpha_decay as int,
                );
            }
            let num = (a as i128) * (x as i128) + ((UNIT - a) as i128) * (l as i128);
            let q = div_floor(num, UNIT as i128) as i64;
            self.last.set(i, q);
            values.set(i, q);
            i = i + 1;
        }
    }
}

/// The divisor of the gain normalizer: the gain filter's new state, held
/// away from zero.
pub open spec fn gain_divisor(last: int, m: int, a_rise: int, a_decay: int) -> int {
    let g = filter_step(last, m, a_rise, a_decay);
    if g < 1 {
        1
    } else {
        g
    }
}

/// A normalized amplitude is at most three units whenever the gain
/// filter rises at least as fast as `0.9` and starts non-negative.
pub(crate) proof fn lemma_gain_bound(x: int, m: int, l: int, ar: int, ad: int)
    requires
        0 <= x <= m,
        l >= 0,
        58982 <= ar <= UNIT,
        0 <= ad <= UNIT,
    ensures
        0 <= fdiv(x * UNIT, gain_divisor(l, m, ar, ad)) <= 3 * UNIT,
{
    let g = filter_step(l, m, ar, ad);
    let d = gain_divisor(l, m, ar, ad);
    assert(d >= 1);
    lemma_fdiv_bounds(x * UNIT as int, d);
    assert(x * UNIT >= 0) by (nonlinear_arith)
        requires
            x >= 0,
    ;
    if m <= 0 {
        // all entries are zero, so the quotient is zero
        assert(x == 0);
        assert(x * UNIT == 0) by (nonlinear_arith)
            requires
                x == 0,
        ;
        assert(fdiv(0, d) == 0);
    } else if m > l {
        // rising branch: the new gain is at least 0.9 of the maximum
        let num = ar * m + (UNIT - ar) * l;
        assert(num >= 58982 * m) by (nonlinear_arith)
            requires
                ar >= 58982,
                m > 0,
                l >= 0,
                ar <= UNIT,
                num == ar * m + (UNIT - ar) * l,
        ;
        lemma_div_is_ordered(58982 * m, num, UNIT as int);
        let q0 = fdiv(58982 * m, UNIT as int);
        lemma_fdiv_bounds(58982 * m, UNIT as int);
        if m == 1 {
            assert(x * UNIT <= 1 * UNIT) by (nonlinear_arith)
                requires
                    0 <= x <= 1,
            ;
            lemma_div_is_ordered(x * UNIT as int, UNIT as int, d);
            assert(fdiv(UNIT as int, d) <= UNIT) by {
                lemma_fdiv_bounds(UNIT as int, d);
            }
        } else {
            assert(3 * q0 >= m && q0 >= 1) by (nonlinear_arith)
                requires
                    UNIT as int * q0 <= 58982 * m < UNIT as int * q0 + UNIT,
                    m >= 2,
            ;
            assert(g >= q0);
            assert(d == g);
            assert(x * UNIT <= 3 * UNIT * d) by (nonlinear_arith)
                requires
                    0 <= x <= m,
                    m <= 3 * q0,
                    q0 <= d,
            ;
            lemma_div_is_ordered(x * UNIT as int, 3 * UNIT as int * d, d);
            lemma_div_multiples_vanish(3 * UNIT as int, d);
            assert(d * (3 * UNIT as int) == 3 * UNIT as int * d) by (nonlinear_arith);
        }
    } else {
        // decaying branch: the gain stays at or above the maximum
        let num = ad * m + (UNIT - ad) * l;
        assert(num >= UNIT * m) by (nonlinear_arith)
            requires
                0 <= ad <= UNIT,
                0 < m <= l,
                num == ad * m + (UNIT - ad) * l,
        ;
        lemma_div_is_ordered(UNIT as int * m, num, UNIT as int);
        lemma_div_multiples_vanish(m, UNIT as int);
        assert(UNIT as int * m == m * UNIT as int) by (nonlinear_arith);
        assert(g >= m);
        assert(d == g);
        assert(x * UNIT <= UNIT * d) by (nonlinear_arith)
            requires
                0 <= x <= m,
                m <= d,
        ;
        lemma_div_is_ordered(x * UNIT as int, UNIT as int * d, d);
        lemma_div_multiples_vanish(UNIT as int, d);
        assert(d * UNIT as int == UNIT as int * d) by (nonlinear_arith);
    }
}

/// The gain normalizer keeps a non-negative vector within a hair of one:
/// whenever the vector's maximum reaches at least one amplitude unit,
/// every normalized entry is at most `66199 / 65536` (about `1.011`).
/// For a maximum below one unit, the quantization of small gains can
/// exceed this, and only the three-unit bound of the normalizer holds.
pub proof fn lemma_gain_normalizer_bound(x: int, m: int, l: int, ad: int)
    requires
        0 <= x <= m,
        UNIT <= m,
        0 <= l,
        0 <= ad <= UNIT,
    ensures
        0 <= fdiv(x * UNIT, gain_divisor(l, m, GAIN_ALPHA_RISE as int, ad)) <= UNIT + 663,
{
    let g = filter_step(l, m, GAIN_ALPHA_RISE as int, ad);
    let d = gain_divisor(l, m, GAIN_ALPHA_RISE as int, ad);
    lemma_fdiv_bounds(x * UNIT as int, d);
    assert(x * UNIT >= 0) by (nonlinear_arith)
        requires
            x >= 0,
    ;
    if m > l {
        let num = GAIN_ALPHA_RISE as int * m + (UNIT - GAIN_ALPHA_RISE) as int * l;
        assert(num >= 64881 * m) by (nonlinear_arith)
            requires
                m > 0,
                l >= 0,
                num == 64881 * m + (65536 - 64881) * l,
        ;
        lemma_div_is_ordered(64881 * m, num, UNIT as int);
        let q0 = fdiv(64881 * m, UNIT as int);
        lemma_fdiv_bounds(64881 * m, UNIT as int);
        assert(65536 * q0 >= 64880 * m && q0 >= 1) by (nonlinear_arith)
            requires
                65536 * q0 <= 64881 * m < 65536 * q0 + 65536,
                m >= 65536,
        ;
        assert(g >= q0);
        assert(d == g);
        assert(x * UNIT < d * ((UNIT as int) + 664)) by (nonlinear_arith)
            requires
                0 <= x <= m,
                65536 * q0 >= 64880 * m,
                q0 <= d,
                m >= 1,
        ;
        lemma_fdiv_bounds(x * UNIT as int, d);
        assert(fdiv(x * UNIT as int, d) <= UNIT + 663) by (nonlinear_arith)
            requires
                d * fdiv(x * UNIT as int, d) <= x * UNIT as int,
                x * (UNIT as int) < d * ((UNIT as int) + 664),
                d >= 1,
        ;
    } else {
        let num = ad * m + (UNIT - ad) * l;
        assert(num >= UNIT * m) by (nonlinear_arith)
            requires
                0 <= ad <= UNIT,
                0 < m <= l,
                num == ad * m + (UNIT - ad) * l,
        ;
        lemma_div_is_ordered(UNIT as int * m, num, UNIT as int);
        lemma_div_multiples_vanish(m, UNIT as int);
        assert(UNIT as int * m == m * UNIT as int) by (nonlinear_arith);
        assert(g >= m);
        assert(d == g);
        assert(x * UNIT <= UNIT * d) by (nonlinear_arith)
            requires
                0 <= x <= m,
                m <= d,
        ;
        lemma_div_is_ordered(x * UNIT as int, UNIT as int * d, d);
        lemma_div_multiples_vanish(UNIT as int, d);
        assert(d * UNIT as int == UNIT as int * d) by (nonlinear_arith);
    }
}

/// Normalize a non-negative vector by its running gain: feed the
/// vector's maximum to the gain filter and divide every entry by the
/// filter's output, held away from zero.  An empty vector leaves both
/// the vector and the filter untouched.
pub fn apply_gain_filter(buffer: &mut Vec<i64>, filter: &mut ExponentialFilter)
    requires
        old(filter).wf(),
        forall|i: int| 0 <= i < old(buffer)@.len() ==> 0 <= #[trigger] old(buffer)@[i] <= SIG_MAX,
    ensures
        final(filter).wf(),
        final(filter).alpha_rise == old(filter).alpha_rise,
        final(filter).alpha_decay == old(filter).alpha_decay,
        final(buffer)@.len() == old(buffer)@.len(),
        old(buffer)@.len() == 0 ==> *final(filter) == *old(filter) && final(buffer)@ == old(buffer)@,
        old(buffer)@.len() > 0 ==> final(filter).last as int == filter_step(
            old(filter).last as int,
            seq_max(old(buffer)@),
            old(filter).alpha_rise as int,
            old(filter).alpha_decay as int,
        ) && forall|i: int|
            0 <= i < old(buffer)@.len() ==> final(buffer)@[i] as int == fdiv(
                old(buffer)@[i] * UNIT,
                gain_divisor(
                    old(filter).last as int,
                    seq_max(old(buffer)@),
                    old(filter).alpha_rise as int,
                    old(filter).alpha_decay as int,
                ),
            ),
        old(buffer)@.len() > 0 && old(filter).last >= 0 && old(filter).alpha_rise >= 58982
            ==> forall|i: int|
            0 <= i < final(buffer)@.len() ==> 0 <= #[trigger] final(buffer)@[i] <= 3 * UNIT,
{
    if buffer.len() == 0 {
        return ;
    }
    let m = vec_max(buffer);
    proof {
        lemma_seq_max_is_bound(buffer@);
    }
    let g = filter.update(m);
    let d = if g < 1 {
        1
    } else {
        g
    };
    let n = buffer.len();
    let mut i: usize = 0;
    while i < n
        invariant
            i <= n,
            n == buffer@.len(),
            n == old(buffer)@.len(),
            n > 0,
            old(filter).wf(),
            d as int == gain_divisor(
                old(filter).last as int,
                seq_max(old(buffer)@),
                old(filter).alpha_rise as int,
                old(filter).alpha_decay as int,
            ),
            d >= 1,
            forall|k: int| 0 <= k < old(buffer)@.len() ==> 0 <= #[trigger] old(buffer)@[k] <= SIG_MAX,
            forall|k: int| i <= k < n ==> buffer@[k] == old(buffer)@[k],
            forall|k: int|
                0 <= k < i ==> buffer@[k] as int == fdiv(old(buffer)@[k] * UNIT, d as int),
            old(filter).last >= 0 && old(filter).alpha_rise >= 58982 ==> forall|k: int|
                0 <= k < i ==> 0 <= #[trigger] buffer@[k] <= 3 * UNIT,
        decreases n - i,
    {
        let x = buffer[i];
        proof {
            assert(0 <= x * UNIT <= SIG_MAX * UNIT) by (nonlinear_arith)
                requires
                    0 <= x <= SIG_MAX,
            ;
            lemma_seq_max_is_bound(old(buffer)@);
            if old(filter).last >= 0 && old(filter).alpha_rise >= 58982 {
                lemma_gain_bound(
                    x as int,
                    seq_max(old(buffer)@),
                    old(filter).last as int,
                    old(filter).alpha_rise as int,
                    old(filter).alpha_decay as int,
                );
            }
        }
        let q = div_floor((x as i128) * (UNIT as i128), d as i128);
        buffer.set(i, q as i64);
        i = i + 1;
    }
}

/// Smooth a vector in place with the given vector filter.
pub fn apply_smoothing_filter(buffer: &mut Vec<i64>, filter: &mut ExponentialVecFilter)
    requires
        old(filter).wf(),
    ensures
        final(filter).wf(),
        final(filter).alpha_rise == old(filter).alpha_rise,
        final(filter).alpha_decay == old(filter).alpha_decay,
        final(filter).last@.len() == old(filter).last@.len(),
        final(buffer)@.len() == old(buffer)@.len(),
        forall|i: int|
            0 <= i < imin(old(filter).last@.len() as int, old(buffer)@.len() as int)
                ==> final(buffer)@[i] as int == filter_step(
                old(filter).last@[i] as int,
                old(buffer)@[i] as int,
                old(filter).alpha_rise as int,
                old(filter).alpha_decay as int,
            ) && final(filter).last@[i] == final(buffer)@[i] && (old(filter).last@[i] <= old(buffer)@[i] ==> old(filter).last@[i] <= final(buffer)@[i] <= old(buffer)@[i]) && (old(buffer)@[i] <= old(filter).last@[i] ==> old(buffer)@[i] <= final(buffer)@[i] <= old(filter).last@[i]),
        forall|i: int|
            imin(old(filter).last@.len() as int, old(buffer)@.len() as int) <= i
                < old(buffer)@.len() ==> final(buffer)@[i] == old(buffer)@[i],
        forall|i: int|
            imin(old(filter).last@.len() as int, old(buffer)@.len() as int) <= i < old(filter).last@.len() ==> final(filter).last@[i] == old(filter).last@[i],
{
    filter.update(buffer);
}

} // verus!
