//! Vector arithmetic shared by the DSP stages and the effects: elementwise
//! products, linearly spaced grids, mirroring, and the transpose step that
//! colors an intensity vector into a DMX byte buffer.

use vstd::prelude::*;
use vstd::arithmetic::div_mod::lemma_fundamental_div_mod;

use crate::fixed::{
    clamp, div_floor, div_floor64, fdiv, round_unit, round_unit_exec, HALF_UNIT, LEN_MAX, SIG_MAX,
    SUM_MAX, UNIT,
};

verus! {

/// The errors of the vector arithmetic.
#[derive(Debug, Clone, Copy, PartialEq, Eq, Structural)]
pub enum MathError {
    /// Two vectors that must be equally long are not.
    NoEqualLength,
}

/// An identical copy of an amplitude vector.
pub fn copy_vec(v: &Vec<i64>) -> (r: Vec<i64>)
    ensures
        r@ == v@,
{
    let n = v.len();
    let mut r: Vec<i64> = Vec::new();
    let mut i: usize = 0;
    while i < n
        invariant
            i <= n,
            n == v@.len(),
            r@.len() == i,
            forall|k: int| 0 <= k < i ==> r@[k] == v@[k],
        decreases n - i,
    {
        r.push(v[i]);
        i = i + 1;
    }
    proof {
        assert(r@ =~= v@);
    }
    r
}

/// Sum of the squares of a sequence of amplitudes.
pub open spec fn seq_sum_sq(s: Seq<i64>) -> int
    decreases s.len(),
{
    if s.len() == 0 {
        0
    } else {
        seq_sum_sq(s.drop_last()) + s.last() * s.last()
    }
}

/// Sum of a sequence of amplitudes, as an unbounded integer.
pub open spec fn seq_sum(s: Seq<i64>) -> int
    decreases s.len(),
{
    if s.len() == 0 {
        0
    } else {
        seq_sum(s.drop_last()) + s.last()
    }
}

/// Maximum of a non-empty sequence of amplitudes; `0` for an empty one.
pub open spec fn seq_max(s: Seq<i64>) -> int
    decreases s.len(),
{
    if s.len() == 0 {
        0
    } else if s.len() == 1 {
        s[0] as int
    } else {
        let rest = seq_max(s.drop_last());
        if s.last() > rest {
            s.last() as int
        } else {
            rest
        }
    }
}

/// The maximum of a non-empty sequence bounds every entry and is reached
/// by one of them.
pub proof fn lemma_seq_max_is_bound(s: Seq<i64>)
    requires
        s.len() > 0,
    ensures
        forall|i: int| 0 <= i < s.len() ==> #[trigger] s[i] as int <= seq_max(s),
        exists|i: int| 0 <= i < s.len() && #[trigger] s[i] as int == seq_max(s),
    decreases s.len(),
{
    if s.len() == 1 {
        assert(s[0] as int == seq_max(s));
    } else {
        lemma_seq_max_is_bound(s.drop_last());
        assert(forall|i: int| 0 <= i < s.len() - 1 ==> s.drop_last()[i] == #[trigger] s[i]);
        let j = choose|j: int|
            0 <= j < s.len() - 1 && #[trigger] s.drop_last()[j] as int == seq_max(s.drop_last());
        if s.last() as int > seq_max(s.drop_last()) {
            assert(s[s.len() - 1] as int == seq_max(s));
        } else {
            assert(s[j] as int == seq_max(s));
        }
    }
}

/// Sum of a non-negative amplitude vector; stays within `SUM_MAX`.
pub fn vec_sum(v: &Vec<i64>) -> (s: i64)
    requires
        v@.len() <= LEN_MAX,
        forall|i: int| 0 <= i < v@.len() ==> 0 <= #[trigger] v@[i] <= SIG_MAX,
    ensures
        s == seq_sum(v@),
        0 <= s <= SUM_MAX,
{
    let n = v.len();
    let mut s: i64 = 0;
    let mut i: usize = 0;
    while i < n
        invariant
            i <= n,
            n == v@.len(),
            n <= LEN_MAX,
            forall|k: int| 0 <= k < v@.len() ==> 0 <= #[trigger] v@[k] <= SIG_MAX,
            s == seq_sum(v@.take(i as int)),
            0 <= s <= i * SIG_MAX,
        decreases n - i,
    {
        proof {
            assert(v@.take(i + 1).drop_last() =~= v@.take(i as int));
            assert(v@.take(i + 1).last() == v@[i as int]);
        }
        s = s + v[i];
        i = i + 1;
    }
    proof {
        assert(v@.take(v@.len() as int) =~= v@);
    }
    s
}

/// The largest entry of a non-empty amplitude vector.
pub fn vec_max(v: &Vec<i64>) -> (m: i64)
    requires
        v@.len() > 0,
    ensures
        m == seq_max(v@),
{
    let mut m = v[0];
    let mut i: usize = 1;
    proof {
        assert(v@.take(1) =~= seq![v@[0]]);
    }
    while i < v.len()
        invariant
            1 <= i <= v@.len(),
            m == seq_max(v@.take(i as int)),
        decreases v@.len() - i,
    {
        proof {
            assert(v@.take(i + 1).drop_last() =~= v@.take(i as int));
            assert(v@.take(i + 1).last() == v@[i as int]);
        }
        if v[i] > m {
            m = v[i];
        }
        i = i + 1;
    }
    proof {
        assert(v@.take(v@.len() as int) =~= v@);
    }
    m
}

/// The byte a single amplitude `v` yields under one color channel `c`:
/// `v * c` scaled back to amplitude, rounded half away from zero, and
/// saturated into a byte.
pub open spec fn transpose_byte(v: int, c: int) -> u8 {
    clamp(round_unit(v * c), 0, 255) as u8
}

/// A zero intensity yields a zero byte under every color channel: a
/// silent frame stays dark after the start code.
pub proof fn lemma_transpose_byte_zero(c: int)
    ensures
        transpose_byte(0, c) == 0u8,
{
    assert(0 * c == 0) by (nonlinear_arith);
    assert(round_unit(0) == 0);
}

/// Under a full-intensity channel (255), an amplitude in `[0, 1]` maps
/// to exactly its rounded 255-fold: the saturation never bites.
pub proof fn lemma_transpose_byte_white(v: int)
    requires
        0 <= v <= UNIT,
    ensures
        transpose_byte(v, 255) as int == round_unit(v * 255),
{
    assert(0 <= v * 255 <= UNIT * 255) by (nonlinear_arith)
        requires
            0 <= v <= UNIT,
    ;
    lemma_fundamental_div_mod(v * 255 + HALF_UNIT, UNIT as int);
    assert(round_unit(v * 255) <= 255) by {
        vstd::arithmetic::div_mod::lemma_div_is_ordered(
            v * 255 + HALF_UNIT,
            UNIT as int * 255 + HALF_UNIT,
            UNIT as int,
        );
        assert(fdiv(UNIT as int * 255 + HALF_UNIT, UNIT as int) == 255) by {
            vstd::arithmetic::div_mod::lemma_fundamental_div_mod_converse(
                UNIT as int * 255 + HALF_UNIT,
                UNIT as int,
                255,
                HALF_UNIT as int,
            );
        }
    }
    assert(round_unit(v * 255) >= 0) by {
        crate::fixed::lemma_fdiv_bounds(v * 255 + HALF_UNIT, UNIT as int);
    }
}

fn transpose_byte_exec(v: i64, c: u8) -> (b: u8)
    requires
        -SIG_MAX <= v <= SIG_MAX,
    ensures
        b == transpose_byte(v as int, c as int),
{
    proof {
        assert(-SIG_MAX * 255 <= v * (c as int) <= SIG_MAX * 255) by (nonlinear_arith)
            requires
                -SIG_MAX <= v <= SIG_MAX,
                0 <= c <= 255,
        ;
    }
    let t = v * (c as i64);
    let r = round_unit_exec(t);
    if r < 0 {
        0
    } else if r > 255 {
        255
    } else {
        r as u8
    }
}

/// A byte buffer of `n` zeros.
fn zero_bytes(n: usize) -> (out: Vec<u8>)
    ensures
        out@.len() == n,
        forall|i: int| 0 <= i < n ==> out@[i] == 0u8,
{
    let mut out: Vec<u8> = Vec::new();
    let mut k: usize = 0;
    while k < n
        invariant
            k <= n,
            out@.len() == k,
            forall|i: int| 0 <= i < k ==> out@[i] == 0u8,
        decreases n - k,
    {
        out.push(0u8);
        k = k + 1;
    }
    out
}

/// Expand an intensity vector into a DMX byte buffer: byte 0 is the DMX
/// start code `0`, and each intensity from index 1 on yields its three
/// color bytes in turn.  The first intensity is skipped, so the final
/// three bytes stay zero.
pub fn transpose(x: &Vec<i64>, color: [u8; 3]) -> (out: Vec<u8>)
    requires
        forall|i: int| 0 <= i < x@.len() ==> -SIG_MAX <= #[trigger] x@[i] <= SIG_MAX,
        x@.len() <= LEN_MAX,
    ensures
        out@.len() == 3 * x@.len() + 1,
        out@[0] == 0u8,
        forall|i: int|
            1 <= i < x@.len() ==> out@[3 * i - 2] == transpose_byte(x@[i] as int, color[0] as int)
                && out@[3 * i - 1] == transpose_byte(x@[i] as int, color[1] as int) && out@[3 * i]
                == transpose_byte(x@[i] as int, color[2] as int),
        x@.len() >= 1 ==> out@[3 * x@.len() - 2] == 0u8 && out@[3 * x@.len() - 1] == 0u8 && out@[(3
            * x@.len()) as int] == 0u8,
{
    let n = x.len();
    let mut out = zero_bytes(n * 3 + 1);
    let mut i: usize = 1;
    while i < n
        invariant
            1 <= i,
            i <= n || n == 0,
            n == x@.len(),
            n <= LEN_MAX,
            out@.len() == 3 * n + 1,
            out@[0] == 0u8,
            forall|k: int| 3 * i - 2 <= k < 3 * n + 1 ==> out@[k] == 0u8,
            forall|j: int|
                1 <= j < i ==> out@[3 * j - 2] == transpose_byte(x@[j] as int, color[0] as int)
                    && out@[3 * j - 1] == transpose_byte(x@[j] as int, color[1] as int) && out@[3
                    * j] == transpose_byte(x@[j] as int, color[2] as int),
            forall|k: int| 0 <= k < x@.len() ==> -SIG_MAX <= #[trigger] x@[k] <= SIG_MAX,
        decreases n - i,
    {
        let v = x[i];
        let b0 = transpose_byte_exec(v, color[0]);
        let b1 = transpose_byte_exec(v, color[1]);
        let b2 = transpose_byte_exec(v, color[2]);
        out.set(3 * i - 2, b0);
        out.set(3 * i - 1, b1);
        out.set(3 * i, b2);
        i = i + 1;
    }
    out
}

/// Elementwise product of two amplitude vectors, the second one a weight
/// vector with entries in `[-1, 1]`; fails when the lengths differ.
pub fn array_product(a: &Vec<i64>, b: &Vec<i64>) -> (out: Result<Vec<i64>, MathError>)
    requires
        forall|i: int| 0 <= i < a@.len() ==> -SIG_MAX <= #[trigger] a@[i] <= SIG_MAX,
        forall|i: int| 0 <= i < b@.len() ==> -UNIT <= #[trigger] b@[i] <= UNIT,
    ensures
        out is Ok <==> a@.len() == b@.len(),
        out matches Ok(o) ==> o@.len() == a@.len() && forall|i: int|
            0 <= i < a@.len() ==> o@[i] == fdiv(a@[i] * b@[i], UNIT as int) && -SIG_MAX <= #[
                trigger
            ] o@[i] <= SIG_MAX,
        out matches Err(e) ==> e == MathError::NoEqualLength,
{
    if a.len() != b.len() {
        return Err(MathError::NoEqualLength);
    }
    let n = a.len();
    let mut o: Vec<i64> = Vec::new();
    let mut i: usize = 0;
    while i < n
        invariant
            i <= n,
            n == a@.len(),
            n == b@.len(),
            o@.len() == i,
            forall|k: int| 0 <= k < a@.len() ==> -SIG_MAX <= #[trigger] a@[k] <= SIG_MAX,
            forall|k: int| 0 <= k < b@.len() ==> -UNIT <= #[trigger] b@[k] <= UNIT,
            forall|k: int|
                0 <= k < i ==> o@[k] == fdiv(a@[k] * b@[k], UNIT as int) && -SIG_MAX <= #[trigger] o@[k]
                    <= SIG_MAX,
        decreases n - i,
    {
        proof {
            assert(-SIG_MAX * UNIT <= a@[i as int] * b@[i as int] <= SIG_MAX * UNIT) by (nonlinear_arith)
                requires
                    -SIG_MAX <= a@[i as int] <= SIG_MAX,
                    -UNIT <= b@[i as int] <= UNIT,
            ;
            assert(-SIG_MAX <= fdiv(a@[i as int] * b@[i as int], UNIT as int) <= SIG_MAX)
                by (nonlinear_arith)
                requires
                    -SIG_MAX * UNIT <= a@[i as int] * b@[i as int] <= SIG_MAX * UNIT,
            ;
        }
        let p = div_floor((a[i] as i128) * (b[i] as i128), UNIT as i128);
        o.push(p as i64);
        i = i + 1;
    }
    Ok(o)
}

/// `n` values linearly spaced from `x0` on, with the step
/// `(xend - x0) / (n - 1)`: an exact arithmetic progression whose last
/// value sits within one step of `xend`.
pub fn linspace(x0: i64, xend: i64, n: usize) -> (out: Vec<i64>)
    requires
        n >= 1,
        -SIG_MAX <= x0 <= SIG_MAX,
        -SIG_MAX <= xend <= SIG_MAX,
        n <= LEN_MAX,
    ensures
        out@.len() == n,
        out@[0] == x0,
        forall|i: int|
            0 <= i < n ==> out@[i] == x0 + fdiv(xend - x0, n - 1) * i && -4 * SIG_MAX <= #[trigger] out@[i]
                <= 4 * SIG_MAX,
{
    let ghost diff: int = xend as int - x0 as int;
    let delta: i64 = if n >= 2 {
        div_floor64(xend - x0, (n - 1) as i64)
    } else {
        0
    };
    let ghost rem: int = if n >= 2 {
        diff % (n as int - 1)
    } else {
        0int
    };
    proof {
        if n >= 2 {
            lemma_fundamental_div_mod(diff, n as int - 1);
        }
    }
    let mut out: Vec<i64> = Vec::new();
    let mut i: usize = 0;
    while i < n
        invariant
            i <= n,
            n >= 1,
            n <= LEN_MAX,
            -SIG_MAX <= x0 <= SIG_MAX,
            diff == xend as int - x0 as int,
            -2 * SIG_MAX <= diff <= 2 * SIG_MAX,
            n >= 2 ==> delta == fdiv(xend - x0, n - 1) && diff == (n - 1) * delta + rem && 0 <= rem
                < n - 1,
            n == 1 ==> delta == 0,
            out@.len() == i,
            forall|k: int|
                0 <= k < i ==> out@[k] == x0 + delta * k && -4 * SIG_MAX <= #[trigger] out@[k] <= 4
                    * SIG_MAX,
        decreases n - i,
    {
        proof {
            if n >= 2 {
                assert(-3 * SIG_MAX <= delta * i <= 2 * SIG_MAX) by (nonlinear_arith)
                    requires
                        diff == (n as int - 1) * delta + rem,
                        0 <= rem < n as int - 1,
                        0 <= i <= n as int - 1,
                        -2 * SIG_MAX <= diff <= 2 * SIG_MAX,
                        2 <= n <= LEN_MAX,
                        LEN_MAX < SIG_MAX,
                ;
            } else {
                assert(delta * i == 0) by (nonlinear_arith)
                    requires
                        delta == 0,
                ;
            }
        }
        let step = (delta as i128) * (i as i128);
        out.push((x0 as i128 + step) as i64);
        i = i + 1;
    }
    proof {
        assert(forall|q: int| #[trigger] (q * 0) == 0) by (nonlinear_arith);
    }
    out
}

/// A reversed copy of an amplitude vector.
pub fn clone_flip(v: &Vec<i64>) -> (r: Vec<i64>)
    ensures
        r@.len() == v@.len(),
        forall|i: int| 0 <= i < v@.len() ==> r@[i] == v@[v@.len() - 1 - i],
{
    let n = v.len();
    let mut r: Vec<i64> = Vec::new();
    let mut i: usize = 0;
    while i < n
        invariant
            i <= n,
            n == v@.len(),
            r@.len() == i,
            forall|k: int| 0 <= k < i ==> r@[k] == v@[n - 1 - k],
        decreases n - i,
    {
        r.push(v[n - 1 - i]);
        i = i + 1;
    }
    r
}

} // verus!
