//! The normalized square-difference function (NSDF) over candidate lags,
//! and the signal-power measure, in exact fixed-point arithmetic.
//!
//! For a window `w` of length `n` and a lag `tau`, the detector uses
//!
//! * `corr(w, tau)   = sum of w[i] * w[i + tau]           for i in 0..n-tau`
//! * `norm(w, tau)   = sum of w[i]^2 + w[i + tau]^2       for i in 0..n-tau`
//! * `nsdf = 2 * corr / norm`, a real value in `[-1, 1]`,
//!
//! stored as the truncated fixed-point value `nsdf_at` in the
//! [`crate::params::NSDF_SCALE`] scale. A product of two 16-bit samples is
//! at most `0x4000_0000`, and at most [`crate::params::MAX_WINDOW`] such
//! terms are summed, so every accumulator provably fits in an `i64`.

use vstd::prelude::*;

use crate::params::{MAX_WINDOW, NSDF_SCALE};

verus! {

/// Sum of `w[i]^2` over `i in 0..k`: the signal energy of the first `k`
/// samples of the window.
pub open spec fn power_prefix(w: Seq<i16>, k: int) -> int
    recommends
        k <= w.len(),
    decreases k,
{
    if k <= 0 {
        0
    } else {
        power_prefix(w, k - 1) + w[k - 1] * w[k - 1]
    }
}

/// Signal energy of the whole window.
pub open spec fn power_of(w: Seq<i16>) -> int {
    power_prefix(w, w.len() as int)
}

/// Autocorrelation prefix: sum of `w[i] * w[i + tau]` over `i in 0..k`.
pub open spec fn corr_prefix(w: Seq<i16>, tau: int, k: int) -> int
    recommends
        0 <= tau,
        k + tau <= w.len(),
    decreases k,
{
    if k <= 0 {
        0
    } else {
        corr_prefix(w, tau, k - 1) + w[k - 1] * w[k - 1 + tau]
    }
}

/// Autocorrelation of the window at lag `tau`, over all overlapping pairs.
pub open spec fn corr(w: Seq<i16>, tau: int) -> int {
    corr_prefix(w, tau, w.len() - tau)
}

/// Normalizer prefix: sum of `w[i]^2 + w[i + tau]^2` over `i in 0..k`.
pub open spec fn norm_prefix(w: Seq<i16>, tau: int, k: int) -> int
    recommends
        0 <= tau,
        k + tau <= w.len(),
    decreases k,
{
    if k <= 0 {
        0
    } else {
        norm_prefix(w, tau, k - 1) + w[k - 1] * w[k - 1] + w[k - 1 + tau] * w[k - 1 + tau]
    }
}

/// Normalizer of the window at lag `tau`.
pub open spec fn norm(w: Seq<i16>, tau: int) -> int {
    norm_prefix(w, tau, w.len() - tau)
}

/// Truncating division of `a` by a positive `b` (rounds toward zero, as the
/// executable code computes it on the separated sign and magnitude).
pub open spec fn trunc_div(a: int, b: int) -> int
    recommends
        0 < b,
{
    if a >= 0 {
        a / b
    } else {
        -((-a) / b)
    }
}

/// The NSDF value at lag `tau`, truncated to the `NSDF_SCALE` fixed-point
/// grid. A lag whose normalizer is zero (all involved samples are zero)
/// is defined to have the value 0.
pub open spec fn nsdf_at(w: Seq<i16>, tau: int) -> int {
    if norm(w, tau) == 0 {
        0
    } else {
        trunc_div(2 * corr(w, tau) * NSDF_SCALE, norm(w, tau))
    }
}

/// The NSDF of the window over all examined lags `0 .. len/2`.
pub open spec fn nsdf_seq(w: Seq<i16>) -> Seq<int> {
    Seq::new((w.len() / 2) as nat, |tau: int| nsdf_at(w, tau))
}

/// A `Vec` of fixed-point values, read as a sequence of integers.
pub open spec fn int_seq(q: Seq<i64>) -> Seq<int> {
    q.map_values(|v: i64| v as int)
}

/// The product of two samples lies in `[-0x4000_0000, 0x4000_0000]`, and
/// twice the product is dominated by the sum of the squares.
proof fn lemma_sample_product(a: int, b: int)
    by (nonlinear_arith)
    requires
        -0x8000 <= a <= 0x7fff,
        -0x8000 <= b <= 0x7fff,
    ensures
        -0x4000_0000 <= a * b <= 0x4000_0000,
        0 <= a * a <= 0x4000_0000,
        0 <= b * b <= 0x4000_0000,
        2 * (a * b) <= a * a + b * b,
        -(a * a + b * b) <= 2 * (a * b),
{
}

/// Bounds on the autocorrelation and normalizer prefixes, and the
/// domination `|2 * corr_prefix| <= norm_prefix` (term by term from
/// `2ab <= a^2 + b^2`) that keeps the NSDF within `[-1, 1]`.
pub proof fn lemma_prefix_bounds(w: Seq<i16>, tau: int, k: int)
    requires
        0 <= tau,
        0 <= k,
        k + tau <= w.len(),
    ensures
        -(k * 0x4000_0000) <= corr_prefix(w, tau, k) <= k * 0x4000_0000,
        0 <= norm_prefix(w, tau, k) <= k * 0x8000_0000,
        2 * corr_prefix(w, tau, k) <= norm_prefix(w, tau, k),
        -norm_prefix(w, tau, k) <= 2 * corr_prefix(w, tau, k),
    decreases k,
{
    if k > 0 {
        lemma_prefix_bounds(w, tau, k - 1);
        lemma_sample_product(w[k - 1] as int, w[k - 1 + tau] as int);
    }
}

/// Over a prefix where the window repeats itself exactly at lag `tau`,
/// twice the autocorrelation equals the normalizer (each term satisfies
/// `2ab == a^2 + b^2` when `a == b`).
proof fn lemma_periodic_prefix(w: Seq<i16>, tau: int, k: int)
    requires
        0 <= tau,
        0 <= k,
        k + tau <= w.len(),
        forall|i: int| 0 <= i < k ==> #[trigger] w[i] == w[i + tau],
    ensures
        2 * corr_prefix(w, tau, k) == norm_prefix(w, tau, k),
    decreases k,
{
    if k > 0 {
        lemma_periodic_prefix(w, tau, k - 1);
        assert(w[k - 1] == w[k - 1 + tau]);
    }
}

/// A window that repeats itself exactly at lag `tau`, and is not silent
/// over the overlap, attains the maximal NSDF value at that lag. This is
/// the exactly provable half of the pure-tone behaviour; how close a
/// sampled sine comes to it is exercised by the tests.
pub proof fn lemma_exact_period_full_clarity(w: Seq<i16>, tau: int)
    requires
        0 <= tau <= w.len(),
        forall|i: int| 0 <= i < w.len() - tau ==> #[trigger] w[i] == w[i + tau],
        norm(w, tau) != 0,
    ensures
        nsdf_at(w, tau) == NSDF_SCALE,
{
    let r = corr(w, tau);
    let m = norm(w, tau);
    lemma_prefix_bounds(w, tau, w.len() - tau);
    lemma_periodic_prefix(w, tau, w.len() - tau);
    assert(2 * r == m);
    assert(0 < m);
    let a = 2 * r * NSDF_SCALE;
    assert(a == m * NSDF_SCALE) by (nonlinear_arith)
        requires
            a == 2 * r * NSDF_SCALE,
            2 * r == m,
    ;
    assert(0 <= a) by (nonlinear_arith)
        requires
            a == m * NSDF_SCALE,
            0 < m,
            NSDF_SCALE == 1_000_000,
    ;
    assert(m * NSDF_SCALE == NSDF_SCALE * m) by (nonlinear_arith);
    vstd::arithmetic::div_mod::lemma_div_multiples_vanish(NSDF_SCALE as int, m);
}

/// The NSDF value of any lag lies within one fixed-point unit:
/// `-NSDF_SCALE <= nsdf_at <= NSDF_SCALE`.
pub proof fn lemma_nsdf_at_bounds(w: Seq<i16>, tau: int)
    requires
        0 <= tau <= w.len(),
    ensures
        -NSDF_SCALE <= nsdf_at(w, tau) <= NSDF_SCALE,
{
    let r = corr(w, tau);
    let m = norm(w, tau);
    lemma_prefix_bounds(w, tau, w.len() - tau);
    if m != 0 {
        lemma_scaled_ratio_bounds(r, m);
    }
}

/// The scaled truncated ratio `2 r * NSDF_SCALE / m` stays within one
/// fixed-point unit whenever `|2 r| <= m`.
proof fn lemma_scaled_ratio_bounds(r: int, m: int)
    requires
        0 < m,
        2 * r <= m,
        -m <= 2 * r,
    ensures
        -NSDF_SCALE <= trunc_div(2 * r * NSDF_SCALE, m) <= NSDF_SCALE,
        0 <= r ==> 0 <= trunc_div(2 * r * NSDF_SCALE, m),
        r < 0 ==> trunc_div(2 * r * NSDF_SCALE, m) <= 0,
{
    let a = 2 * r * NSDF_SCALE;
    assert(m * NSDF_SCALE == NSDF_SCALE * m) by (nonlinear_arith);
    vstd::arithmetic::div_mod::lemma_div_multiples_vanish(NSDF_SCALE as int, m);
    if r >= 0 {
        assert(0 <= a && a <= m * NSDF_SCALE) by (nonlinear_arith)
            requires
                a == 2 * r * NSDF_SCALE,
                0 <= r,
                2 * r <= m,
                NSDF_SCALE == 1_000_000,
        ;
        vstd::arithmetic::div_mod::lemma_div_is_ordered(a, m * NSDF_SCALE, m);
        vstd::arithmetic::div_mod::lemma_div_pos_is_pos(a, m);
    } else {
        assert(0 <= -a && -a <= m * NSDF_SCALE) by (nonlinear_arith)
            requires
                a == 2 * r * NSDF_SCALE,
                r < 0,
                -m <= 2 * r,
                0 < m,
                NSDF_SCALE == 1_000_000,
        ;
        vstd::arithmetic::div_mod::lemma_div_is_ordered(-a, m * NSDF_SCALE, m);
        vstd::arithmetic::div_mod::lemma_div_pos_is_pos(-a, m);
    }
}

/// Signal energy of the first `window_size` samples of `samples`, in the
/// sample fixed-point scale.
pub fn compute_power(samples: &Vec<i16>, window_size: usize) -> (p: i64)
    requires
        window_size <= samples@.len(),
        window_size <= MAX_WINDOW,
    ensures
        p as int == power_prefix(samples@.take(window_size as int), window_size as int),
        0 <= p,
{
    let ghost w = samples@.take(window_size as int);
    let mut acc: i64 = 0;
    let mut i: usize = 0;
    while i < window_size
        invariant
            0 <= i <= window_size,
            window_size <= samples@.len(),
            window_size <= MAX_WINDOW,
            w == samples@.take(window_size as int),
            acc as int == power_prefix(w, i as int),
            0 <= acc <= (i as int) * 0x4000_0000,
        decreases window_size - i,
    {
        let s: i64 = samples[i] as i64;
        proof {
            assert(w[i as int] == samples@[i as int]);
            lemma_sample_product(s as int, s as int);
        }
        acc = acc + s * s;
        i = i + 1;
    }
    acc
}

/// One NSDF entry from the accumulated autocorrelation `r` and normalizer
/// `m` of its lag: the truncated fixed-point quotient `2 r * SCALE / m`.
fn nsdf_value(r: i64, m: i64) -> (v: i64)
    requires
        0 <= m,
        2 * r <= m,
        -m <= 2 * r,
    ensures
        v as int == (if m == 0 {
            0int
        } else {
            trunc_div(2 * (r as int) * NSDF_SCALE, m as int)
        }),
        -NSDF_SCALE <= v <= NSDF_SCALE,
{
    if m == 0 {
        return 0;
    }
    proof {
        lemma_scaled_ratio_bounds(r as int, m as int);
    }
    let mi: u128 = m as u128;
    if r >= 0 {
        let num: u128 = 2 * (r as u128) * (NSDF_SCALE as u128);
        let q: u128 = num / mi;
        proof {
            let a = 2 * (r as int) * (NSDF_SCALE as int);
            assert(num == a) by (nonlinear_arith)
                requires
                    num == 2 * (r as u128) * (NSDF_SCALE as u128),
                    a == 2 * (r as int) * (NSDF_SCALE as int),
                    0 <= r,
                    r as u128 == r as int,
                    NSDF_SCALE == 1_000_000,
                    NSDF_SCALE as u128 == 1_000_000,
            ;
            assert(q == a / (m as int));
            assert(q == trunc_div(a, m as int));
        }
        q as i64
    } else {
        let neg: u128 = (-(r as i128)) as u128;
        let mag: u128 = 2 * neg * (NSDF_SCALE as u128);
        let q: u128 = mag / mi;
        proof {
            let a = 2 * (r as int) * (NSDF_SCALE as int);
            assert(neg == -(r as int));
            assert(mag == -a) by (nonlinear_arith)
                requires
                    mag == 2 * neg * (NSDF_SCALE as u128),
                    a == 2 * (r as int) * (NSDF_SCALE as int),
                    r < 0,
                    neg == -(r as int),
                    NSDF_SCALE == 1_000_000,
                    NSDF_SCALE as u128 == 1_000_000,
            ;
            assert(a < 0) by (nonlinear_arith)
                requires
                    a == 2 * (r as int) * (NSDF_SCALE as int),
                    r < 0,
                    NSDF_SCALE == 1_000_000,
            ;
            assert(q == (-a) / (m as int));
            assert(-(q as int) == trunc_div(a, m as int));
        }
        -(q as i64)
    }
}

/// Overwrites every slot of the scratch buffer with the NSDF of the first
/// `window_size` samples, one slot per lag.
pub fn fill_nsdf(nsdf: &mut Vec<i64>, samples: &Vec<i16>, window_size: usize)
    requires
        old(nsdf)@.len() == window_size / 2,
        window_size <= samples@.len(),
        window_size <= MAX_WINDOW,
    ensures
        final(nsdf)@.len() == window_size / 2,
        forall|t: int|
            0 <= t < window_size / 2 ==> #[trigger] final(nsdf)@[t] == nsdf_at(
                samples@.take(window_size as int),
                t,
            ),
        forall|t: int|
            0 <= t < window_size / 2 ==> -NSDF_SCALE <= #[trigger] final(nsdf)@[t]
                <= NSDF_SCALE,
{
    let ghost w = samples@.take(window_size as int);
    let half: usize = window_size / 2;
    let mut tau: usize = 0;
    while tau < half
        invariant
            0 <= tau <= half,
            half == window_size / 2,
            window_size <= samples@.len(),
            window_size <= MAX_WINDOW,
            w == samples@.take(window_size as int),
            nsdf@.len() == half,
            forall|t: int| 0 <= t < tau ==> #[trigger] nsdf@[t] == nsdf_at(w, t),
            forall|t: int| 0 <= t < tau ==> -NSDF_SCALE <= #[trigger] nsdf@[t] <= NSDF_SCALE,
        decreases half - tau,
    {
        let upper: usize = window_size - tau;
        let mut r: i64 = 0;
        let mut m: i64 = 0;
        let mut i: usize = 0;
        while i < upper
            invariant
                0 <= i <= upper,
                upper == window_size - tau,
                tau < window_size / 2,
                window_size <= samples@.len(),
                window_size <= MAX_WINDOW,
                w == samples@.take(window_size as int),
                r as int == corr_prefix(w, tau as int, i as int),
                m as int == norm_prefix(w, tau as int, i as int),
                -((i as int) * 0x4000_0000) <= r as int <= (i as int) * 0x4000_0000,
                0 <= m as int <= (i as int) * 0x8000_0000,
                2 * (r as int) <= m as int,
                -(m as int) <= 2 * (r as int),
            decreases upper - i,
        {
            let a: i64 = samples[i] as i64;
            let b: i64 = samples[i + tau] as i64;
            proof {
                assert(w[i as int] == samples@[i as int]);
                assert(w[i as int + tau as int] == samples@[i as int + tau as int]);
                lemma_sample_product(a as int, b as int);
            }
            r = r + a * b;
            m = m + a * a + b * b;
            i = i + 1;
        }
        let v: i64 = nsdf_value(r, m);
        proof {
            assert(corr(w, tau as int) == r as int);
            assert(norm(w, tau as int) == m as int);
            assert(v as int == nsdf_at(w, tau as int));
        }
        nsdf[tau] = v;
        tau = tau + 1;
    }
}

} // verus!
