//! Sub-sample refinement: a parabola is fitted through the NSDF values at
//! the chosen lag and its two neighbours, and the frequency is read off at
//! the parabola's vertex.
//!
//! With `a`, `b`, `c` the NSDF values at lags `t - 1`, `t`, `t + 1` and
//! `p = 2b - a - c` (positive at a crest), the vertex lies at the
//! fractional lag `t + (c - a) / 2p`, so the detected frequency is the
//! exact rational
//!
//! ```text
//! sample_rate / (t + (c - a) / 2p)  =  2 p sample_rate / (2 p t + c - a)
//! ```

use vstd::prelude::*;

use crate::nsdf::int_seq;
use crate::params::NSDF_SCALE;

verus! {

/// Twice the discrete downward curvature at `t`: `2 nv[t] - nv[t-1] - nv[t+1]`,
/// positive whenever `t` is a strict crest.
pub open spec fn curvature(nv: Seq<int>, t: int) -> int
    recommends
        1 <= t,
        t + 1 < nv.len(),
{
    2 * nv[t] - nv[t - 1] - nv[t + 1]
}

/// Numerator of the refined frequency in Hz.
pub open spec fn freq_num(sr: u32, nv: Seq<int>, t: int) -> int {
    2 * curvature(nv, t) * sr
}

/// Denominator of the refined frequency in Hz.
pub open spec fn freq_den(nv: Seq<int>, t: int) -> int {
    2 * curvature(nv, t) * t + (nv[t + 1] - nv[t - 1])
}

/// At a crest that rises strictly from the left, the curvature is positive,
/// the vertex offset stays within half a lag, and the refined frequency is
/// a positive rational whose parts fit in 64 bits.
pub proof fn lemma_refine_bounds(sr: u32, nv: Seq<int>, t: int)
    requires
        1 <= sr,
        2 <= t,
        t + 1 < nv.len(),
        nv.len() <= 0x80_0000,
        forall|j: int| 0 <= j < nv.len() ==> -NSDF_SCALE <= #[trigger] nv[j] <= NSDF_SCALE,
        nv[t - 1] < nv[t],
        nv[t + 1] <= nv[t],
    ensures
        1 <= curvature(nv, t) <= 4 * NSDF_SCALE,
        -curvature(nv, t) <= nv[t + 1] - nv[t - 1] <= curvature(nv, t),
        1 <= freq_num(sr, nv, t) <= 0x7fff_ffff_ffff_ffff,
        1 <= freq_den(nv, t) <= 0x7fff_ffff_ffff_ffff,
{
    let p = curvature(nv, t);
    assert(-NSDF_SCALE <= nv[t - 1] <= NSDF_SCALE);
    assert(-NSDF_SCALE <= nv[t] <= NSDF_SCALE);
    assert(-NSDF_SCALE <= nv[t + 1] <= NSDF_SCALE);
    assert(2 <= 2 * p * sr <= 0x7fff_ffff_ffff_ffff) by (nonlinear_arith)
        requires
            1 <= p <= 4_000_000,
            1 <= sr <= 0xffff_ffff,
    ;
    assert(3 * p <= 2 * p * t && 2 * p * t <= 0x40_0000_0000_0000) by (nonlinear_arith)
        requires
            1 <= p <= 4_000_000,
            2 <= t <= 0x80_0000,
    ;
}

/// Computes the refined frequency `freq_num / freq_den` in Hz for the crest
/// at lag `t` of the NSDF buffer.
pub fn refine(nsdf: &Vec<i64>, t: usize, sample_rate: u32) -> (r: (u64, u64))
    requires
        1 <= sample_rate,
        2 <= t,
        t + 1 < nsdf@.len(),
        nsdf@.len() <= 0x80_0000,
        forall|j: int| 0 <= j < nsdf@.len() ==> -NSDF_SCALE <= #[trigger] nsdf@[j] <= NSDF_SCALE,
        nsdf@[t - 1] < nsdf@[t as int],
        nsdf@[t + 1] <= nsdf@[t as int],
    ensures
        r.0 as int == freq_num(sample_rate, int_seq(nsdf@), t as int),
        r.1 as int == freq_den(int_seq(nsdf@), t as int),
        1 <= r.0,
        1 <= r.1,
{
    let ghost nv = int_seq(nsdf@);
    proof {
        assert(nv[t as int - 1] == nsdf@[t as int - 1]);
        assert(nv[t as int] == nsdf@[t as int]);
        assert(nv[t as int + 1] == nsdf@[t as int + 1]);
        assert(forall|j: int|
            0 <= j < nv.len() ==> -NSDF_SCALE <= #[trigger] nv[j] <= NSDF_SCALE) by {
            assert(forall|j: int| 0 <= j < nv.len() ==> #[trigger] nv[j] == nsdf@[j]);
        }
        lemma_refine_bounds(sample_rate, nv, t as int);
    }
    let a: i128 = nsdf[t - 1] as i128;
    let b: i128 = nsdf[t] as i128;
    let c: i128 = nsdf[t + 1] as i128;
    let p: i128 = 2 * b - a - c;
    let num: i128 = 2 * p * (sample_rate as i128);
    let den: i128 = 2 * p * (t as i128) + (c - a);
    proof {
        assert(num == freq_num(sample_rate, nv, t as int)) by (nonlinear_arith)
            requires
                num == 2 * p * (sample_rate as i128),
                freq_num(sample_rate, nv, t as int) == 2 * curvature(nv, t as int) * (
                sample_rate as int),
                p == curvature(nv, t as int),
        ;
        assert(2 * p * (t as i128) == 2 * curvature(nv, t as int) * (t as int))
            by (nonlinear_arith)
            requires
                p == curvature(nv, t as int),
        ;
    }
    (num as u64, den as u64)
}

} // verus!
