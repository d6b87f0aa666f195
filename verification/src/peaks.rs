//! Peak selection over the NSDF: the first confident peak past the first
//! zero crossing wins, which prefers the fundamental over subharmonics.

use vstd::prelude::*;

use crate::nsdf::int_seq;
use crate::params::CLARITY_THRESHOLD_FP;

verus! {

/// Index of the first entry at or after `i` whose value is negative: the
/// first zero crossing, which ends the trivial lag-zero lobe.
pub open spec fn first_negative(nv: Seq<int>, i: int) -> Option<int>
    recommends
        0 <= i,
    decreases nv.len() - i,
{
    if i < 0 || i >= nv.len() {
        None
    } else if nv[i] < 0 {
        Some(i)
    } else {
        first_negative(nv, i + 1)
    }
}

/// A confident crest at `t`: the NSDF exceeds the clarity threshold and
/// stops rising at the next lag.
pub open spec fn peak_condition(nv: Seq<int>, t: int) -> bool
    recommends
        0 <= t,
        t + 1 < nv.len(),
{
    nv[t] > CLARITY_THRESHOLD_FP && nv[t + 1] <= nv[t]
}

/// Index of the first confident crest at or after `i`. The last lag is
/// never chosen, so a chosen peak always has both neighbours available for
/// parabolic refinement.
pub open spec fn first_peak(nv: Seq<int>, i: int) -> Option<int>
    recommends
        0 <= i,
    decreases nv.len() - i,
{
    if i < 0 || i + 1 >= nv.len() {
        None
    } else if peak_condition(nv, i) {
        Some(i)
    } else {
        first_peak(nv, i + 1)
    }
}

/// What a `first_negative` result means: the found index is the least
/// negative entry at or after the start, and a `None` means none exists.
pub proof fn lemma_first_negative_props(nv: Seq<int>, i: int)
    requires
        0 <= i,
    ensures
        match first_negative(nv, i) {
            Some(z) => i <= z < nv.len() && nv[z] < 0 && forall|j: int|
                i <= j < z ==> #[trigger] nv[j] >= 0,
            None => forall|j: int| i <= j < nv.len() ==> #[trigger] nv[j] >= 0,
        },
    decreases nv.len() - i,
{
    if i < nv.len() && nv[i] >= 0 {
        lemma_first_negative_props(nv, i + 1);
    }
}

/// What a `first_peak` result means: the found index is the least confident
/// crest at or after the start, and a `None` means none exists.
pub proof fn lemma_first_peak_props(nv: Seq<int>, i: int)
    requires
        0 <= i,
    ensures
        match first_peak(nv, i) {
            Some(t) => i <= t && t + 1 < nv.len() && peak_condition(nv, t) && forall|j: int|
                i <= j < t ==> !#[trigger] peak_condition(nv, j),
            None => forall|j: int| i <= j && j + 1 < nv.len() ==> !#[trigger] peak_condition(nv, j),
        },
    decreases nv.len() - i,
{
    if i + 1 < nv.len() && !peak_condition(nv, i) {
        lemma_first_peak_props(nv, i + 1);
    }
}

/// Shape of the chosen peak: a crest found after the first zero crossing
/// sits at lag 2 or later, rises strictly from its left neighbour (either
/// that neighbour is the negative crossing, sits at or below the clarity
/// threshold, or the scan would have stopped there), and does not rise
/// towards its right neighbour. This is what parabolic refinement needs to
/// place the vertex within half a lag of the crest.
pub proof fn lemma_chosen_peak(nv: Seq<int>, z: int, t: int)
    requires
        first_negative(nv, 1) == Some(z),
        first_peak(nv, z + 1) == Some(t),
    ensures
        1 <= z < t,
        2 <= t,
        t + 1 < nv.len(),
        nv[t - 1] < nv[t],
        nv[t + 1] <= nv[t],
        CLARITY_THRESHOLD_FP < nv[t],
{
    lemma_first_negative_props(nv, 1);
    lemma_first_peak_props(nv, z + 1);
    assert(peak_condition(nv, t));
    if t == z + 1 {
        assert(nv[t - 1] < 0);
    } else {
        assert(!peak_condition(nv, t - 1));
    }
}

/// Scans the NSDF buffer for the first negative entry at or after `start`.
pub fn scan_crossing(nsdf: &Vec<i64>, start: usize) -> (r: Option<usize>)
    ensures
        match r {
            Some(z) => first_negative(int_seq(nsdf@), start as int) == Some(z as int) && start
                <= z < nsdf@.len(),
            None => first_negative(int_seq(nsdf@), start as int) is None,
        },
{
    let ghost nv = int_seq(nsdf@);
    let n: usize = nsdf.len();
    let mut i: usize = start;
    while i < n
        invariant
            start <= i,
            n == nsdf@.len(),
            nv == int_seq(nsdf@),
            first_negative(nv, start as int) == first_negative(nv, i as int),
        decreases n - i,
    {
        if nsdf[i] < 0 {
            proof {
                assert(nv[i as int] == nsdf@[i as int]);
            }
            return Some(i);
        }
        proof {
            assert(nv[i as int] == nsdf@[i as int]);
        }
        i = i + 1;
    }
    None
}

/// Scans the NSDF buffer for the first confident crest at or after `start`.
pub fn scan_peak(nsdf: &Vec<i64>, start: usize) -> (r: Option<usize>)
    ensures
        match r {
            Some(t) => first_peak(int_seq(nsdf@), start as int) == Some(t as int) && start <= t
                && t + 1 < nsdf@.len(),
            None => first_peak(int_seq(nsdf@), start as int) is None,
        },
{
    let ghost nv = int_seq(nsdf@);
    let n: usize = nsdf.len();
    let mut i: usize = start;
    while n > 0 && i < n - 1
        invariant
            start <= i,
            n == nsdf@.len(),
            nv == int_seq(nsdf@),
            first_peak(nv, start as int) == first_peak(nv, i as int),
        decreases n - i,
    {
        proof {
            assert(nv[i as int] == nsdf@[i as int]);
            assert(nv[i as int + 1] == nsdf@[i as int + 1]);
        }
        if nsdf[i] > CLARITY_THRESHOLD_FP && nsdf[i + 1] <= nsdf[i] {
            return Some(i);
        }
        i = i + 1;
    }
    None
}

} // verus!
