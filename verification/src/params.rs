//! Fixed-point scales and the thresholds of the detector.

use vstd::prelude::*;

verus! {

/// Fixed-point scale of an audio sample: a signal level of `1.0` is stored
/// as the sample value `AMP_SCALE`. A 16-bit sample therefore has headroom
/// up to eight times full scale.
pub const AMP_SCALE: i64 = 4096;

/// Minimum total signal energy (sum of squared samples) a window must carry
/// before a pitch is reported: five squared full-scale units, expressed in
/// the sample fixed-point scale.
pub const POWER_THRESHOLD_FP: i64 = 5 * AMP_SCALE * AMP_SCALE;

/// Fixed-point scale of the normalized square-difference function and of
/// clarity values: the real value `1.0` is stored as `NSDF_SCALE`.
pub const NSDF_SCALE: i64 = 1_000_000;

/// Minimum clarity (`0.6`, in the [`NSDF_SCALE`] fixed-point scale) a peak
/// must exceed to count as a confident pitch.
pub const CLARITY_THRESHOLD_FP: i64 = 600_000;

/// Largest supported analysis window, chosen so that every accumulator of
/// the detector provably fits in 64 bits: a squared 16-bit sample is at most
/// `2^30`, and at most `MAX_WINDOW = 2^24` such terms are summed.
pub const MAX_WINDOW: usize = 0x100_0000;

/// Largest possible product of two 16-bit samples (`(-2^15) * (-2^15)`).
pub const SQ_MAX: i64 = 0x4000_0000;

} // verus!
