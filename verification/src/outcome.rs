//! Caller-facing results of a detection.

use vstd::prelude::*;

verus! {

/// The outcome of analyzing one correctly sized window.
///
/// A detected pitch carries its frequency as an exact positive rational
/// `freq_num / freq_den` in Hz, together with the clarity of the chosen
/// peak in the [`crate::params::NSDF_SCALE`] fixed-point scale (so a value
/// in `(CLARITY_THRESHOLD_FP, NSDF_SCALE]`). A window that is too quiet or
/// too ambiguous yields the explicit `NoConfidentPitch` marker, never a
/// sentinel frequency.
#[derive(Clone, Copy, Debug, PartialEq, Eq, Structural)]
pub enum PitchOutcome {
    Pitch { freq_num: u64, freq_den: u64, clarity: i64 },
    NoConfidentPitch,
}

/// The only caller-facing error: the input buffer held fewer samples than
/// the configured window size. `expected` is the window size, `actual` the
/// length that was supplied.
#[derive(Clone, Copy, Debug, PartialEq, Eq, Structural)]
pub struct InsufficientSamples {
    pub expected: usize,
    pub actual: usize,
}

impl PitchOutcome {
    /// Whether a confident pitch was found.
    pub fn found(&self) -> (r: bool)
        ensures
            r == (self matches PitchOutcome::Pitch { .. }),
    {
        match self {
            PitchOutcome::Pitch { .. } => true,
            PitchOutcome::NoConfidentPitch => false,
        }
    }
}

} // verus!
