//! Monophonic pitch estimation over fixed-size windows of audio samples.
//!
//! The estimator implements an autocorrelation-based fundamental-frequency
//! detector of the McLeod family. Samples are 16-bit fixed-point values
//! (full scale `1.0` is [`params::AMP_SCALE`]); every stage of the algorithm
//! works on exact integer arithmetic, so the whole detection pipeline is
//! specified and verified end to end:
//!
//! * a normalized square-difference function over candidate lags,
//! * a power gate that rejects near-silent windows,
//! * first-confident-peak selection past the first zero crossing,
//! * parabolic sub-sample refinement of the chosen lag.
//!
//! The result of a detection is either an exact rational frequency in Hz
//! with a clarity score, an explicit "no confident pitch" marker, or a typed
//! error when the caller supplies fewer samples than the configured window.

pub mod estimator;
pub mod nsdf;
pub mod outcome;
pub mod params;
pub mod peaks;
pub mod refine;
