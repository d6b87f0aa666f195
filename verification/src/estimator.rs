//! The pitch estimator: configuration, scratch state, and the `detect`
//! operation, specified end to end by [`spec_detect`].

use vstd::prelude::*;

use crate::nsdf::{
    compute_power, fill_nsdf, int_seq, lemma_nsdf_at_bounds, nsdf_at, nsdf_seq, power_of,
    power_prefix,
};
use crate::outcome::{InsufficientSamples, PitchOutcome};
use crate::params::{CLARITY_THRESHOLD_FP, MAX_WINDOW, NSDF_SCALE, POWER_THRESHOLD_FP};
use crate::peaks::{first_negative, first_peak, lemma_chosen_peak, scan_crossing, scan_peak};
use crate::refine::{freq_den, freq_num, lemma_refine_bounds, refine};

verus! {

/// What analyzing one correctly sized window `w` yields: the power gate
/// rejects near-silence; otherwise the first confident crest of the NSDF
/// past the first zero crossing, refined by a parabola, gives the pitch.
pub open spec fn spec_analyze(sample_rate: u32, w: Seq<i16>) -> PitchOutcome {
    let nv = nsdf_seq(w);
    if power_of(w) < POWER_THRESHOLD_FP {
        PitchOutcome::NoConfidentPitch
    } else {
        match first_negative(nv, 1) {
            Option::None => PitchOutcome::NoConfidentPitch,
            Option::Some(z) => match first_peak(nv, z + 1) {
                Option::None => PitchOutcome::NoConfidentPitch,
                Option::Some(t) => PitchOutcome::Pitch {
                    freq_num: freq_num(sample_rate, nv, t) as u64,
                    freq_den: freq_den(nv, t) as u64,
                    clarity: nv[t] as i64,
                },
            },
        }
    }
}

/// The full calling contract of a detection: a buffer shorter than the
/// window is the typed length error carrying the expected and actual
/// lengths; otherwise the leading `window_size` samples are analyzed (extra
/// trailing samples are ignored by this documented policy).
pub open spec fn spec_detect(sample_rate: u32, window_size: usize, s: Seq<i16>) -> Result<
    PitchOutcome,
    InsufficientSamples,
> {
    if s.len() < window_size {
        Result::Err(InsufficientSamples { expected: window_size, actual: s.len() as usize })
    } else {
        Result::Ok(spec_analyze(sample_rate, s.take(window_size as int)))
    }
}

/// A monophonic pitch estimator: an immutable configuration (sample rate in
/// Hz and analysis window size in samples) plus a reusable scratch buffer
/// for the NSDF, sized once at construction to one slot per examined lag.
pub struct Estimator {
    sample_rate: u32,
    window_size: usize,
    nsdf: Vec<i64>,
}

impl Estimator {
    /// Configured sample rate.
    pub closed spec fn spec_sample_rate(&self) -> u32 {
        self.sample_rate
    }

    /// Configured window size.
    pub closed spec fn spec_window_size(&self) -> usize {
        self.window_size
    }

    /// Well-formedness: a positive configuration within the supported
    /// window bound, and a scratch buffer holding one slot per lag.
    pub closed spec fn wf(&self) -> bool {
        &&& 1 <= self.sample_rate
        &&& 1 <= self.window_size <= MAX_WINDOW
        &&& self.nsdf@.len() == self.window_size / 2
    }

    /// Builds an estimator for the given sample rate and window size,
    /// allocating the lag scratch buffer once. The lowest detectable
    /// frequency is about `2 * sample_rate / window_size` Hz, since only
    /// lags up to half the window are examined.
    pub fn new(sample_rate: u32, window_size: usize) -> (r: Estimator)
        requires
            1 <= sample_rate,
            1 <= window_size <= MAX_WINDOW,
        ensures
            r.wf(),
            r.spec_sample_rate() == sample_rate,
            r.spec_window_size() == window_size,
    {
        let half: usize = window_size / 2;
        let mut nsdf: Vec<i64> = Vec::new();
        let mut i: usize = 0;
        while i < half
            invariant
                0 <= i <= half,
                nsdf@.len() == i,
            decreases half - i,
        {
            nsdf.push(0);
            i = i + 1;
        }
        Estimator { sample_rate, window_size, nsdf }
    }

    /// Configured sample rate in Hz.
    pub fn sample_rate(&self) -> (r: u32)
        ensures
            r == self.spec_sample_rate(),
    {
        self.sample_rate
    }

    /// Configured window size in samples.
    pub fn window_size(&self) -> (r: usize)
        ensures
            r == self.spec_window_size(),
    {
        self.window_size
    }

    /// Detects the fundamental frequency of one window of samples.
    ///
    /// The result is exactly [`spec_detect`] of the configuration and the
    /// sample sequence: a typed error for a too-short buffer, and otherwise
    /// either a confident pitch (an exact positive rational frequency in Hz
    /// with the clarity of the chosen crest) or the explicit no-pitch
    /// marker. The input buffer is never written, only its leading
    /// `window_size` samples are read, and the outcome depends on nothing
    /// but the configuration and the samples, so reusing the scratch buffer
    /// across calls cannot drift.
    pub fn detect(&mut self, samples: &Vec<i16>) -> (r: Result<
        PitchOutcome,
        InsufficientSamples,
    >)
        requires
            old(self).wf(),
        ensures
            final(self).wf(),
            final(self).spec_sample_rate() == old(self).spec_sample_rate(),
            final(self).spec_window_size() == old(self).spec_window_size(),
            r == spec_detect(old(self).spec_sample_rate(), old(self).spec_window_size(), samples@),
    {
        let ws: usize = self.window_size;
        let sr: u32 = self.sample_rate;
        if samples.len() < ws {
            return Result::Err(InsufficientSamples { expected: ws, actual: samples.len() });
        }
        let ghost w = samples@.take(ws as int);
        proof {
            assert(w.len() == ws);
        }
        let power: i64 = compute_power(samples, ws);
        proof {
            assert(power as int == power_of(w));
        }
        if power < POWER_THRESHOLD_FP {
            return Result::Ok(PitchOutcome::NoConfidentPitch);
        }
        fill_nsdf(&mut self.nsdf, samples, ws);
        let ghost nv = nsdf_seq(w);
        proof {
            assert forall|j: int| 0 <= j < nv.len() implies #[trigger] int_seq(self.nsdf@)[j]
                == nv[j] by {
                assert(self.nsdf@[j] == nsdf_at(w, j));
            }
            assert(int_seq(self.nsdf@) =~= nv);
        }
        let crossing: Option<usize> = scan_crossing(&self.nsdf, 1);
        let z: usize = match crossing {
            Option::None => {
                return Result::Ok(PitchOutcome::NoConfidentPitch);
            },
            Option::Some(z) => z,
        };
        let peak: Option<usize> = scan_peak(&self.nsdf, z + 1);
        let t: usize = match peak {
            Option::None => {
                return Result::Ok(PitchOutcome::NoConfidentPitch);
            },
            Option::Some(t) => t,
        };
        proof {
            lemma_chosen_peak(nv, z as int, t as int);
            assert forall|j: int| 0 <= j < self.nsdf@.len() implies -NSDF_SCALE
                <= #[trigger] self.nsdf@[j] <= NSDF_SCALE by {
                lemma_nsdf_at_bounds(w, j);
            }
        }
        let rational: (u64, u64) = refine(&self.nsdf, t, sr);
        let clarity: i64 = self.nsdf[t];
        Result::Ok(PitchOutcome::Pitch {
            freq_num: rational.0,
            freq_den: rational.1,
            clarity,
        })
    }
}

/// Any two detection results obtained from the same configuration and the
/// same sample buffer are identical: `detect` is a pure function of its
/// configuration and input, so calling it twice on one estimator (whose
/// scratch buffer the first call mutated) yields the same outcome.
pub proof fn lemma_detect_deterministic(
    sample_rate: u32,
    window_size: usize,
    s: Seq<i16>,
    r1: Result<PitchOutcome, InsufficientSamples>,
    r2: Result<PitchOutcome, InsufficientSamples>,
)
    requires
        r1 == spec_detect(sample_rate, window_size, s),
        r2 == spec_detect(sample_rate, window_size, s),
    ensures
        r1 == r2,
{
}

/// A buffer with fewer samples than the window always yields the typed
/// length error, reporting the exact expected and actual lengths.
pub proof fn lemma_short_input_is_error(sample_rate: u32, window_size: usize, s: Seq<i16>)
    requires
        s.len() < window_size,
    ensures
        spec_detect(sample_rate, window_size, s) == Result::<
            PitchOutcome,
            InsufficientSamples,
        >::Err(InsufficientSamples { expected: window_size, actual: s.len() as usize }),
{
}

/// The energy of an all-zero prefix is zero.
proof fn lemma_silent_power(w: Seq<i16>, k: int)
    requires
        0 <= k <= w.len(),
        forall|i: int| 0 <= i < w.len() ==> #[trigger] w[i] == 0,
    ensures
        power_prefix(w, k) == 0,
    decreases k,
{
    if k > 0 {
        lemma_silent_power(w, k - 1);
    }
}

/// Pure silence is rejected by the power gate: a correctly sized all-zero
/// buffer always yields the explicit no-pitch outcome.
pub proof fn lemma_silence_yields_no_pitch(sample_rate: u32, window_size: usize, s: Seq<i16>)
    requires
        s.len() == window_size,
        forall|i: int| 0 <= i < s.len() ==> #[trigger] s[i] == 0,
    ensures
        spec_detect(sample_rate, window_size, s) == Result::<
            PitchOutcome,
            InsufficientSamples,
        >::Ok(PitchOutcome::NoConfidentPitch),
{
    let w = s.take(window_size as int);
    assert(forall|i: int| 0 <= i < w.len() ==> #[trigger] w[i] == 0);
    lemma_silent_power(w, w.len() as int);
}

/// On any correctly sized input, detection succeeds (the length error is
/// impossible) and the outcome is well formed: either the explicit no-pitch
/// marker, or a pitch whose frequency is a positive rational and whose
/// clarity lies above the threshold and within one fixed-point unit.
pub proof fn lemma_detect_result_shape(sample_rate: u32, window_size: usize, s: Seq<i16>)
    requires
        1 <= sample_rate,
        1 <= window_size <= MAX_WINDOW,
        s.len() == window_size,
    ensures
        spec_detect(sample_rate, window_size, s) is Ok,
        spec_detect(sample_rate, window_size, s) matches Result::Ok(PitchOutcome::Pitch {
            freq_num,
            freq_den,
            clarity,
        }) ==> 1 <= freq_num && 1 <= freq_den && CLARITY_THRESHOLD_FP < clarity <= NSDF_SCALE,
{
    let w = s.take(window_size as int);
    let nv = nsdf_seq(w);
    assert(w.len() == window_size);
    if power_of(w) < POWER_THRESHOLD_FP {
    } else {
        match first_negative(nv, 1) {
            Option::None => {},
            Option::Some(z) => {
                match first_peak(nv, z + 1) {
                    Option::None => {},
                    Option::Some(t) => {
                        lemma_chosen_peak(nv, z, t);
                        assert forall|j: int| 0 <= j < nv.len() implies -NSDF_SCALE
                            <= #[trigger] nv[j] <= NSDF_SCALE by {
                            lemma_nsdf_at_bounds(w, j);
                        }
                        lemma_refine_bounds(sample_rate, nv, t);
                    },
                }
            },
        }
    }
}

} // verus!
