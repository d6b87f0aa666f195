use std::f64::consts::PI;

use pitch_estimator::estimator::Estimator;
use pitch_estimator::outcome::{InsufficientSamples, PitchOutcome};

/// One window of a pure sine at `freq` Hz with the given amplitude
/// (1.0 is full scale, i.e. the sample value 4096).
fn sine_window(freq: f64, amplitude: f64, sample_rate: u32, n: usize) -> Vec<i16> {
    let mut w = Vec::with_capacity(n);
    let mut i: usize = 0;
    while i < n {
        let phase = 2.0 * PI * freq * (i as f64) / (sample_rate as f64);
        w.push((4096.0 * amplitude * phase.sin()).round() as i16);
        i += 1;
    }
    w
}

fn detected_hz(outcome: &PitchOutcome) -> f64 {
    match outcome {
        PitchOutcome::Pitch { freq_num, freq_den, .. } => (*freq_num as f64) / (*freq_den as f64),
        PitchOutcome::NoConfidentPitch => panic!("expected a pitch"),
    }
}

#[test]
fn insufficient_samples_reports_exact_lengths() {
    let mut est = Estimator::new(44100, 2048);
    let short = vec![0i16; 2000];
    let r = est.detect(&short);
    assert_eq!(r, Err(InsufficientSamples { expected: 2048, actual: 2000 }));
    let empty: Vec<i16> = vec![];
    let r = est.detect(&empty);
    assert_eq!(r, Err(InsufficientSamples { expected: 2048, actual: 0 }));
}

#[test]
fn silence_yields_no_confident_pitch() {
    let mut est = Estimator::new(44100, 2048);
    let silence = vec![0i16; 2048];
    let r = est.detect(&silence).unwrap();
    assert_eq!(r, PitchOutcome::NoConfidentPitch);
    assert!(!r.found());
}

#[test]
fn sine_440_found_within_tolerance() {
    let mut est = Estimator::new(44100, 2048);
    let window = sine_window(440.0, 1.0, 44100, 2048);
    let r = est.detect(&window).unwrap();
    assert!(r.found());
    let hz = detected_hz(&r);
    assert!(435.0 <= hz && hz <= 445.0, "detected {hz} Hz");
    match r {
        PitchOutcome::Pitch { clarity, .. } => {
            assert!(clarity > 600_000);
            assert!(clarity <= 1_000_000);
        }
        PitchOutcome::NoConfidentPitch => unreachable!(),
    }
}

#[test]
fn pure_tones_within_one_percent() {
    for &freq in &[220.0f64, 660.0, 880.0] {
        let mut est = Estimator::new(44100, 2048);
        let window = sine_window(freq, 0.8, 44100, 2048);
        let r = est.detect(&window).unwrap();
        let hz = detected_hz(&r);
        assert!(
            (hz - freq).abs() <= 0.01 * freq,
            "expected about {freq} Hz, detected {hz} Hz"
        );
    }
}

#[test]
fn tone_ordering_preserved() {
    let mut est = Estimator::new(44100, 2048);
    let low = est.detect(&sine_window(330.0, 1.0, 44100, 2048)).unwrap();
    let high = est.detect(&sine_window(550.0, 1.0, 44100, 2048)).unwrap();
    match (low, high) {
        (
            PitchOutcome::Pitch { freq_num: n1, freq_den: d1, .. },
            PitchOutcome::Pitch { freq_num: n2, freq_den: d2, .. },
        ) => {
            // compare the exact rationals: n1/d1 < n2/d2
            assert!((n1 as u128) * (d2 as u128) < (n2 as u128) * (d1 as u128));
        }
        _ => panic!("both tones must be detected"),
    }
}

#[test]
fn repeated_detection_is_identical() {
    let mut est = Estimator::new(44100, 2048);
    let window = sine_window(440.0, 1.0, 44100, 2048);
    let other = sine_window(523.25, 1.0, 44100, 2048);
    let first = est.detect(&window);
    let second = est.detect(&window);
    assert_eq!(first, second);
    // even after the scratch buffer served a different window
    let _ = est.detect(&other);
    let third = est.detect(&window);
    assert_eq!(first, third);
}

#[test]
fn square_wave_exact_rational() {
    // A period-4 square wave over a 16-sample window at 8 Hz sampling: every
    // NSDF value is an exact small rational, so the whole outcome is known
    // in closed form. The true period is 4 samples (2 Hz); edge truncation
    // skews the parabola slightly.
    let mut est = Estimator::new(8, 16);
    let v: i16 = 4096;
    let window = vec![v, v, -v, -v, v, v, -v, -v, v, v, -v, -v, v, v, -v, -v];
    let r = est.detect(&window).unwrap();
    assert_eq!(
        r,
        PitchOutcome::Pitch { freq_num: 31776224, freq_den: 16055944, clarity: 1000000 }
    );
    let hz = detected_hz(&r);
    assert!((hz - 2.0).abs() < 0.05);
}

#[test]
fn long_buffer_uses_leading_window() {
    let mut est = Estimator::new(44100, 2048);
    let exact = sine_window(440.0, 1.0, 44100, 2048);
    let mut long = exact.clone();
    long.extend(vec![0i16; 2048]);
    assert_eq!(est.detect(&exact), est.detect(&long));
}

#[test]
fn constant_signal_has_no_pitch() {
    // loud but aperiodic for every nonzero lag examined: the NSDF never
    // crosses zero, so no peak past a crossing exists
    let mut est = Estimator::new(44100, 2048);
    let flat = vec![4096i16; 2048];
    assert_eq!(est.detect(&flat).unwrap(), PitchOutcome::NoConfidentPitch);
}

#[test]
fn quiet_sine_rejected_by_power_gate() {
    let mut est = Estimator::new(44100, 2048);
    let faint = sine_window(440.0, 0.02, 44100, 2048);
    assert_eq!(est.detect(&faint).unwrap(), PitchOutcome::NoConfidentPitch);
}

#[test]
fn configuration_is_reported() {
    let est = Estimator::new(48000, 1024);
    assert_eq!(est.sample_rate(), 48000);
    assert_eq!(est.window_size(), 1024);
}
