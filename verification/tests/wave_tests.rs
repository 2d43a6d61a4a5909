use scaleless_music::amplitude_overtones::{
    AmplitudeConstOvertones, AmplitudeOvertonesProvider,
};
use scaleless_music::errors::Error;
use scaleless_music::frequency::{FrequencyConst, Vibrato};
use scaleless_music::interval::Interval;
use scaleless_music::math::{sin_fix, MathFast};
use scaleless_music::rhythm::NoteValue;
use scaleless_music::wave::{Crossfader, Mixer, SoundStructure, Timbre, Wave};
use scaleless_music::{FIXED_ONE, PI2};

fn fix(x: f64) -> i64 {
    (x * FIXED_ONE as f64).round() as i64
}

fn unfix(x: i64) -> f64 {
    x as f64 / FIXED_ONE as f64
}

fn const_amplitudes(weights: &[f64]) -> AmplitudeOvertonesProvider {
    let w: Vec<i64> = weights.iter().map(|&x| fix(x)).collect();
    let count = if w.is_empty() { 0 } else { w.len() - 1 };
    AmplitudeOvertonesProvider::Const(
        AmplitudeConstOvertones::new(192_000 * FIXED_ONE, count, &w).unwrap(),
    )
}

#[test]
fn sine_approximation_accuracy() {
    let steps = 256;
    for i in 0..steps {
        let phase = (PI2 as i128 * i as i128 / steps as i128) as i64;
        let got = unfix(sin_fix(phase));
        let want = (phase as f64 / FIXED_ONE as f64).sin();
        assert!(
            (got - want).abs() < 2e-3,
            "sine at step {}: {} vs {}",
            i,
            got,
            want
        );
    }
    assert_eq!(sin_fix(0), 0);
    let peak = unfix((PI2 / 4).sin_fast());
    assert!((peak - 1.0).abs() < 1e-3);
}

#[test]
fn wave_phase_stays_wrapped() {
    let mut wave = Wave::new(192_000 * FIXED_ONE, 0).unwrap();
    let base = vec![fix(440.0); 256];
    let mut out = vec![0i64; 256];
    for _ in 0..20 {
        wave.get(&base, &mut out).unwrap();
        assert!(wave.phase >= 0, "phase went negative");
        assert!(wave.phase < PI2, "phase {} left one turn", wave.phase);
    }
}

#[test]
fn wave_set_phase_wraps() {
    let mut wave = Wave::new(192_000 * FIXED_ONE, 0).unwrap();
    wave.set_phase(PI2 + 12345);
    assert_eq!(wave.phase, 12345);
}

#[test]
fn timbre_buffer_size_contract() {
    let mut timbre = Timbre::new(192_000 * FIXED_ONE, 16, const_amplitudes(&[1.0]), 1).unwrap();
    let short_base = vec![fix(440.0); 10];
    let mut result = vec![7i64; 16];
    assert!(matches!(
        timbre.get(0, &short_base, &mut result),
        Err(Error::BufferSize)
    ));
    assert!(result.iter().all(|&s| s == 7), "result was written");
    let base = vec![fix(440.0); 16];
    let mut wrong_result = vec![7i64; 10];
    assert!(matches!(
        timbre.get(0, &base, &mut wrong_result),
        Err(Error::BufferSize)
    ));
    assert!(wrong_result.iter().all(|&s| s == 7), "result was written");
}

#[test]
fn timbre_single_partial_matches_sine() {
    let sample_rate = 192_000.0;
    let mut timbre =
        Timbre::new(192_000 * FIXED_ONE, 64, const_amplitudes(&[1.0]), 1).unwrap();
    let frequency = FrequencyConst::new(fix(440.0)).unwrap();
    let mut base = vec![0i64; 64];
    frequency.get(0, None, &mut base).unwrap();
    let mut result = vec![0i64; 64];
    timbre.get(0, &base, &mut result).unwrap();
    for (i, &s) in result.iter().enumerate() {
        let want = (2.0 * std::f64::consts::PI * 440.0 * (i + 1) as f64 / sample_rate).sin();
        assert!(
            (unfix(s) - want).abs() < 5e-3,
            "sample {}: {} vs {}",
            i,
            unfix(s),
            want
        );
    }
}

#[test]
fn timbre_overtone_weights_shape_the_sum() {
    let mut timbre =
        Timbre::new(192_000 * FIXED_ONE, 32, const_amplitudes(&[0.5, 0.5]), 2).unwrap();
    let base = vec![fix(440.0); 32];
    let mut result = vec![0i64; 32];
    timbre.get(0, &base, &mut result).unwrap();
    let sample_rate = 192_000.0;
    for (i, &s) in result.iter().enumerate() {
        let t = (i + 1) as f64 / sample_rate;
        let want = 0.5 * (2.0 * std::f64::consts::PI * 440.0 * t).sin()
            + 0.5 * (2.0 * std::f64::consts::PI * 880.0 * t).sin();
        assert!(
            (unfix(s) - want).abs() < 5e-3,
            "sample {}: {} vs {}",
            i,
            unfix(s),
            want
        );
    }
}

#[test]
fn frequency_const_is_a_source() {
    let frequency = FrequencyConst::new(fix(440.0)).unwrap();
    let base = vec![fix(440.0); 4];
    let mut out = vec![0i64; 4];
    assert!(matches!(
        frequency.get(0, Some(&base), &mut out),
        Err(Error::FrequencySource)
    ));
    frequency.get(0, None, &mut out).unwrap();
    assert!(out.iter().all(|&f| f == fix(440.0)));
}

#[test]
fn frequency_const_changes_harmonically() {
    let mut frequency = FrequencyConst::new(fix(440.0)).unwrap();
    frequency.change(Interval::new(3, 2).unwrap()).unwrap();
    assert!((unfix(frequency.frequency) - 660.0).abs() < 1e-5);
    let result = frequency.change(Interval::new(100, 1).unwrap());
    assert!(matches!(result, Err(Error::FrequencyTooHigh)));
    assert!((unfix(frequency.frequency) - 660.0).abs() < 1e-5);
}

#[test]
fn mixer_normalizes_volumes() {
    let mut mixer = Mixer::new(16).unwrap();
    let unison = Interval::new(1, 1).unwrap();
    let timbre_a = Timbre::new(192_000 * FIXED_ONE, 16, const_amplitudes(&[1.0]), 1).unwrap();
    let timbre_b = Timbre::new(192_000 * FIXED_ONE, 16, const_amplitudes(&[1.0]), 1).unwrap();
    mixer
        .add(unison, SoundStructure::Timbre(timbre_a), 2 * FIXED_ONE)
        .unwrap();
    mixer
        .add(unison, SoundStructure::Timbre(timbre_b), 3 * FIXED_ONE)
        .unwrap();
    assert!((unfix(mixer.channels[0].volume_normalized) - 0.4).abs() < 1e-8);
    assert!((unfix(mixer.channels[1].volume_normalized) - 0.6).abs() < 1e-8);
    let total = mixer.channels[0].volume_normalized + mixer.channels[1].volume_normalized;
    assert!((unfix(total) - 1.0).abs() < 1e-8);
}

#[test]
fn mixer_quiet_mix_is_not_boosted() {
    let mut mixer = Mixer::new(16).unwrap();
    let unison = Interval::new(1, 1).unwrap();
    let timbre = Timbre::new(192_000 * FIXED_ONE, 16, const_amplitudes(&[1.0]), 1).unwrap();
    mixer
        .add(unison, SoundStructure::Timbre(timbre), FIXED_ONE / 4)
        .unwrap();
    assert_eq!(mixer.channels[0].volume_normalized, FIXED_ONE / 4);
}

#[test]
fn mixer_rejects_negative_volume() {
    let mut mixer = Mixer::new(16).unwrap();
    let unison = Interval::new(1, 1).unwrap();
    let timbre = Timbre::new(192_000 * FIXED_ONE, 16, const_amplitudes(&[1.0]), 1).unwrap();
    assert!(matches!(
        mixer.add(unison, SoundStructure::Timbre(timbre), -1),
        Err(Error::AmplitudeInvalid)
    ));
    assert!(matches!(
        mixer.set_volume(0, FIXED_ONE),
        Err(Error::ChannelInvalid)
    ));
}

#[test]
fn mixer_sums_weighted_channels() {
    let mut mixer = Mixer::new(32).unwrap();
    let unison = Interval::new(1, 1).unwrap();
    let timbre_a = Timbre::new(192_000 * FIXED_ONE, 32, const_amplitudes(&[1.0]), 1).unwrap();
    let timbre_b = Timbre::new(192_000 * FIXED_ONE, 32, const_amplitudes(&[1.0]), 1).unwrap();
    mixer
        .add(unison, SoundStructure::Timbre(timbre_a), 2 * FIXED_ONE)
        .unwrap();
    mixer
        .add(unison, SoundStructure::Timbre(timbre_b), 2 * FIXED_ONE)
        .unwrap();
    let base = vec![fix(440.0); 32];
    let mut result = vec![0i64; 32];
    mixer.get(0, &base, &mut result).unwrap();
    // both channels run the same wave at half volume each: the mix equals
    // one full sine
    let sample_rate = 192_000.0;
    for (i, &s) in result.iter().enumerate() {
        let want = (2.0 * std::f64::consts::PI * 440.0 * (i + 1) as f64 / sample_rate).sin();
        assert!(
            (unfix(s) - want).abs() < 5e-3,
            "sample {}: {} vs {}",
            i,
            unfix(s),
            want
        );
    }
    let short = vec![fix(440.0); 16];
    let mut result16 = vec![0i64; 32];
    assert!(matches!(
        mixer.get(0, &short, &mut result16),
        Err(Error::BufferSize)
    ));
}

#[test]
fn vibrato_scales_frequencies_periodically() {
    let quarter = NoteValue::new(1, 4).unwrap();
    let mut vibrato = Vibrato::new(1000 * FIXED_ONE, quarter, 2 * FIXED_ONE).unwrap();
    let tempo = vec![2 * FIXED_ONE; 64];
    let base = vec![fix(440.0); 64];
    let mut out = vec![0i64; 64];
    vibrato.get(&tempo, &base, &mut out).unwrap();
    for &f in out.iter() {
        let v = unfix(f);
        assert!(v >= 219.0 && v <= 881.0, "vibrato output {}", v);
    }
    assert!(vibrato.phase >= 0 && vibrato.phase < PI2);
    assert!(matches!(
        Vibrato::new(1000 * FIXED_ONE, quarter, 0),
        Err(Error::FrequencyTooLow)
    ));
}

#[test]
fn crossfader_configuration() {
    let timbre_a = Timbre::new(192_000 * FIXED_ONE, 16, const_amplitudes(&[1.0]), 1).unwrap();
    let timbre_b = Timbre::new(192_000 * FIXED_ONE, 16, const_amplitudes(&[1.0]), 1).unwrap();
    let mut fader = Crossfader::new(
        192_000 * FIXED_ONE,
        FIXED_ONE,
        SoundStructure::Timbre(timbre_a),
        SoundStructure::Timbre(timbre_b),
    )
    .unwrap();
    assert_eq!(fader.get_duration(), FIXED_ONE);
    fader.set_interval(Interval::new(3, 2).unwrap());
    assert_eq!(fader.interval.get_numerator(), 3);
    let timbre_c = Timbre::new(192_000 * FIXED_ONE, 16, const_amplitudes(&[1.0]), 1).unwrap();
    let timbre_d = Timbre::new(192_000 * FIXED_ONE, 16, const_amplitudes(&[1.0]), 1).unwrap();
    assert!(matches!(
        Crossfader::new(
            192_000 * FIXED_ONE,
            0,
            SoundStructure::Timbre(timbre_c),
            SoundStructure::Timbre(timbre_d),
        ),
        Err(Error::DurationInvalid)
    ));
}
