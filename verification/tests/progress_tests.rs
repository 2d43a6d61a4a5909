use scaleless_music::amplitude::FadeLinear;
use scaleless_music::amplitude_overtones::{
    AmplitudeConstOvertones, AmplitudeDecayExpOvertones,
};
use scaleless_music::errors::Error;
use scaleless_music::progress::{ProgressOption, ProgressTempo, ProgressTime};
use scaleless_music::rhythm::NoteValue;
use scaleless_music::timing::{Timer, TimingOption};
use scaleless_music::{FIXED_ONE, PI2};

fn unfix(x: i64) -> f64 {
    x as f64 / FIXED_ONE as f64
}

#[test]
fn progress_time_rejects_bad_periods() {
    assert!(matches!(
        ProgressTime::new(1000 * FIXED_ONE, 0),
        Err(Error::PeriodInvalid)
    ));
    let mut progress = ProgressTime::new(1000 * FIXED_ONE, FIXED_ONE).unwrap();
    assert!(matches!(
        progress.set_frequency(0),
        Err(Error::FrequencyInvalid)
    ));
    progress.set_frequency(2 * FIXED_ONE).unwrap();
    assert_eq!(progress.period, FIXED_ONE / 2);
}

#[test]
fn progress_time_steps_accumulate_phase() {
    // A one second period at a kilohertz: each step adds a thousandth of a
    // full turn.
    let mut progress = ProgressTime::new(1000 * FIXED_ONE, FIXED_ONE).unwrap();
    let mut last = 0i64;
    for _ in 0..10 {
        last = progress.next_by_time().unwrap();
    }
    let want = 10.0 * unfix(PI2) / 1000.0;
    assert!((unfix(last) - want).abs() < 1e-6);
}

#[test]
fn progress_time_completes_at_duration() {
    let mut progress = ProgressTime::new(1000 * FIXED_ONE, FIXED_ONE).unwrap();
    progress
        .set_timing(TimingOption::TimeConst(FIXED_ONE / 500))
        .unwrap();
    assert!(progress.next_by_time().is_ok());
    assert!(progress.next_by_time().is_ok());
    assert!(matches!(
        progress.next_by_time(),
        Err(Error::ProgressCompleted)
    ));
}

#[test]
fn progress_tempo_steps_by_beats() {
    let quarter = NoteValue::new(1, 4).unwrap();
    let mut progress = ProgressTempo::new(1000 * FIXED_ONE, quarter).unwrap();
    assert!(matches!(
        progress.next_by_time(),
        Err(Error::ProgressInvalid)
    ));
    let phase = progress.next_by_tempo(2 * FIXED_ONE).unwrap();
    assert!(phase > 0);
}

#[test]
fn progress_simplify_folds_phase() {
    let mut progress = ProgressTime::new(1000 * FIXED_ONE, FIXED_ONE / 100).unwrap();
    progress.set_timing(TimingOption::Unlimited).unwrap();
    // a hundredth of a second period at a millisecond step: each step is a
    // tenth of a turn, so twelve steps overshoot one turn
    for _ in 0..12 {
        progress.next_by_time().unwrap();
    }
    let before = progress.phase;
    assert!(before > PI2);
    progress.simplify();
    assert_eq!(progress.phase, before % PI2);
}

#[test]
fn fade_with_tempo_progress_refuses_time_stepping() {
    let quarter = NoteValue::new(1, 4).unwrap();
    let mut fade =
        FadeLinear::new_with_tempo(1000 * FIXED_ONE, quarter, FIXED_ONE).unwrap();
    let mut samples = vec![FIXED_ONE; 8];
    assert!(matches!(
        fade.apply(&mut samples),
        Err(Error::ProgressInvalid)
    ));
    assert!(samples.iter().all(|&s| s == FIXED_ONE));
    assert!(matches!(fade.progress, ProgressOption::Tempo(_)));
}

#[test]
fn overtone_start_amplitudes_validated() {
    let weights = vec![FIXED_ONE];
    let mut provider = AmplitudeConstOvertones::new(1000 * FIXED_ONE, 0, &weights).unwrap();
    let too_many = vec![FIXED_ONE / 2; 5];
    assert!(matches!(
        provider.set_amplitude_start(&too_many),
        Err(Error::OvertoneCountInvalid)
    ));
    let too_loud = vec![2 * FIXED_ONE];
    assert!(matches!(
        provider.set_amplitude_start(&too_loud),
        Err(Error::AmplitudeInvalid)
    ));
    let fine = vec![FIXED_ONE / 2];
    provider.set_amplitude_start(&fine).unwrap();
    assert_eq!(provider.amplitude[0], FIXED_ONE / 2);
    let mut out = vec![0i64; 1];
    provider.get_amplitudes(&mut out).unwrap();
    assert_eq!(out[0], FIXED_ONE / 2);
    let mut too_short: Vec<i64> = Vec::new();
    assert!(matches!(
        provider.get_amplitudes(&mut too_short),
        Err(Error::OvertoneCountInvalid)
    ));
}

#[test]
fn decay_overtones_restart_resets() {
    let weights = vec![FIXED_ONE];
    let half_lives = vec![FIXED_ONE / 100];
    let mut provider =
        AmplitudeDecayExpOvertones::new(1000 * FIXED_ONE, 0, &weights, &half_lives).unwrap();
    let mut samples = vec![FIXED_ONE; 50];
    provider.apply(0, &mut samples).unwrap();
    assert!(provider.amplitude[0] < FIXED_ONE / 2);
    provider.restart();
    assert_eq!(provider.amplitude[0], provider.amplitude_init[0]);
}

#[test]
fn parent_timing_overflow_is_reported() {
    let mut timer = Timer::new(1000 * FIXED_ONE).unwrap();
    let big = NoteValue::new(60000, 1).unwrap();
    timer
        .set_timing(TimingOption::TempoRatio {
            ratio: big,
            duration: big,
        })
        .unwrap();
    assert!(matches!(
        timer.apply_parent_timing(TimingOption::TempoConst(big)),
        Err(Error::Overflow)
    ));
}
