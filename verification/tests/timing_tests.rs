use scaleless_music::errors::Error;
use scaleless_music::rhythm::NoteValue;
use scaleless_music::timing::{Timer, TimingOption};
use scaleless_music::FIXED_ONE;

#[test]
fn timer_exhaustion_reports_fitting_samples() {
    let mut timer = Timer::new(1000 * FIXED_ONE).unwrap();
    timer
        .set_timing(TimingOption::TimeConst(FIXED_ONE / 100))
        .unwrap();
    let result = timer.jump_by_time(15);
    assert!(matches!(result, Err(Error::ItemsCompleted(10))));
    assert_eq!(timer.remaining, 0);
}

#[test]
fn timer_within_budget_advances() {
    let mut timer = Timer::new(1000 * FIXED_ONE).unwrap();
    timer
        .set_timing(TimingOption::TimeConst(FIXED_ONE / 100))
        .unwrap();
    assert!(timer.jump_by_time(5).is_ok());
    assert!(timer.remaining > 0);
    assert!(timer.jump_by_time(5).is_ok());
}

#[test]
fn timer_unlimited_never_ends() {
    let mut timer = Timer::new(1000 * FIXED_ONE).unwrap();
    assert!(timer.jump_by_time(1_000_000).is_ok());
    assert!(timer.next_by_time().is_ok());
}

#[test]
fn timer_kind_mismatch_is_rejected() {
    let mut timer = Timer::new(1000 * FIXED_ONE).unwrap();
    timer
        .set_timing(TimingOption::TimeConst(FIXED_ONE))
        .unwrap();
    let tempo = vec![2 * FIXED_ONE; 4];
    assert!(matches!(
        timer.jump_by_tempo(&tempo),
        Err(Error::TimingInvalid)
    ));
    assert!(matches!(
        timer.next_by_tempo(2 * FIXED_ONE),
        Err(Error::TimingInvalid)
    ));
    let quarter = NoteValue::new(1, 4).unwrap();
    timer
        .set_timing(TimingOption::TempoConst(quarter))
        .unwrap();
    assert!(matches!(timer.jump_by_time(4), Err(Error::TimingInvalid)));
    assert!(matches!(timer.next_by_time(), Err(Error::TimingInvalid)));
}

#[test]
fn timer_tempo_budget_in_beats() {
    // A quarter note at two beats per second lasts 0.125 s = 125 samples at
    // a millisecond sample time.
    let mut timer = Timer::new(1000 * FIXED_ONE).unwrap();
    let quarter = NoteValue::new(1, 4).unwrap();
    timer
        .set_timing(TimingOption::TempoConst(quarter))
        .unwrap();
    let tempo = vec![2 * FIXED_ONE; 200];
    let result = timer.jump_by_tempo(&tempo);
    match result {
        Err(Error::ItemsCompleted(k)) => {
            assert!((k as i64 - 124).abs() <= 1, "stopped at {}", k);
        }
        other => panic!("expected completion, got {:?}", other),
    }
    assert_eq!(timer.remaining, 0);
}

#[test]
fn timer_invalid_duration_rejected() {
    let mut timer = Timer::new(1000 * FIXED_ONE).unwrap();
    assert!(matches!(
        timer.set_timing(TimingOption::TimeConst(0)),
        Err(Error::DurationInvalid)
    ));
}

#[test]
fn timer_restart_refills() {
    let mut timer = Timer::new(1000 * FIXED_ONE).unwrap();
    timer
        .set_timing(TimingOption::TimeConst(FIXED_ONE / 100))
        .unwrap();
    let _ = timer.jump_by_time(15);
    assert_eq!(timer.remaining, 0);
    timer.restart();
    assert_eq!(timer.remaining, FIXED_ONE / 100);
}

#[test]
fn timer_parent_timing_scales_ratio() {
    let mut timer = Timer::new(1000 * FIXED_ONE).unwrap();
    timer
        .set_timing(TimingOption::TimeRatio {
            ratio: FIXED_ONE / 2,
            duration: FIXED_ONE / 2,
        })
        .unwrap();
    timer
        .apply_parent_timing(TimingOption::TimeConst(4 * FIXED_ONE))
        .unwrap();
    match timer.timing {
        TimingOption::TimeRatio { duration, .. } => {
            assert_eq!(duration, 2 * FIXED_ONE);
        }
        other => panic!("unexpected timing {:?}", other),
    }
    assert!(matches!(
        timer.apply_parent_timing(TimingOption::TempoConst(NoteValue::new(1, 2).unwrap())),
        Err(Error::TimingInvalid)
    ));
}
