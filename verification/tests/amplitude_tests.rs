use scaleless_music::amplitude::{
    is_valid_amplitude, AmplitudeConst, AmplitudeDecayExp, AmplitudeJoinable, AmplitudeSequence,
    FadeLinear, Tremolo,
};
use scaleless_music::amplitude_overtones::{
    AmplitudeConstOvertones, AmplitudeDecayExpOvertones,
};
use scaleless_music::errors::Error;
use scaleless_music::timing::TimingOption;
use scaleless_music::FIXED_ONE;

fn unfix(x: i64) -> f64 {
    x as f64 / FIXED_ONE as f64
}

#[test]
fn amplitude_validity_range() {
    assert!(is_valid_amplitude(0).is_ok());
    assert!(is_valid_amplitude(FIXED_ONE).is_ok());
    assert!(matches!(
        is_valid_amplitude(-1),
        Err(Error::AmplitudeInvalid)
    ));
    assert!(matches!(
        is_valid_amplitude(FIXED_ONE + 1),
        Err(Error::AmplitudeInvalid)
    ));
}

#[test]
fn overtone_amplitudes_normalized_to_one() {
    let weights = vec![FIXED_ONE, FIXED_ONE / 2];
    let provider = AmplitudeConstOvertones::new(1000 * FIXED_ONE, 1, &weights).unwrap();
    let total: i64 = provider.amplitude.iter().sum();
    assert!((unfix(total) - 1.0).abs() < 1e-8);
    assert!((unfix(provider.amplitude[0]) - 2.0 / 3.0).abs() < 1e-8);
    assert!((unfix(provider.amplitude[1]) - 1.0 / 3.0).abs() < 1e-8);
}

#[test]
fn overtone_amplitudes_invalid_inputs() {
    let empty: Vec<i64> = Vec::new();
    assert!(matches!(
        AmplitudeConstOvertones::new(1000 * FIXED_ONE, 1, &empty),
        Err(Error::AmplitudeInvalid)
    ));
    let zeroes = vec![0i64, 0i64];
    assert!(matches!(
        AmplitudeConstOvertones::new(1000 * FIXED_ONE, 1, &zeroes),
        Err(Error::AmplitudeInvalid)
    ));
    let negative = vec![FIXED_ONE, -1];
    assert!(matches!(
        AmplitudeConstOvertones::new(1000 * FIXED_ONE, 1, &negative),
        Err(Error::AmplitudeInvalid)
    ));
}

#[test]
fn overtone_amplitudes_above_count_are_silent() {
    let weights = vec![FIXED_ONE];
    let provider = AmplitudeConstOvertones::new(1000 * FIXED_ONE, 0, &weights).unwrap();
    let mut samples = vec![FIXED_ONE; 4];
    provider.apply(5, &mut samples).unwrap();
    assert!(samples.iter().all(|&s| s == 0));
}

#[test]
fn decay_overtones_half_life_round_trip() {
    // One overtone with a tenth of a second half-life at a kilohertz: after
    // a hundred samples the amplitude has halved, within rounding.
    let weights = vec![FIXED_ONE];
    let half_lives = vec![FIXED_ONE / 10];
    let mut provider =
        AmplitudeDecayExpOvertones::new(1000 * FIXED_ONE, 0, &weights, &half_lives).unwrap();
    let mut samples = vec![FIXED_ONE; 100];
    provider.apply(0, &mut samples).unwrap();
    assert!((unfix(provider.amplitude[0]) - 0.5).abs() < 1e-4);
    // the final sample carries the final amplitude
    assert!((unfix(samples[99]) - 0.5).abs() < 1e-4);
    // the amplitude never grew along the way
    for w in samples.windows(2) {
        assert!(w[1] <= w[0]);
    }
}

#[test]
fn decay_overtones_rejects_bad_half_life() {
    let weights = vec![FIXED_ONE];
    let half_lives = vec![0i64];
    assert!(matches!(
        AmplitudeDecayExpOvertones::new(1000 * FIXED_ONE, 0, &weights, &half_lives),
        Err(Error::AmplitudeRateInvalid)
    ));
}

#[test]
fn decay_scalar_half_life_round_trip() {
    let mut decay = AmplitudeDecayExp::new(1000 * FIXED_ONE, FIXED_ONE / 10).unwrap();
    let mut samples = vec![FIXED_ONE; 100];
    decay.apply(&mut samples).unwrap();
    assert!((unfix(decay.get_amplitude()) - 0.5).abs() < 1e-4);
    assert!(matches!(
        AmplitudeDecayExp::new(1000 * FIXED_ONE, 0),
        Err(Error::AmplitudeRateInvalid)
    ));
}

#[test]
fn amplitude_const_times_out() {
    let mut amp = AmplitudeConst::new(1000 * FIXED_ONE).unwrap();
    amp.set_timing(TimingOption::TimeConst(FIXED_ONE / 100))
        .unwrap();
    let mut samples = vec![FIXED_ONE; 15];
    let result = amp.apply(&mut samples);
    assert!(matches!(result, Err(Error::ItemsCompleted(10))));
    // the first ten samples were scaled (by full amplitude), the rest kept
    assert!(samples.iter().all(|&s| s == FIXED_ONE));
}

#[test]
fn fade_linear_ramps_up() {
    // A one second fade to full amplitude at a kilohertz: sample i carries
    // roughly (i + 1) / 1000 of the input.
    let mut fade = FadeLinear::new_with_time(1000 * FIXED_ONE, FIXED_ONE, FIXED_ONE).unwrap();
    let mut samples = vec![FIXED_ONE; 100];
    fade.apply(&mut samples).unwrap();
    for (i, &s) in samples.iter().enumerate() {
        let expected = (i + 1) as f64 / 1000.0;
        assert!(
            (unfix(s) - expected).abs() < 1e-3,
            "sample {} was {}",
            i,
            unfix(s)
        );
    }
    assert!(matches!(
        FadeLinear::new_with_time(1000 * FIXED_ONE, FIXED_ONE, 2 * FIXED_ONE),
        Err(Error::AmplitudeInvalid)
    ));
}

#[test]
fn tremolo_never_exceeds_unity_peak() {
    let mut tremolo = Tremolo::new_with_time(
        1000 * FIXED_ONE,
        TimingOption::Unlimited,
        FIXED_ONE / 10,
        2 * FIXED_ONE,
    )
    .unwrap();
    let mut samples = vec![FIXED_ONE; 200];
    tremolo.apply(&mut samples).unwrap();
    for &s in samples.iter() {
        let v = unfix(s);
        assert!(v <= 1.001, "tremolo peak {} above unity", v);
        assert!(v >= 0.24, "tremolo trough {} below 1/4", v);
    }
    assert!(matches!(
        Tremolo::new_with_time(
            1000 * FIXED_ONE,
            TimingOption::Unlimited,
            FIXED_ONE / 10,
            FIXED_ONE / 2,
        ),
        Err(Error::AmplitudeInvalid)
    ));
}

#[test]
fn sequence_empty_is_rejected() {
    let mut sequence = AmplitudeSequence::new(1000 * FIXED_ONE).unwrap();
    let mut samples = vec![FIXED_ONE; 10];
    assert!(matches!(
        sequence.apply(&mut samples),
        Err(Error::SequenceEmpty)
    ));
}

#[test]
fn sequence_single_element_covers_buffer() {
    let mut sequence = AmplitudeSequence::new(1000 * FIXED_ONE).unwrap();
    let element = AmplitudeConst::new(1000 * FIXED_ONE).unwrap();
    sequence.add(AmplitudeJoinable::Const(element));
    let mut samples = vec![FIXED_ONE; 10];
    assert!(sequence.apply(&mut samples).is_ok());
    assert!(samples.iter().all(|&s| s == FIXED_ONE));
}

#[test]
fn sequence_splices_to_next_element() {
    let mut sequence = AmplitudeSequence::new(1000 * FIXED_ONE).unwrap();
    let mut first = AmplitudeConst::new(1000 * FIXED_ONE).unwrap();
    // the first element covers five milliseconds = five samples
    first
        .set_timing(TimingOption::TimeConst(FIXED_ONE / 200))
        .unwrap();
    first.set_amplitude_start(FIXED_ONE / 2).unwrap();
    let second = AmplitudeConst::new(1000 * FIXED_ONE).unwrap();
    sequence.add(AmplitudeJoinable::Const(first));
    sequence.add(AmplitudeJoinable::Const(second));
    let mut samples = vec![FIXED_ONE; 10];
    assert!(sequence.apply(&mut samples).is_ok());
    // first five samples scaled by one half, the rest seeded with the
    // previous element's amplitude
    for i in 0..5 {
        assert!((unfix(samples[i]) - 0.5).abs() < 1e-9, "sample {}", i);
    }
    for i in 5..10 {
        assert!((unfix(samples[i]) - 0.5).abs() < 1e-9, "sample {}", i);
    }
}

#[test]
fn sequence_runs_out_of_elements() {
    let mut sequence = AmplitudeSequence::new(1000 * FIXED_ONE).unwrap();
    let mut only = AmplitudeConst::new(1000 * FIXED_ONE).unwrap();
    only.set_timing(TimingOption::TimeConst(FIXED_ONE / 200))
        .unwrap();
    sequence.add(AmplitudeJoinable::Const(only));
    let mut samples = vec![FIXED_ONE; 10];
    assert!(matches!(
        sequence.apply(&mut samples),
        Err(Error::ItemInvalid)
    ));
}

#[test]
fn fade_rhythmic_ramps_with_tempo() {
    // A whole-beat fade at two beats per second and a kilohertz: the fade
    // spans five hundred samples, and each sample climbs by two
    // thousandths of the target amplitude.
    let whole = scaleless_music::rhythm::NoteValue::new(1, 1).unwrap();
    let mut fade = FadeLinear::new_with_tempo(1000 * FIXED_ONE, whole, FIXED_ONE).unwrap();
    let tempo = vec![2 * FIXED_ONE; 100];
    let mut samples = vec![FIXED_ONE; 100];
    fade.apply_rhythmic(&tempo, &mut samples).unwrap();
    for (i, &s) in samples.iter().enumerate() {
        let expected = 2.0 * (i + 1) as f64 / 1000.0;
        assert!(
            (unfix(s) - expected).abs() < 1e-3,
            "sample {} was {}",
            i,
            unfix(s)
        );
    }
    let short = vec![2 * FIXED_ONE; 50];
    let mut more = vec![FIXED_ONE; 100];
    assert!(matches!(
        fade.apply_rhythmic(&short, &mut more),
        Err(Error::BufferSize)
    ));
}

#[test]
fn fade_rhythmic_completes_at_beat_budget() {
    // A quarter-beat fade at two beats per second lasts an eighth of a
    // second: one hundred and twenty five samples at a kilohertz.
    let quarter = scaleless_music::rhythm::NoteValue::new(1, 4).unwrap();
    let mut fade = FadeLinear::new_with_tempo(1000 * FIXED_ONE, quarter, FIXED_ONE).unwrap();
    let tempo = vec![2 * FIXED_ONE; 200];
    let mut samples = vec![FIXED_ONE; 200];
    match fade.apply_rhythmic(&tempo, &mut samples) {
        Err(Error::ItemsCompleted(k)) => {
            assert!((k as i64 - 124).abs() <= 1, "stopped at {}", k);
        }
        other => panic!("expected completion, got {:?}", other),
    }
}

#[test]
fn tremolo_rhythmic_stays_within_bounds() {
    let quarter = scaleless_music::rhythm::NoteValue::new(1, 4).unwrap();
    let mut tremolo = Tremolo::new_with_tempo(
        1000 * FIXED_ONE,
        TimingOption::Unlimited,
        quarter,
        2 * FIXED_ONE,
    )
    .unwrap();
    let tempo = vec![2 * FIXED_ONE; 200];
    let mut samples = vec![FIXED_ONE; 200];
    tremolo.apply_rhythmic(&tempo, &mut samples).unwrap();
    for &s in samples.iter() {
        let v = unfix(s);
        assert!(v <= 1.001, "tremolo peak {} above unity", v);
        assert!(v >= 0.24, "tremolo trough {} below 1/4", v);
    }
}

#[test]
fn sequence_rhythmic_single_element() {
    let mut sequence = AmplitudeSequence::new(1000 * FIXED_ONE).unwrap();
    let element = AmplitudeConst::new(1000 * FIXED_ONE).unwrap();
    sequence.add(AmplitudeJoinable::Const(element));
    let tempo = vec![2 * FIXED_ONE; 10];
    let mut samples = vec![FIXED_ONE; 10];
    assert!(sequence.apply_rhythmic(&tempo, &mut samples).is_ok());
    assert!(samples.iter().all(|&s| s == FIXED_ONE));
    let mut empty_sequence = AmplitudeSequence::new(1000 * FIXED_ONE).unwrap();
    let mut more = vec![FIXED_ONE; 10];
    assert!(matches!(
        empty_sequence.apply_rhythmic(&tempo, &mut more),
        Err(Error::SequenceEmpty)
    ));
}

#[test]
fn joinable_get_max_per_variant() {
    let constant = AmplitudeConst::new(1000 * FIXED_ONE).unwrap();
    assert_eq!(AmplitudeJoinable::Const(constant).get_max(), FIXED_ONE);
    let fade = FadeLinear::new_with_time(1000 * FIXED_ONE, FIXED_ONE, FIXED_ONE / 2).unwrap();
    assert_eq!(AmplitudeJoinable::Fade(fade).get_max(), FIXED_ONE / 2);
    let decay = AmplitudeDecayExp::new(1000 * FIXED_ONE, FIXED_ONE / 10).unwrap();
    assert_eq!(AmplitudeJoinable::DecayExp(decay).get_max(), FIXED_ONE);
}

#[test]
fn sequence_get_max_over_elements() {
    let mut sequence = AmplitudeSequence::new(1000 * FIXED_ONE).unwrap();
    assert_eq!(sequence.get_max(), 0);
    let mut quiet = AmplitudeConst::new(1000 * FIXED_ONE).unwrap();
    quiet.set_amplitude_start(FIXED_ONE / 4).unwrap();
    let mut louder = AmplitudeConst::new(1000 * FIXED_ONE).unwrap();
    louder.set_amplitude_start(FIXED_ONE / 2).unwrap();
    sequence.add(AmplitudeJoinable::Const(quiet));
    sequence.add(AmplitudeJoinable::Const(louder));
    assert_eq!(sequence.get_max(), FIXED_ONE / 2);
}

#[test]
fn sequence_amplitude_start_resets_time() {
    let mut sequence = AmplitudeSequence::new(1000 * FIXED_ONE).unwrap();
    let element = AmplitudeConst::new(1000 * FIXED_ONE).unwrap();
    sequence.add(AmplitudeJoinable::Const(element));
    sequence
        .set_timing(TimingOption::TimeConst(FIXED_ONE / 100))
        .unwrap();
    let mut samples = vec![FIXED_ONE; 15];
    assert!(matches!(
        sequence.apply(&mut samples),
        Err(Error::ItemsCompleted(10))
    ));
    // the budget is spent: a second run admits nothing
    let mut again = vec![FIXED_ONE; 15];
    assert!(matches!(
        sequence.apply(&mut again),
        Err(Error::ItemsCompleted(0))
    ));
    // seeding a start amplitude refills the sequence's own timer
    sequence.set_amplitude_start(FIXED_ONE / 2).unwrap();
    let mut after = vec![FIXED_ONE; 15];
    assert!(matches!(
        sequence.apply(&mut after),
        Err(Error::ItemsCompleted(10))
    ));
}
