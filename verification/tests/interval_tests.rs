use scaleless_music::errors::Error;
use scaleless_music::interval::Interval;
use scaleless_music::rhythm::{NoteValue, Tempo};
use scaleless_music::{get_sample_time, FIXED_ONE, TONE_FREQUENCY_MAX, TONE_FREQUENCY_MIN};

fn fix(x: f64) -> i64 {
    (x * FIXED_ONE as f64).round() as i64
}

fn unfix(x: i64) -> f64 {
    x as f64 / FIXED_ONE as f64
}

#[test]
fn interval_reduction_lowest_terms() {
    let iv = Interval::new(4, 8).unwrap();
    assert_eq!(iv.get_numerator(), 1);
    assert_eq!(iv.get_denominator(), 2);
    let iv = Interval::new(45, 30).unwrap();
    assert_eq!(iv.get_numerator(), 3);
    assert_eq!(iv.get_denominator(), 2);
    let iv = Interval::new(7, 13).unwrap();
    assert_eq!(iv.get_numerator(), 7);
    assert_eq!(iv.get_denominator(), 13);
}

#[test]
fn interval_zero_inputs_rejected() {
    assert!(matches!(Interval::new(0, 5), Err(Error::NumeratorInvalid)));
    assert!(matches!(Interval::new(5, 0), Err(Error::DenominatorInvalid)));
}

#[test]
fn interval_ratio_values() {
    let iv = Interval::new(3, 2).unwrap();
    assert!((unfix(iv.get_ratio()) - 1.5).abs() < 1e-9);
    assert!((unfix(iv.get_recip()) - 2.0 / 3.0).abs() < 1e-9);
    assert!(!iv.is_unison());
    let unison = Interval::new(7, 7).unwrap();
    assert!(unison.is_unison());
}

#[test]
fn interval_names() {
    assert_eq!(Interval::new(3, 2).unwrap().get_name(), "perfect fifth");
    assert_eq!(Interval::new(2, 3).unwrap().get_name(), "perfect fifth");
    assert_eq!(Interval::new(1, 1).unwrap().get_name(), "unison");
    assert_eq!(Interval::new(2, 1).unwrap().get_name(), "octave");
    assert_eq!(Interval::new(16, 15).unwrap().get_name(), "semitone");
    assert_eq!(Interval::new(23, 17).unwrap().get_name(), "");
}

#[test]
fn interval_change_frequency() {
    let down_octave = Interval::new(1, 2).unwrap();
    let f = down_octave.change_frequency(fix(440.0)).unwrap();
    assert!((unfix(f) - 220.0).abs() < 1e-6);
    let up = Interval::new(100, 1).unwrap();
    assert!(matches!(
        up.change_frequency(fix(440.0)),
        Err(Error::FrequencyTooHigh)
    ));
    let down = Interval::new(1, 200).unwrap();
    assert!(matches!(
        down.change_frequency(fix(440.0)),
        Err(Error::FrequencyTooLow)
    ));
    let rev = Interval::new(2, 1).unwrap();
    let f = rev.reverse_frequency(fix(440.0)).unwrap();
    assert!((unfix(f) - 220.0).abs() < 1e-6);
}

#[test]
fn interval_transpose_buffer() {
    let iv = Interval::new(3, 2).unwrap();
    let base = vec![fix(200.0), fix(300.0), fix(400.0)];
    let mut out = vec![0i64; 3];
    iv.transpose(&base, &mut out).unwrap();
    assert!((unfix(out[0]) - 300.0).abs() < 1e-5);
    assert!((unfix(out[1]) - 450.0).abs() < 1e-5);
    assert!((unfix(out[2]) - 600.0).abs() < 1e-5);
    let mut short = vec![0i64; 2];
    assert!(matches!(
        iv.transpose(&base, &mut short),
        Err(Error::BufferSize)
    ));
}

#[test]
fn sample_time_values() {
    assert!(matches!(
        get_sample_time(FIXED_ONE - 1),
        Err(Error::SampleRateInvalid)
    ));
    let st = get_sample_time(1000 * FIXED_ONE).unwrap();
    assert!((unfix(st) - 0.001).abs() < 1e-9);
}

#[test]
fn frequency_range_constants() {
    assert!((unfix(TONE_FREQUENCY_MIN) - 3.0).abs() < 1e-9);
    assert!((unfix(TONE_FREQUENCY_MAX) - 28000.0).abs() < 1e-9);
}

#[test]
fn note_value_reduction_and_rates() {
    let nv = NoteValue::new(2, 8).unwrap();
    assert_eq!(nv.numerator, 1);
    assert_eq!(nv.denominator, 4);
    assert!((unfix(nv.get_duration_in_beats()) - 0.25).abs() < 1e-9);
    assert!((unfix(nv.get_notes_per_beat()) - 4.0).abs() < 1e-9);
}

#[test]
fn note_value_checked_arithmetic() {
    let half = NoteValue::new(1, 2).unwrap();
    let third = NoteValue::new(1, 3).unwrap();
    let sum = half.checked_add(&third).unwrap();
    assert_eq!(sum.numerator, 5);
    assert_eq!(sum.denominator, 6);
    let two_thirds = NoteValue::new(2, 3).unwrap();
    let product = half.checked_mul(&two_thirds).unwrap();
    assert_eq!(product.numerator, 1);
    assert_eq!(product.denominator, 3);
    let huge = NoteValue::new(60000, 1).unwrap();
    assert!(huge.checked_mul(&huge).is_none());
}

#[test]
fn tempo_from_bpm() {
    let tempo = Tempo::new(120 * FIXED_ONE).unwrap();
    assert!((unfix(tempo.beats_per_second) - 2.0).abs() < 1e-9);
    assert!((unfix(tempo.get_duration()) - 0.5).abs() < 1e-9);
    assert!((unfix(tempo.get_bpm()) - 120.0).abs() < 1e-6);
    assert!(matches!(Tempo::new(0), Err(Error::TempoInvalid)));
    let mut tempo = Tempo::default();
    tempo.set_beat_duration(FIXED_ONE / 4).unwrap();
    assert!((unfix(tempo.beats_per_second) - 4.0).abs() < 1e-6);
}

#[test]
fn interval_checked_arithmetic() {
    let fifth = Interval::new(3, 2).unwrap();
    let fourth = Interval::new(4, 3).unwrap();
    let octave = fifth.checked_mul(&fourth).unwrap();
    assert_eq!(octave.get_numerator(), 2);
    assert_eq!(octave.get_denominator(), 1);
    let tone = fifth.checked_div(&fourth).unwrap();
    assert_eq!(tone.get_numerator(), 9);
    assert_eq!(tone.get_denominator(), 8);
    let wide = Interval::new(60000, 1).unwrap();
    assert!(wide.checked_mul(&wide).is_none());
}
