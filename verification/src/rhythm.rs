//! Rhythm: tempo and rational note values.

use vstd::prelude::*;

use crate::errors::{Error, SoundResult};
use crate::math::{
    div_fix, gcd_exec, lemma_div_fix_bounds, lemma_gcd_divides, lemma_gcd_pos, lemma_gcd_reduce,
    spec_div_fix, spec_gcd,
};
use crate::{FIXED_LIMIT, FIXED_ONE, SampleCalc};

verus! {

/// Sixty seconds per minute, in fixed point.
pub const SIXTY_FIX: i64 = 0x3c_0000_0000;

/// The smallest accepted positive tempo input, about a millionth of a beat
/// per minute in fixed point: below it the derived beat duration would not
/// fit the fixed-point range.
pub const TEMPO_INPUT_MIN: i64 = 0x40_0000;

/// Constant speed of the music: the number of beats per second and the
/// duration of one beat, both in fixed point.
#[derive(Debug, Copy, Clone, PartialEq, Eq, Structural)]
pub struct Tempo {
    /// Beat frequency, in beats per second.
    pub beats_per_second: SampleCalc,
    /// Duration of one beat, in seconds.
    pub beat_duration: SampleCalc,
}

impl Tempo {
    /// Validity: both derived values are positive and within the fixed-point
    /// working range.
    pub open spec fn wf(&self) -> bool {
        &&& 1 <= self.beats_per_second <= FIXED_LIMIT
        &&& 1 <= self.beat_duration <= FIXED_LIMIT
    }

    /// Custom constructor, from the number of beats per minute.
    pub fn new(beats_per_minute: SampleCalc) -> (r: SoundResult<Tempo>)
        requires
            beats_per_minute <= FIXED_LIMIT,
            beats_per_minute > 0 ==> beats_per_minute >= TEMPO_INPUT_MIN,
        ensures
            beats_per_minute <= 0 ==> r === Err(Error::TempoInvalid),
            beats_per_minute > 0 ==> (r matches Ok(t) && t.wf() && t.beats_per_second
                == beats_per_minute / 60 && t.beat_duration == spec_div_fix(
                SIXTY_FIX as int,
                beats_per_minute as int,
            )),
    {
        if beats_per_minute <= 0 {
            return Err(Error::TempoInvalid);
        }
        let beats_per_second: i64 = ((beats_per_minute as u64) / 60u64) as i64;
        proof {
            lemma_div_fix_bounds(SIXTY_FIX as int, beats_per_minute as int);
            vstd::arithmetic::div_mod::lemma_div_is_ordered_by_denominator(
                (SIXTY_FIX as int) * (FIXED_ONE as int),
                TEMPO_INPUT_MIN as int,
                beats_per_minute as int,
            );
        }
        let beat_duration = div_fix(SIXTY_FIX, beats_per_minute);
        Ok(Tempo { beats_per_second, beat_duration })
    }

    /// Sets the tempo from the beats per minute.
    pub fn set_bpm(&mut self, beats_per_minute: SampleCalc) -> (r: SoundResult<()>)
        requires
            beats_per_minute <= FIXED_LIMIT,
            beats_per_minute > 0 ==> beats_per_minute >= TEMPO_INPUT_MIN,
        ensures
            beats_per_minute <= 0 ==> r === Err(Error::TempoInvalid) && *final(self) == *old(self),
            beats_per_minute > 0 ==> (r === Ok(()) && final(self).wf()
                && final(self).beats_per_second == beats_per_minute / 60
                && final(self).beat_duration == spec_div_fix(
                SIXTY_FIX as int,
                beats_per_minute as int,
            )),
    {
        match Tempo::new(beats_per_minute) {
            Ok(t) => {
                *self = t;
                Ok(())
            },
            Err(e) => Err(e),
        }
    }

    /// Sets the tempo from beat duration.
    pub fn set_beat_duration(&mut self, beat_duration: SampleCalc) -> (r: SoundResult<()>)
        requires
            beat_duration <= FIXED_LIMIT,
            beat_duration > 0 ==> beat_duration >= 0x1_0000,
        ensures
            beat_duration <= 0 ==> r === Err(Error::TempoInvalid) && *final(self) == *old(self),
            beat_duration > 0 ==> (r === Ok(()) && final(self).wf() && final(self).beat_duration
                == beat_duration && final(self).beats_per_second == spec_div_fix(
                FIXED_ONE as int,
                beat_duration as int,
            )),
    {
        if beat_duration <= 0 {
            return Err(Error::TempoInvalid);
        }
        proof {
            lemma_div_fix_bounds(FIXED_ONE as int, beat_duration as int);
            vstd::arithmetic::div_mod::lemma_div_is_ordered_by_denominator(
                (FIXED_ONE as int) * (FIXED_ONE as int),
                0x1_0000,
                beat_duration as int,
            );
        }
        self.beat_duration = beat_duration;
        self.beats_per_second = div_fix(FIXED_ONE, beat_duration);
        Ok(())
    }

    /// Returns the duration of one beat.
    pub fn get_duration(&self) -> (r: SampleCalc)
        ensures
            r == self.beat_duration,
    {
        self.beat_duration
    }

    /// Returns the number of beats per minute.
    pub fn get_bpm(&self) -> (r: SampleCalc)
        requires
            self.wf(),
        ensures
            r == 60 * self.beats_per_second,
    {
        self.beats_per_second * 60
    }

    /// Returns the beat duration for each sample in the `result` buffer.
    pub fn get_beat_duration_buffer(&self, result: &mut Vec<SampleCalc>)
        ensures
            final(result)@.len() == old(result)@.len(),
            forall|i: int|
                0 <= i < final(result)@.len() ==> final(result)@[i] == self.beat_duration,
    {
        let n = result.len();
        let mut i: usize = 0;
        while i < n
            invariant
                n == result@.len(),
                0 <= i <= n,
                forall|j: int| 0 <= j < i ==> result@[j] == self.beat_duration,
            decreases n - i,
        {
            result[i] = self.beat_duration;
            i = i + 1;
        }
    }

    /// Returns the number of beats per second for each sample in the
    /// `result` buffer.
    pub fn get_beats_per_second_buffer(&self, result: &mut Vec<SampleCalc>)
        ensures
            final(result)@.len() == old(result)@.len(),
            forall|i: int|
                0 <= i < final(result)@.len() ==> final(result)@[i] == self.beats_per_second,
    {
        let n = result.len();
        let mut i: usize = 0;
        while i < n
            invariant
                n == result@.len(),
                0 <= i <= n,
                forall|j: int| 0 <= j < i ==> result@[j] == self.beats_per_second,
            decreases n - i,
        {
            result[i] = self.beats_per_second;
            i = i + 1;
        }
    }
}

impl Default for Tempo {
    /// The default value is 120 beats per minute (= allegretto).
    fn default() -> (r: Tempo)
        ensures
            r.wf(),
            r.beats_per_second == 2 * FIXED_ONE,
            r.beat_duration == FIXED_ONE / 2,
    {
        Tempo { beats_per_second: 0x2_0000_0000, beat_duration: 0x8000_0000 }
    }
}

/// The duration of a note relative to the duration of a beat.
#[derive(Debug, Copy, Clone, PartialEq, Eq, Structural)]
pub struct NoteValue {
    /// Numerator of the fraction.
    pub numerator: u16,
    /// Denominator of the fraction.
    pub denominator: u16,
    /// The fixed-point value of `numerator / denominator`, rounded down.
    pub duration_in_beats: SampleCalc,
    /// The fixed-point value of `denominator / numerator`, rounded down.
    pub notes_per_beat: SampleCalc,
}

impl NoteValue {
    /// Validity: the fraction is positive and the two fixed-point fields hold
    /// exactly the rounded-down duration and its reciprocal.
    pub open spec fn wf(&self) -> bool {
        &&& 1 <= self.numerator
        &&& 1 <= self.denominator
        &&& self.duration_in_beats == spec_div_fix(self.numerator as int, self.denominator as int)
        &&& self.notes_per_beat == spec_div_fix(self.denominator as int, self.numerator as int)
        &&& 1 <= self.duration_in_beats <= 0xffff * FIXED_ONE
        &&& 1 <= self.notes_per_beat <= 0xffff * FIXED_ONE
    }

    /// Custom constructor: the reduced form of `numerator / denominator`.
    pub fn new(numerator: u16, denominator: u16) -> (r: SoundResult<NoteValue>)
        ensures
            numerator == 0 ==> r === Err(Error::NumeratorInvalid),
            numerator != 0 && denominator == 0 ==> r === Err(Error::DenominatorInvalid),
            numerator != 0 && denominator != 0 ==> (r matches Ok(nv) && nv.wf() && nv.numerator
                == numerator as nat / spec_gcd(numerator as nat, denominator as nat)
                && nv.denominator == denominator as nat / spec_gcd(
                numerator as nat,
                denominator as nat,
            )),
    {
        let mut note_value = NoteValue {
            numerator: 1,
            denominator: 1,
            duration_in_beats: FIXED_ONE,
            notes_per_beat: FIXED_ONE,
        };
        proof {
            lemma_note_value_unison_wf();
        }
        match note_value.set(numerator, denominator) {
            Ok(()) => Ok(note_value),
            Err(e) => Err(e),
        }
    }

    /// Changes the note value and reduces the fraction to lowest terms.
    pub fn set(&mut self, numerator: u16, denominator: u16) -> (r: SoundResult<()>)
        ensures
            numerator == 0 ==> r === Err(Error::NumeratorInvalid) && *final(self) == *old(self),
            numerator != 0 && denominator == 0 ==> r === Err(Error::DenominatorInvalid)
                && *final(self) == *old(self),
            numerator != 0 && denominator != 0 ==> (r === Ok(()) && final(self).wf()
                && final(self).numerator == numerator as nat
                    / spec_gcd(numerator as nat, denominator as nat)
                && final(self).denominator == denominator as nat
                    / spec_gcd(numerator as nat, denominator as nat)),
    {
        if numerator == 0 {
            return Err(Error::NumeratorInvalid);
        }
        if denominator == 0 {
            return Err(Error::DenominatorInvalid);
        }
        let g: u64 = gcd_exec(numerator as u64, denominator as u64);
        proof {
            lemma_gcd_pos(numerator as nat, denominator as nat);
            lemma_gcd_reduce(numerator as nat, denominator as nat);
        }
        let rn: u16 = ((numerator as u64) / g) as u16;
        let rd: u16 = ((denominator as u64) / g) as u16;
        proof {
            lemma_div_fix_bounds(rn as int, rd as int);
            lemma_div_fix_bounds(rd as int, rn as int);
        }
        self.numerator = rn;
        self.denominator = rd;
        self.duration_in_beats = div_fix(rn as i64, rd as i64);
        self.notes_per_beat = div_fix(rd as i64, rn as i64);
        Ok(())
    }

    /// Provides the number of notes per beat.
    pub fn get_notes_per_beat(&self) -> (r: SampleCalc)
        ensures
            r == self.notes_per_beat,
    {
        self.notes_per_beat
    }

    /// Provides the duration measured in beats.
    pub fn get_duration_in_beats(&self) -> (r: SampleCalc)
        ensures
            r == self.duration_in_beats,
    {
        self.duration_in_beats
    }

    /// The sum of two note values over the least common denominator, or
    /// `None` when an intermediate value does not fit `u16`. The result is
    /// not reduced to lowest terms.
    pub fn checked_add(&self, v: &NoteValue) -> (r: Option<NoteValue>)
        requires
            self.wf(),
            v.wf(),
        ensures
            ({
                let g = spec_gcd(self.denominator as nat, v.denominator as nat) as int;
                let l = (self.denominator as int) * ((v.denominator as int) / g);
                let n1 = (self.numerator as int) * (l / (self.denominator as int));
                let n2 = (v.numerator as int) * (l / (v.denominator as int));
                &&& (r is Some <==> l <= 0xffff && n1 <= 0xffff && n2 <= 0xffff && n1 + n2
                    <= 0xffff)
                &&& (r matches Some(nv) ==> nv.wf() && nv.numerator == n1 + n2 && nv.denominator
                    == l)
            }),
    {
        let g: u64 = gcd_exec(self.denominator as u64, v.denominator as u64);
        proof {
            lemma_gcd_pos(self.denominator as nat, v.denominator as nat);
            lemma_gcd_reduce(self.denominator as nat, v.denominator as nat);
        }
        let vd_red: u16 = ((v.denominator as u64) / g) as u16;
        proof {
            lemma_u16_prod_fits(self.denominator as int, vd_red as int);
        }
        let l32: u32 = (self.denominator as u32) * (vd_red as u32);
        if l32 > 0xffff {
            return None;
        }
        let l: u16 = l32 as u16;
        proof {
            note_value_mul_bound(self.denominator as int, vd_red as int);
            lemma_lcm_quotient_pos(self.denominator as nat, v.denominator as nat, l as nat);
        }
        let lq1: u16 = l / self.denominator;
        let lq2: u16 = l / v.denominator;
        proof {
            lemma_u16_prod_fits(self.numerator as int, lq1 as int);
            lemma_u16_prod_fits(v.numerator as int, lq2 as int);
        }
        let n1_32: u32 = (self.numerator as u32) * (lq1 as u32);
        if n1_32 > 0xffff {
            return None;
        }
        let n2_32: u32 = (v.numerator as u32) * (lq2 as u32);
        if n2_32 > 0xffff {
            return None;
        }
        let n_32: u32 = n1_32 + n2_32;
        if n_32 > 0xffff {
            return None;
        }
        let n: u16 = n_32 as u16;
        proof {
            note_value_mul_bound(self.numerator as int, lq1 as int);
            note_value_mul_bound(v.numerator as int, lq2 as int);
            lemma_div_fix_bounds(n as int, l as int);
            lemma_div_fix_bounds(l as int, n as int);
        }
        Some(
            NoteValue {
                numerator: n,
                denominator: l,
                duration_in_beats: div_fix(n as i64, l as i64),
                notes_per_beat: div_fix(l as i64, n as i64),
            },
        )
    }

    /// The product of two note values, reduced to lowest terms, or `None`
    /// when an intermediate product does not fit `u16`.
    pub fn checked_mul(&self, v: &NoteValue) -> (r: Option<NoteValue>)
        requires
            self.wf(),
            v.wf(),
        ensures
            ({
                let dp = (self.denominator as int) * (v.denominator as int);
                let np = (self.numerator as int) * (v.numerator as int);
                &&& (r is Some <==> dp <= 0xffff && np <= 0xffff)
                &&& (r matches Some(nv) ==> nv.wf() && nv.numerator == np as nat / spec_gcd(
                    np as nat,
                    dp as nat,
                ) && nv.denominator == dp as nat / spec_gcd(np as nat, dp as nat))
            }),
    {
        proof {
            lemma_u16_prod_fits(self.denominator as int, v.denominator as int);
            lemma_u16_prod_fits(self.numerator as int, v.numerator as int);
        }
        let dp32: u32 = (self.denominator as u32) * (v.denominator as u32);
        let np32: u32 = (self.numerator as u32) * (v.numerator as u32);
        if dp32 > 0xffff || np32 > 0xffff {
            return None;
        }
        let dp: u16 = dp32 as u16;
        let np: u16 = np32 as u16;
        proof {
            note_value_mul_bound(self.numerator as int, v.numerator as int);
            note_value_mul_bound(self.denominator as int, v.denominator as int);
        }
        let g: u64 = gcd_exec(np as u64, dp as u64);
        proof {
            lemma_gcd_pos(np as nat, dp as nat);
            lemma_gcd_reduce(np as nat, dp as nat);
        }
        let rn: u16 = ((np as u64) / g) as u16;
        let rd: u16 = ((dp as u64) / g) as u16;
        proof {
            lemma_div_fix_bounds(rn as int, rd as int);
            lemma_div_fix_bounds(rd as int, rn as int);
        }
        Some(
            NoteValue {
                numerator: rn,
                denominator: rd,
                duration_in_beats: div_fix(rn as i64, rd as i64),
                notes_per_beat: div_fix(rd as i64, rn as i64),
            },
        )
    }
}

impl Default for NoteValue {
    /// The default note value is one whole beat, `1 / 1`.
    fn default() -> (r: NoteValue)
        ensures
            r.wf(),
            r.numerator == 1,
            r.denominator == 1,
    {
        proof {
            lemma_note_value_unison_wf();
        }
        NoteValue {
            numerator: 1,
            denominator: 1,
            duration_in_beats: FIXED_ONE,
            notes_per_beat: FIXED_ONE,
        }
    }
}

/// The whole-beat note value is well formed.
proof fn lemma_note_value_unison_wf()
    ensures
        (NoteValue {
            numerator: 1,
            denominator: 1,
            duration_in_beats: FIXED_ONE,
            notes_per_beat: FIXED_ONE,
        }).wf(),
{
    vstd::arithmetic::div_mod::lemma_div_basics(FIXED_ONE as int);
    assert(spec_div_fix(1, 1) == FIXED_ONE);
}

/// A product of two values that fit `u16` fits `u32`.
proof fn lemma_u16_prod_fits(a: int, b: int)
    requires
        0 <= a <= 0xffff,
        0 <= b <= 0xffff,
    ensures
        0 <= a * b <= 0xffff * 0xffff,
{
    assert(0 <= a * b <= 0xffff * 0xffff) by (nonlinear_arith)
        requires
            0 <= a <= 0xffff,
            0 <= b <= 0xffff,
    ;
}

/// A product of two positive numbers is at least either factor.
proof fn note_value_mul_bound(a: int, b: int)
    requires
        1 <= a,
        1 <= b,
    ensures
        a * b >= a,
        a * b >= b,
        a * b >= 1,
{
    assert(a * b >= a && a * b >= b && a * b >= 1) by (nonlinear_arith)
        requires
            1 <= a,
            1 <= b,
    ;
}

/// The quotients of the common denominator by each denominator are positive.
proof fn lemma_lcm_quotient_pos(d1: nat, d2: nat, l: nat)
    requires
        1 <= d1,
        1 <= d2,
        l == d1 * ((d2 / spec_gcd(d1, d2)) as nat),
        l >= 1,
    ensures
        l / d1 >= 1,
        l / d2 >= 1,
        (l / d1) <= 0xffff * l,
        (l / d2) <= 0xffff * l,
{
    lemma_gcd_pos(d1, d2);
    lemma_gcd_divides(d1, d2);
    let g = spec_gcd(d1, d2) as int;
    let k2 = choose|k: int| d2 as int == #[trigger] (g * k);
    vstd::arithmetic::div_mod::lemma_div_multiples_vanish(k2, g);
    assert((d2 / spec_gcd(d1, d2)) as int == k2);
    assert(k2 >= 1) by (nonlinear_arith)
        requires
            d2 as int == g * k2,
            d2 >= 1,
            g >= 1,
    ;
    assert(l as int >= d1 as int && l as int >= d2 as int) by (nonlinear_arith)
        requires
            l as int == (d1 as int) * k2,
            d2 as int == g * k2,
            g <= d1 as int,
            k2 >= 1,
            d1 >= 1,
    ;
    vstd::arithmetic::div_mod::lemma_div_non_zero(l as int, d1 as int);
    vstd::arithmetic::div_mod::lemma_div_non_zero(l as int, d2 as int);
}

} // verus!
