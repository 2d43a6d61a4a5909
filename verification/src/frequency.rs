//! Functions which provide frequency changes.

use vstd::prelude::*;

use crate::errors::{Error, SoundResult};
use crate::interval::Interval;
use crate::math::{
    mod_fix, mul_fix, pow_fix, sin_fix, spec_mul_fix, spec_pow_fix, spec_sin_fix,
};
use crate::progress::TEMPO_LIMIT;
use crate::rhythm::NoteValue;
use crate::{FIXED_LIMIT, FIXED_ONE, PI2, SampleCalc, TONE_FREQUENCY_MAX, TONE_FREQUENCY_MIN};

verus! {

/// The smallest accepted vibrato extent ratio: one sixteenth.
pub const EXTENT_RATIO_MIN: i64 = 0x1000_0000;

/// The largest accepted vibrato extent ratio: sixteen.
pub const EXTENT_RATIO_MAX: i64 = 0x10_0000_0000;

/// Frequency is not changing by time.
#[derive(Debug, Copy, Clone, PartialEq, Eq, Structural)]
pub struct FrequencyConst {
    /// The constant frequency provided, in fixed point.
    pub frequency: SampleCalc,
}

impl FrequencyConst {
    /// Validity: the frequency is within the perceivable range.
    pub open spec fn wf(&self) -> bool {
        TONE_FREQUENCY_MIN <= self.frequency <= TONE_FREQUENCY_MAX
    }

    /// Custom constructor.
    pub fn new(frequency: SampleCalc) -> (r: SoundResult<FrequencyConst>)
        requires
            TONE_FREQUENCY_MIN <= frequency <= TONE_FREQUENCY_MAX,
        ensures
            r matches Ok(f) && f.frequency == frequency && f.wf(),
    {
        Ok(FrequencyConst { frequency })
    }

    /// Change frequency in harmony with its previous value.
    pub fn change(&mut self, interval: Interval) -> (r: SoundResult<()>)
        requires
            old(self).wf(),
            interval.wf(),
        ensures
            ({
                let nf = spec_mul_fix(
                    old(self).frequency as int,
                    interval.spec_ratio() as int,
                );
                &&& (nf < TONE_FREQUENCY_MIN ==> r === Err(Error::FrequencyTooLow) && *final(self)
                    == *old(self))
                &&& (nf > TONE_FREQUENCY_MAX ==> r === Err(Error::FrequencyTooHigh) && *final(self) == *old(self))
                &&& (crate::interval::spec_frequency_in_range(nf) ==> r === Ok(()) && final(self).frequency == nf && final(self).wf())
            }),
    {
        match interval.change_frequency(self.frequency) {
            Ok(nf) => {
                self.frequency = nf;
                Ok(())
            },
            Err(e) => Err(e),
        }
    }

    /// Provides the results of the frequency calculations: fills the buffer
    /// with the constant frequency. This provider is a source: handing it a
    /// base frequency buffer is refused.
    pub fn get(
        &self,
        time_start: SampleCalc,
        base_frequency: Option<&Vec<SampleCalc>>,
        result: &mut Vec<SampleCalc>,
    ) -> (r: SoundResult<()>)
        ensures
            base_frequency is Some ==> r === Err(Error::FrequencySource) && final(result)@ == old(result)@,
            base_frequency is None ==> r === Ok(()) && final(result)@.len() == old(result)@.len()
                && (forall|i: int|
                0 <= i < final(result)@.len() ==> final(result)@[i] == self.frequency),
    {
        if base_frequency.is_some() {
            return Err(Error::FrequencySource);
        }
        let n = result.len();
        let mut i: usize = 0;
        while i < n
            invariant
                n == result@.len(),
                0 <= i <= n,
                forall|j: int| 0 <= j < i ==> result@[j] == self.frequency,
            decreases n - i,
        {
            result[i] = self.frequency;
            i = i + 1;
        }
        let _ = time_start;
        Ok(())
    }
}

/// The phase of the vibrato after `i` samples: each sample advances it by
/// the per-beat phase change scaled by the momentary tempo, folded into one
/// turn.
pub open spec fn spec_vibrato_phase(
    p0: int,
    tempo: Seq<SampleCalc>,
    phase_change: int,
    i: int,
) -> int
    decreases i,
{
    if i <= 0 {
        p0
    } else {
        (spec_vibrato_phase(p0, tempo, phase_change, i - 1) + spec_mul_fix(
            phase_change,
            tempo[i - 1] as int,
        )) % (PI2 as int)
    }
}

/// The momentary frequency scale of the vibrato: the extent ratio raised to
/// the sine of the phase.
pub open spec fn spec_vibrato_scale(extent_ratio: int, phase: int) -> int {
    spec_pow_fix(extent_ratio, spec_sin_fix(phase))
}

/// Vibrato: sinusoidal modulation of the base frequency.
#[derive(Debug, Copy, Clone, PartialEq, Eq, Structural)]
pub struct Vibrato {
    /// Duration of one sample.
    pub sample_time: SampleCalc,
    /// The (tempo relative) speed with which the frequency is varied.
    pub note_value: NoteValue,
    /// The ratio of maximum shift away from the base frequency.
    pub extent_ratio: SampleCalc,
    /// The phase of the sine function, kept within one turn.
    pub phase: SampleCalc,
}

impl Vibrato {
    /// Validity: the rates are in range and the phase is folded into one
    /// turn.
    pub open spec fn wf(&self) -> bool {
        &&& 1 <= self.sample_time <= FIXED_ONE
        &&& self.note_value.wf()
        &&& EXTENT_RATIO_MIN <= self.extent_ratio <= EXTENT_RATIO_MAX
        &&& 0 <= self.phase < PI2
    }

    /// The per-sample phase change at unit tempo.
    pub open spec fn spec_phase_change(&self) -> int {
        spec_mul_fix(
            spec_mul_fix(self.sample_time as int, self.note_value.notes_per_beat as int),
            PI2 as int,
        )
    }

    /// Custom constructor.
    pub fn new(sample_rate: SampleCalc, note_value: NoteValue, extent_ratio: SampleCalc) -> (r:
        SoundResult<Vibrato>)
        requires
            note_value.wf(),
            extent_ratio > 0 ==> EXTENT_RATIO_MIN <= extent_ratio <= EXTENT_RATIO_MAX,
        ensures
            sample_rate < FIXED_ONE ==> r === Err(Error::SampleRateInvalid),
            sample_rate >= FIXED_ONE && extent_ratio <= 0 ==> r === Err(Error::FrequencyTooLow),
            sample_rate >= FIXED_ONE && extent_ratio > 0 ==> (r matches Ok(v) && v.wf()
                && v.sample_time == crate::math::spec_div_fix(FIXED_ONE as int, sample_rate as int)
                && v.note_value == note_value && v.extent_ratio == extent_ratio && v.phase == 0),
    {
        let sample_time = match crate::get_sample_time(sample_rate) {
            Ok(st) => st,
            Err(e) => {
                return Err(e);
            },
        };
        if extent_ratio <= 0 {
            return Err(Error::FrequencyTooLow);
        }
        Ok(Vibrato { sample_time, note_value, extent_ratio, phase: 0 })
    }

    /// Sets a new phase value, folded into one turn.
    pub fn set_phase(&mut self, phase: SampleCalc) -> (r: SoundResult<()>)
        requires
            old(self).wf(),
            0 <= phase,
        ensures
            r === Ok(()),
            final(self).wf(),
            final(self).phase == (phase as int) % (PI2 as int),
            *final(self) == (Vibrato { phase: final(self).phase, ..*old(self) }),
    {
        self.phase = mod_fix(phase, PI2);
        Ok(())
    }

    /// Provides the results of the modulation of an array of frequencies.
    /// Tempo is given in beats per second. The tempo and frequency buffers
    /// must be of one length: the pipeline sizes every buffer to the
    /// configured buffer size.
    pub fn get(
        &mut self,
        tempo: &Vec<SampleCalc>,
        base_frequency: &Vec<SampleCalc>,
        result: &mut Vec<SampleCalc>,
    ) -> (r: SoundResult<()>)
        requires
            old(self).wf(),
            forall|i: int| 0 <= i < tempo@.len() ==> 0 <= #[trigger] tempo@[i] <= TEMPO_LIMIT,
            forall|i: int|
                0 <= i < base_frequency@.len() ==> 0 <= #[trigger] base_frequency@[i]
                    <= TONE_FREQUENCY_MAX,
            tempo@.len() == base_frequency@.len(),
        ensures
            final(self).wf(),
            base_frequency@.len() != old(result)@.len() ==> r === Err(Error::BufferSize) && final(result)@ == old(result)@ && *final(self) == *old(self),
            base_frequency@.len() == old(result)@.len() ==> {
                let n = base_frequency@.len() as int;
                let pc = old(self).spec_phase_change();
                let p0 = old(self).phase as int;
                &&& r === Ok(())
                &&& final(result)@.len() == n
                &&& final(self).phase == spec_vibrato_phase(p0, tempo@, pc, n)
                &&& *final(self) == (Vibrato { phase: final(self).phase, ..*old(self) })
                &&& forall|i: int|
                    0 <= i < n ==> final(result)@[i] == spec_mul_fix(
                        #[trigger] base_frequency@[i] as int,
                        spec_vibrato_scale(
                            old(self).extent_ratio as int,
                            spec_vibrato_phase(p0, tempo@, pc, i + 1),
                        ),
                    )
            },
    {
        if base_frequency.len() != result.len() {
            return Err(Error::BufferSize);
        }
        let phase_change = self.phase_change_exec();
        let n = result.len();
        let ghost p0 = self.phase as int;
        let ghost pc = phase_change as int;
        let mut i: usize = 0;
        while i < n
            invariant
                n == result@.len(),
                n == base_frequency@.len(),
                n == tempo@.len(),
                0 <= i <= n,
                self.sample_time == old(self).sample_time,
                self.note_value == old(self).note_value,
                self.extent_ratio == old(self).extent_ratio,
                old(self).wf(),
                EXTENT_RATIO_MIN <= self.extent_ratio <= EXTENT_RATIO_MAX,
                0 <= self.phase < PI2,
                pc == old(self).spec_phase_change(),
                0 <= pc <= 0xffff * PI2,
                phase_change == pc,
                p0 == old(self).phase as int,
                forall|j: int| 0 <= j < tempo@.len() ==> 0 <= #[trigger] tempo@[j] <= TEMPO_LIMIT,
                forall|j: int|
                    0 <= j < base_frequency@.len() ==> 0 <= #[trigger] base_frequency@[j]
                        <= TONE_FREQUENCY_MAX,
                self.phase == spec_vibrato_phase(p0, tempo@, pc, i as int),
                forall|j: int|
                    0 <= j < i ==> result@[j] == spec_mul_fix(
                        #[trigger] base_frequency@[j] as int,
                        spec_vibrato_scale(
                            self.extent_ratio as int,
                            spec_vibrato_phase(p0, tempo@, pc, j + 1),
                        ),
                    ),
            decreases n - i,
        {
            proof {
                assert(pc * (tempo@[i as int] as int) <= 0x7fff_ffff_ffff_ffff * (
                FIXED_ONE as int)) by (nonlinear_arith)
                    requires
                        0 <= pc <= 0xffff * (PI2 as int),
                        0 <= tempo@[i as int] <= TEMPO_LIMIT,
                ;
                crate::math::lemma_mul_fix_bounds(
                    pc,
                    tempo@[i as int] as int,
                    0xffff * (PI2 as int),
                    TEMPO_LIMIT as int,
                );
            }
            let step = mul_fix(phase_change, tempo[i]);
            self.phase = mod_fix(self.phase + step, PI2);
            let s = sin_fix(self.phase);
            let scale = pow_fix(self.extent_ratio, s);
            proof {
                crate::math::lemma_mul_fix_bounds(
                    base_frequency@[i as int] as int,
                    scale as int,
                    TONE_FREQUENCY_MAX as int,
                    0x20 * (FIXED_ONE as int),
                );
            }
            let value = mul_fix(base_frequency[i], scale);
            result[i] = value;
            i = i + 1;
        }
        Ok(())
    }

    /// Applies the modulation on an already existing array of frequencies.
    /// It multiplies each sample with its new scale. Tempo is given in
    /// beats per second. The tempo and sample buffers must be of one
    /// length: the pipeline sizes every buffer to the configured buffer
    /// size.
    pub fn apply(&mut self, tempo: &Vec<SampleCalc>, samples: &mut Vec<SampleCalc>) -> (r:
        SoundResult<()>)
        requires
            old(self).wf(),
            forall|i: int| 0 <= i < tempo@.len() ==> 0 <= #[trigger] tempo@[i] <= TEMPO_LIMIT,
            forall|i: int|
                0 <= i < old(samples)@.len() ==> -FIXED_LIMIT <= #[trigger] old(samples)@[i]
                    <= FIXED_LIMIT,
            tempo@.len() == old(samples)@.len(),
        ensures
            final(self).wf(),
            ({
                let n = old(samples)@.len() as int;
                let pc = old(self).spec_phase_change();
                let p0 = old(self).phase as int;
                &&& r === Ok(())
                &&& final(samples)@.len() == n
                &&& final(self).phase == spec_vibrato_phase(p0, tempo@, pc, n)
                &&& *final(self) == (Vibrato { phase: final(self).phase, ..*old(self) })
                &&& forall|i: int|
                    0 <= i < n ==> final(samples)@[i] == spec_mul_fix(
                        #[trigger] old(samples)@[i] as int,
                        spec_vibrato_scale(
                            old(self).extent_ratio as int,
                            spec_vibrato_phase(p0, tempo@, pc, i + 1),
                        ),
                    )
            }),
    {
        let phase_change = self.phase_change_exec();
        let n = samples.len();
        let ghost p0 = self.phase as int;
        let ghost pc = phase_change as int;
        let mut i: usize = 0;
        while i < n
            invariant
                n == samples@.len(),
                n == old(samples)@.len(),
                n == tempo@.len(),
                0 <= i <= n,
                self.sample_time == old(self).sample_time,
                self.note_value == old(self).note_value,
                self.extent_ratio == old(self).extent_ratio,
                old(self).wf(),
                EXTENT_RATIO_MIN <= self.extent_ratio <= EXTENT_RATIO_MAX,
                0 <= self.phase < PI2,
                pc == old(self).spec_phase_change(),
                0 <= pc <= 0xffff * PI2,
                phase_change == pc,
                p0 == old(self).phase as int,
                forall|j: int| 0 <= j < tempo@.len() ==> 0 <= #[trigger] tempo@[j] <= TEMPO_LIMIT,
                forall|j: int|
                    0 <= j < old(samples)@.len() ==> -FIXED_LIMIT <= #[trigger] old(samples)@[j]
                        <= FIXED_LIMIT,
                self.phase == spec_vibrato_phase(p0, tempo@, pc, i as int),
                forall|j: int| i <= j < n ==> samples@[j] == old(samples)@[j],
                forall|j: int|
                    0 <= j < i ==> samples@[j] == spec_mul_fix(
                        #[trigger] old(samples)@[j] as int,
                        spec_vibrato_scale(
                            self.extent_ratio as int,
                            spec_vibrato_phase(p0, tempo@, pc, j + 1),
                        ),
                    ),
            decreases n - i,
        {
            proof {
                assert(pc * (tempo@[i as int] as int) <= 0x7fff_ffff_ffff_ffff * (
                FIXED_ONE as int)) by (nonlinear_arith)
                    requires
                        0 <= pc <= 0xffff * (PI2 as int),
                        0 <= tempo@[i as int] <= TEMPO_LIMIT,
                ;
                crate::math::lemma_mul_fix_bounds(
                    pc,
                    tempo@[i as int] as int,
                    0xffff * (PI2 as int),
                    TEMPO_LIMIT as int,
                );
            }
            let step = mul_fix(phase_change, tempo[i]);
            self.phase = mod_fix(self.phase + step, PI2);
            let s = sin_fix(self.phase);
            let scale = pow_fix(self.extent_ratio, s);
            proof {
                crate::math::lemma_mul_fix_abs_bounds(
                    samples@[i as int] as int,
                    scale as int,
                    FIXED_LIMIT as int,
                    0x20 * (FIXED_ONE as int),
                );
                let a = samples@[i as int] as int;
                let b = scale as int;
                assert((if a >= 0 {
                    a
                } else {
                    -a
                }) * b <= 0x7fff_ffff_ffff_ffff * (FIXED_ONE as int)) by (nonlinear_arith)
                    requires
                        -FIXED_LIMIT <= a <= FIXED_LIMIT,
                        0 <= b <= 0x20 * (FIXED_ONE as int),
                ;
            }
            let value = mul_fix(samples[i], scale);
            samples[i] = value;
            i = i + 1;
        }
        Ok(())
    }

    /// The per-sample phase change at unit tempo, derived exactly in fixed
    /// point.
    fn phase_change_exec(&self) -> (r: SampleCalc)
        requires
            self.wf(),
        ensures
            r == self.spec_phase_change(),
            0 <= r <= 0xffff * PI2,
    {
        proof {
            crate::math::lemma_mul_fix_bounds(
                self.sample_time as int,
                self.note_value.notes_per_beat as int,
                FIXED_ONE as int,
                0xffff * FIXED_ONE,
            );
            assert((self.sample_time as int) * (self.note_value.notes_per_beat as int)
                <= 0x7fff_ffff_ffff_ffff * (FIXED_ONE as int)) by (nonlinear_arith)
                requires
                    0 <= self.sample_time <= FIXED_ONE,
                    0 <= self.note_value.notes_per_beat <= 0xffff * FIXED_ONE,
            ;
        }
        let q = mul_fix(self.sample_time, self.note_value.get_notes_per_beat());
        proof {
            assert((q as int) * (PI2 as int) <= 0x7fff_ffff_ffff_ffff * (FIXED_ONE as int))
                by (nonlinear_arith)
                requires
                    0 <= q <= 0xffff * (FIXED_ONE as int),
                    0 < PI2 < 8 * (FIXED_ONE as int),
            ;
            crate::math::lemma_mul_fix_bounds(q as int, PI2 as int, 0xffff * FIXED_ONE, PI2 as int);
            vstd::arithmetic::div_mod::lemma_div_multiples_vanish(0xffff * (PI2 as int), FIXED_ONE as int);
            assert(((0xffff * (FIXED_ONE as int)) * (PI2 as int)) == (FIXED_ONE as int) * (0xffff
                * (PI2 as int))) by (nonlinear_arith);
        }
        mul_fix(q, PI2)
    }
}

} // verus!
