//! Functions which provide complete waveforms: sinusoidal oscillators,
//! additive synthesis and mixing.

use vstd::prelude::*;

use crate::amplitude_overtones::{spec_decay_amp, AmplitudeOvertonesProvider};
use crate::errors::{Error, SoundResult};
use crate::interval::Interval;
use crate::math::{
    mod_fix, mul_fix, sin_fix, spec_mul_fix, spec_sin_fix,
};
use crate::{FIXED_LIMIT, FIXED_ONE, PI2, SampleCalc, TONE_FREQUENCY_MAX};

verus! {

/// The largest accepted overtone index of a single wave.
pub const WAVE_OVERTONE_MAX: usize = 0xff;

/// The largest accepted per-sample frequency multiplier of a wave.
pub const WAVE_MULT_LIMIT: i64 = 0x800_0000_0000;

/// The phase of a wave after `i` samples: each sample advances it by the
/// momentary frequency times the wave's frequency multiplier, folded into
/// one turn. Folding every sample changes nothing against folding once at
/// the end: the arithmetic is exact.
pub open spec fn spec_wave_phase(p0: int, base: Seq<SampleCalc>, multiplier: int, i: int) -> int
    decreases i,
{
    if i <= 0 {
        p0
    } else {
        (spec_wave_phase(p0, base, multiplier, i - 1) + spec_mul_fix(
            base[i - 1] as int,
            multiplier,
        )) % (PI2 as int)
    }
}

/// A sinusoidal wave generator, with variable frequency.
#[derive(Debug, Copy, Clone, PartialEq, Eq, Structural)]
pub struct Wave {
    /// Duration of one sample.
    pub sample_time: SampleCalc,
    /// The interval used for transposition of the input frequencies.
    pub interval: Interval,
    /// The index of the overtone this wave generates.
    pub overtone: usize,
    /// The per-sample phase multiplier:
    /// `(overtone + 1) * two pi * sample_time`, scaled by the interval.
    pub frequency_multiplier: SampleCalc,
    /// The phase, always kept within one turn for maximal precision.
    pub phase: SampleCalc,
}

impl Wave {
    /// Validity: the phase is folded into one turn and the multiplier is
    /// within the working range.
    pub open spec fn wf(&self) -> bool {
        &&& 1 <= self.sample_time <= FIXED_ONE
        &&& self.interval.wf()
        &&& self.overtone <= WAVE_OVERTONE_MAX
        &&& 0 <= self.frequency_multiplier <= WAVE_MULT_LIMIT
        &&& 0 <= self.phase < PI2
    }

    /// Custom constructor.
    pub fn new(sample_rate: SampleCalc, overtone: usize) -> (r: SoundResult<Wave>)
        requires
            overtone <= WAVE_OVERTONE_MAX,
        ensures
            sample_rate < FIXED_ONE ==> r === Err(Error::SampleRateInvalid),
            sample_rate >= FIXED_ONE ==> (r matches Ok(w) && w.wf() && w.overtone == overtone
                && w.phase == 0 && w.sample_time == crate::math::spec_div_fix(
                FIXED_ONE as int,
                sample_rate as int,
            ) && w.frequency_multiplier == spec_mul_fix(
                (overtone + 1) * (PI2 as int),
                w.sample_time as int,
            ) && w.interval.spec_numerator() == 1 && w.interval.spec_denominator() == 1),
    {
        let sample_time = match crate::get_sample_time(sample_rate) {
            Ok(st) => st,
            Err(e) => {
                return Err(e);
            },
        };
        let base: i64 = ((overtone + 1) as i64) * PI2;
        proof {
            crate::math::lemma_mul_fix_le_one(base as int, sample_time as int);
            assert((overtone + 1) * (PI2 as int) <= 0x100 * (PI2 as int)) by (nonlinear_arith)
                requires
                    overtone <= 0xff,
            ;
        }
        let frequency_multiplier = mul_fix(base, sample_time);
        Ok(
            Wave {
                sample_time,
                interval: Interval::default(),
                overtone,
                frequency_multiplier,
                phase: 0,
            },
        )
    }

    /// Gets the next samples of the wave: the phase accumulates the
    /// momentary frequency, and each output sample is the sine of the phase
    /// reached. As many samples are produced as both buffers can carry.
    pub fn get(&mut self, base_frequency: &Vec<SampleCalc>, result: &mut Vec<SampleCalc>) -> (r:
        SoundResult<()>)
        requires
            old(self).wf(),
            forall|i: int|
                0 <= i < base_frequency@.len() ==> 0 <= #[trigger] base_frequency@[i]
                    <= TONE_FREQUENCY_MAX,
        ensures
            r === Ok(()),
            final(self).wf(),
            final(result)@.len() == old(result)@.len(),
            ({
                let n = if base_frequency@.len() <= old(result)@.len() {
                    base_frequency@.len() as int
                } else {
                    old(result)@.len() as int
                };
                let p0 = old(self).phase as int;
                let m = old(self).frequency_multiplier as int;
                &&& final(self).phase == spec_wave_phase(p0, base_frequency@, m, n)
                &&& *final(self) == (Wave { phase: final(self).phase, ..*old(self) })
                &&& (forall|i: int|
                    0 <= i < n ==> #[trigger] final(result)@[i] == spec_sin_fix(
                        spec_wave_phase(p0, base_frequency@, m, i + 1),
                    ))
                &&& (forall|i: int| n <= i < old(result)@.len() ==> final(result)@[i] == old(result)@[i])
            }),
    {
        let n: usize = if base_frequency.len() <= result.len() {
            base_frequency.len()
        } else {
            result.len()
        };
        let ghost p0 = self.phase as int;
        let ghost m = self.frequency_multiplier as int;
        let mut i: usize = 0;
        while i < n
            invariant
                0 <= i <= n,
                n <= base_frequency@.len(),
                n <= result@.len(),
                result@.len() == old(result)@.len(),
                self.sample_time == old(self).sample_time,
                self.interval == old(self).interval,
                self.overtone == old(self).overtone,
                self.frequency_multiplier == old(self).frequency_multiplier,
                old(self).wf(),
                0 <= self.phase < PI2,
                p0 == old(self).phase as int,
                m == old(self).frequency_multiplier as int,
                0 <= m <= WAVE_MULT_LIMIT,
                forall|j: int|
                    0 <= j < base_frequency@.len() ==> 0 <= #[trigger] base_frequency@[j]
                        <= TONE_FREQUENCY_MAX,
                self.phase == spec_wave_phase(p0, base_frequency@, m, i as int),
                forall|j: int|
                    0 <= j < i ==> #[trigger] result@[j] == spec_sin_fix(
                        spec_wave_phase(p0, base_frequency@, m, j + 1),
                    ),
                forall|j: int| i <= j < result@.len() ==> result@[j] == old(result)@[j],
            decreases n - i,
        {
            proof {
                crate::math::lemma_mul_fix_bounds(
                    base_frequency@[i as int] as int,
                    m,
                    TONE_FREQUENCY_MAX as int,
                    WAVE_MULT_LIMIT as int,
                );
            }
            let step = mul_fix(base_frequency[i], self.frequency_multiplier);
            self.phase = mod_fix(self.phase + step, PI2);
            let value = sin_fix(self.phase);
            result[i] = value;
            i = i + 1;
        }
        Ok(())
    }

    /// Sets a new frequency interval: the frequency multiplier is rescaled
    /// by the interval's ratio.
    pub fn set_interval(&mut self, interval: Interval)
        requires
            old(self).wf(),
            interval.wf(),
            spec_mul_fix(
                spec_mul_fix(
                    (old(self).overtone + 1) * (PI2 as int),
                    old(self).sample_time as int,
                ),
                interval.spec_ratio() as int,
            ) <= WAVE_MULT_LIMIT,
        ensures
            final(self).wf(),
            final(self).interval == interval,
            final(self).frequency_multiplier == spec_mul_fix(
                spec_mul_fix(
                    (old(self).overtone + 1) * (PI2 as int),
                    old(self).sample_time as int,
                ),
                interval.spec_ratio() as int,
            ),
            final(self).phase == old(self).phase,
            final(self).sample_time == old(self).sample_time,
            final(self).overtone == old(self).overtone,
    {
        let base: i64 = ((self.overtone + 1) as i64) * PI2;
        proof {
            crate::math::lemma_mul_fix_le_one(base as int, self.sample_time as int);
            assert((self.overtone + 1) * (PI2 as int) <= 0x100 * (PI2 as int)) by (nonlinear_arith)
                requires
                    self.overtone <= 0xff,
            ;
        }
        let unscaled = mul_fix(base, self.sample_time);
        proof {
            crate::math::lemma_mul_fix_bounds(
                unscaled as int,
                interval.spec_ratio() as int,
                0x100 * (PI2 as int),
                0xffff * (FIXED_ONE as int),
            );
            assert((unscaled as int) * (interval.spec_ratio() as int) <= 0x7fff_ffff_ffff_ffff * (
            FIXED_ONE as int)) by (nonlinear_arith)
                requires
                    0 <= unscaled <= 0x100 * (PI2 as int),
                    0 <= interval.spec_ratio() <= 0xffff * (FIXED_ONE as int),
            ;
        }
        self.interval = interval;
        self.frequency_multiplier = mul_fix(unscaled, interval.get_ratio());
    }

    /// Sets a new phase value, folded into one turn.
    pub fn set_phase(&mut self, phase: SampleCalc)
        requires
            old(self).wf(),
            0 <= phase,
        ensures
            final(self).wf(),
            final(self).phase == (phase as int) % (PI2 as int),
            *final(self) == (Wave { phase: final(self).phase, ..*old(self) }),
    {
        self.phase = mod_fix(phase, PI2);
    }
}

/// The phase of every well-formed wave lies in `[0, two pi)`: construction
/// starts it there and every buffer generation folds it back.
pub proof fn lemma_wave_phase_wrapped(w: Wave)
    requires
        w.wf(),
    ensures
        0 <= w.phase < PI2,
{
}

/// The contribution of one overtone's wave to sample `i` of a timbre: the
/// sine of the wave's accumulated phase, scaled by the overtone's momentary
/// amplitude.
pub open spec fn spec_timbre_term(
    w: Wave,
    amp: AmplitudeOvertonesProvider,
    o: int,
    base: Seq<SampleCalc>,
    i: int,
) -> int {
    spec_mul_fix(
        spec_sin_fix(spec_wave_phase(w.phase as int, base, w.frequency_multiplier as int, i + 1)),
        amp.spec_apply_factor(o, i),
    )
}

/// The sum of the contributions of the first `o` overtones to sample `i`.
pub open spec fn spec_timbre_sum(
    waves: Seq<Wave>,
    amp: AmplitudeOvertonesProvider,
    base: Seq<SampleCalc>,
    o: int,
    i: int,
) -> int
    decreases o,
{
    if o <= 0 {
        0
    } else {
        spec_timbre_sum(waves, amp, base, o - 1, i) + spec_timbre_term(
            waves[o - 1],
            amp,
            o - 1,
            base,
            i,
        )
    }
}

/// A tone with optional overtones and amplitude modulation: one sinusoidal
/// wave per overtone, summed after scaling each by the overtone's
/// amplitude.
#[derive(Debug, Clone, PartialEq, Eq)]
pub struct Timbre {
    /// The interval used for transposition of the input frequencies.
    pub interval: Interval,
    /// One wave per overtone.
    pub waves: Vec<Wave>,
    /// The per-overtone amplitude provider.
    pub amplitude_overtones: AmplitudeOvertonesProvider,
    /// The reusable scratch buffer; its length is the configured buffer
    /// size.
    pub wave_buffer: Vec<SampleCalc>,
    /// The number of overtones, fixed at construction.
    pub overtone_max: usize,
}

impl Timbre {
    /// Validity: every wave is valid, the wave count is the configured
    /// overtone count, and the amplitude provider is valid.
    pub open spec fn wf(&self) -> bool {
        &&& self.interval.wf()
        &&& self.waves@.len() == self.overtone_max
        &&& self.overtone_max <= WAVE_OVERTONE_MAX + 1
        &&& forall|o: int| 0 <= o < self.waves@.len() ==> (#[trigger] self.waves@[o]).wf()
        &&& self.amplitude_overtones.wf()
    }

    /// Custom constructor: one wave for each overtone below `overtone_max`,
    /// and a scratch buffer of `buffer_size` samples.
    pub fn new(
        sample_rate: SampleCalc,
        buffer_size: usize,
        amplitude_overtones: AmplitudeOvertonesProvider,
        overtone_max: usize,
    ) -> (r: SoundResult<Timbre>)
        requires
            amplitude_overtones.wf(),
            overtone_max <= WAVE_OVERTONE_MAX + 1,
        ensures
            sample_rate < FIXED_ONE ==> r === Err(Error::SampleRateInvalid),
            sample_rate >= FIXED_ONE ==> (r matches Ok(t) && t.wf() && t.overtone_max
                == overtone_max && t.wave_buffer@.len() == buffer_size && t.amplitude_overtones
                == amplitude_overtones && (forall|o: int|
                0 <= o < t.waves@.len() ==> (#[trigger] t.waves@[o]).overtone == o
                    && t.waves@[o].phase == 0)),
    {
        if sample_rate < FIXED_ONE {
            return Err(Error::SampleRateInvalid);
        }
        let mut waves: Vec<Wave> = Vec::new();
        let mut overtone: usize = 0;
        while overtone < overtone_max
            invariant
                0 <= overtone <= overtone_max <= WAVE_OVERTONE_MAX + 1,
                sample_rate >= FIXED_ONE,
                waves@.len() == overtone,
                forall|o: int| 0 <= o < overtone ==> (#[trigger] waves@[o]).wf(),
                forall|o: int|
                    0 <= o < overtone ==> (#[trigger] waves@[o]).overtone == o && waves@[o].phase
                        == 0,
            decreases overtone_max - overtone,
        {
            let wave = match Wave::new(sample_rate, overtone) {
                Ok(w) => w,
                Err(e) => {
                    return Err(e);
                },
            };
            waves.push(wave);
            overtone = overtone + 1;
        }
        let mut wave_buffer: Vec<SampleCalc> = Vec::new();
        let mut i: usize = 0;
        while i < buffer_size
            invariant
                0 <= i <= buffer_size,
                wave_buffer@.len() == i,
            decreases buffer_size - i,
        {
            wave_buffer.push(0);
            i = i + 1;
        }
        Ok(
            Timbre {
                interval: Interval::default(),
                waves,
                amplitude_overtones,
                wave_buffer,
                overtone_max,
            },
        )
    }

    /// Sets a new frequency interval: every owned wave is retuned.
    pub fn set_interval(&mut self, interval: Interval)
        requires
            old(self).wf(),
            interval.wf(),
            forall|o: int|
                0 <= o < old(self).waves@.len() ==> spec_mul_fix(
                    spec_mul_fix(
                        ((#[trigger] old(self).waves@[o]).overtone + 1) * (PI2 as int),
                        old(self).waves@[o].sample_time as int,
                    ),
                    interval.spec_ratio() as int,
                ) <= WAVE_MULT_LIMIT,
        ensures
            final(self).wf(),
            final(self).interval == interval,
            final(self).waves@.len() == old(self).waves@.len(),
            forall|o: int|
                0 <= o < final(self).waves@.len() ==> (#[trigger] final(self).waves@[o]).interval
                    == interval && final(self).waves@[o].phase == old(self).waves@[o].phase
                    && final(self).waves@[o].overtone == old(self).waves@[o].overtone,
            final(self).amplitude_overtones == old(self).amplitude_overtones,
            final(self).wave_buffer == old(self).wave_buffer,
    {
        self.interval = interval;
        let n = self.waves.len();
        let mut o: usize = 0;
        while o < n
            invariant
                0 <= o <= n,
                n == self.waves@.len(),
                n == old(self).waves@.len(),
                interval.wf(),
                self.interval == interval,
                self.amplitude_overtones == old(self).amplitude_overtones,
                self.wave_buffer == old(self).wave_buffer,
                self.overtone_max == old(self).overtone_max,
                old(self).wf(),
                self.amplitude_overtones.wf(),
                forall|p: int|
                    0 <= p < n ==> spec_mul_fix(
                        spec_mul_fix(
                            ((#[trigger] old(self).waves@[p]).overtone + 1) * (PI2 as int),
                            old(self).waves@[p].sample_time as int,
                        ),
                        interval.spec_ratio() as int,
                    ) <= WAVE_MULT_LIMIT,
                forall|p: int| o <= p < n ==> self.waves@[p] == old(self).waves@[p],
                forall|p: int| 0 <= p < n ==> (#[trigger] self.waves@[p]).wf(),
                forall|p: int|
                    0 <= p < o ==> (#[trigger] self.waves@[p]).interval == interval
                        && self.waves@[p].phase == old(self).waves@[p].phase
                        && self.waves@[p].overtone == old(self).waves@[p].overtone,
            decreases n - o,
        {
            self.waves[o].set_interval(interval);
            o = o + 1;
        }
    }

    /// Sets a new amplitude provider.
    pub fn set_amplitude(&mut self, amplitude_overtones: AmplitudeOvertonesProvider)
        requires
            old(self).wf(),
            amplitude_overtones.wf(),
        ensures
            final(self).wf(),
            *final(self) == (Timbre { amplitude_overtones, ..*old(self) }),
    {
        self.amplitude_overtones = amplitude_overtones;
    }

    /// Returns the calculated samples in the `result` buffer: the sum of
    /// all overtone waves, each scaled by its momentary amplitude. Both
    /// buffers must have exactly the configured buffer size; a mismatch is
    /// refused before anything is written.
    pub fn get(
        &mut self,
        time_start: SampleCalc,
        base_frequency: &Vec<SampleCalc>,
        result: &mut Vec<SampleCalc>,
    ) -> (r: SoundResult<()>)
        requires
            old(self).wf(),
            forall|i: int|
                0 <= i < base_frequency@.len() ==> 0 <= #[trigger] base_frequency@[i]
                    <= TONE_FREQUENCY_MAX,
        ensures
            base_frequency@.len() != old(self).wave_buffer@.len() ==> (r === Err(Error::BufferSize)
                && *final(self) == *old(self) && final(result)@ == old(result)@),
            base_frequency@.len() == old(self).wave_buffer@.len() && old(result)@.len() != old(self).wave_buffer@.len() ==> (r === Err(Error::BufferSize) && *final(self) == *old(self)
                && final(result)@ == old(result)@),
            base_frequency@.len() == old(self).wave_buffer@.len() && old(result)@.len() == old(self).wave_buffer@.len() ==> ({
                let n = old(result)@.len() as int;
                let waves0 = old(self).waves@;
                let amp0 = old(self).amplitude_overtones;
                &&& r === Ok(())
                &&& final(self).wf()
                &&& final(result)@.len() == n
                &&& (forall|i: int|
                    0 <= i < n ==> #[trigger] final(result)@[i] == spec_timbre_sum(
                        waves0,
                        amp0,
                        base_frequency@,
                        waves0.len() as int,
                        i,
                    ))
                &&& final(self).waves@.len() == waves0.len()
                &&& (forall|o: int|
                    0 <= o < waves0.len() ==> #[trigger] final(self).waves@[o] == (Wave {
                        phase: spec_wave_phase(
                            waves0[o].phase as int,
                            base_frequency@,
                            waves0[o].frequency_multiplier as int,
                            n,
                        ) as i64,
                        ..waves0[o]
                    }))
                &&& amp0.spec_same_but_amplitude(&final(self).amplitude_overtones)
                &&& (forall|j: int|
                    0 <= j < amp0.spec_amp_view().len()
                        ==> #[trigger] final(self).amplitude_overtones.spec_amp_view()[j] == (if j
                        < waves0.len() {
                        spec_decay_amp(
                            amp0.spec_amp_view()[j] as int,
                            amp0.spec_mult_view()[j] as int,
                            n,
                        ) as i64
                    } else {
                        amp0.spec_amp_view()[j]
                    }))
                &&& final(self).interval == old(self).interval
                &&& final(self).overtone_max == old(self).overtone_max
                &&& final(self).wave_buffer@.len() == old(self).wave_buffer@.len()
            }),
    {
        let buffer_size = self.wave_buffer.len();
        if base_frequency.len() != buffer_size {
            return Err(Error::BufferSize);
        }
        if result.len() != buffer_size {
            return Err(Error::BufferSize);
        }
        let n = buffer_size;
        let ghost waves0 = self.waves@;
        let ghost amp0 = self.amplitude_overtones;
        let mut i: usize = 0;
        while i < n
            invariant
                0 <= i <= n,
                n == result@.len(),
                forall|j: int| 0 <= j < i ==> #[trigger] result@[j] == 0,
            decreases n - i,
        {
            result[i] = 0;
            i = i + 1;
        }
        proof {
            assert forall|j: int| 0 <= j < n implies #[trigger] result@[j] == spec_timbre_sum(
                waves0,
                amp0,
                base_frequency@,
                0,
                j,
            ) by {}
        }
        let overtone_count = self.waves.len();
        let mut o: usize = 0;
        while o < overtone_count
            invariant
                0 <= o <= overtone_count,
                overtone_count == waves0.len(),
                n == result@.len(),
                n == base_frequency@.len(),
                n == self.wave_buffer@.len(),
                waves0 == old(self).waves@,
                amp0 == old(self).amplitude_overtones,
                amp0.wf(),
                old(self).wf(),
                self.waves@.len() == waves0.len(),
                self.interval == old(self).interval,
                self.overtone_max == old(self).overtone_max,
                forall|i2: int|
                    0 <= i2 < base_frequency@.len() ==> 0 <= #[trigger] base_frequency@[i2]
                        <= TONE_FREQUENCY_MAX,
                forall|p: int| o <= p < waves0.len() ==> self.waves@[p] == waves0[p],
                forall|p: int| 0 <= p < waves0.len() ==> (#[trigger] self.waves@[p]).wf(),
                forall|p: int|
                    0 <= p < o ==> #[trigger] self.waves@[p] == (Wave {
                        phase: spec_wave_phase(
                            waves0[p].phase as int,
                            base_frequency@,
                            waves0[p].frequency_multiplier as int,
                            n as int,
                        ) as i64,
                        ..waves0[p]
                    }),
                self.amplitude_overtones.wf(),
                amp0.spec_same_but_amplitude(&self.amplitude_overtones),
                self.amplitude_overtones.spec_amp_view().len() == amp0.spec_amp_view().len(),
                self.amplitude_overtones.spec_mult_view() == amp0.spec_mult_view(),
                forall|j: int|
                    0 <= j < amp0.spec_amp_view().len()
                        ==> #[trigger] self.amplitude_overtones.spec_amp_view()[j] == (if j < o {
                        spec_decay_amp(
                            amp0.spec_amp_view()[j] as int,
                            amp0.spec_mult_view()[j] as int,
                            n as int,
                        ) as i64
                    } else {
                        amp0.spec_amp_view()[j]
                    }),
                forall|j: int|
                    0 <= j < n ==> #[trigger] result@[j] == spec_timbre_sum(
                        waves0,
                        amp0,
                        base_frequency@,
                        o as int,
                        j,
                    ),
                forall|j: int|
                    0 <= j < n ==> -(o as int) * (FIXED_ONE as int) <= #[trigger] result@[j] <= (
                    o as int) * (FIXED_ONE as int),
            decreases overtone_count - o,
        {
            match self.waves[o].get(base_frequency, &mut self.wave_buffer) {
                Ok(()) => {},
                Err(e) => {
                    return Err(e);
                },
            }
            proof {
                assert forall|j: int| 0 <= j < n implies -FIXED_ONE
                    <= #[trigger] self.wave_buffer@[j] <= FIXED_ONE by {
                    crate::math::lemma_sin_fix_bounds(
                        spec_wave_phase(
                            waves0[o as int].phase as int,
                            base_frequency@,
                            waves0[o as int].frequency_multiplier as int,
                            j + 1,
                        ),
                    );
                }
            }
            let ghost buffer_sin = self.wave_buffer@;
            match self.amplitude_overtones.apply(o, &mut self.wave_buffer) {
                Ok(()) => {},
                Err(e) => {
                    return Err(e);
                },
            }
            proof {
                assert forall|j: int| 0 <= j < n implies (#[trigger] self.wave_buffer@[j]
                    == spec_timbre_term(waves0[o as int], amp0, o as int, base_frequency@, j))
                    && -FIXED_ONE <= self.wave_buffer@[j] <= FIXED_ONE by {
                    lemma_amp_factor_bounds(amp0, o as int, j);
                    crate::math::lemma_sin_fix_bounds(
                        spec_wave_phase(
                            waves0[o as int].phase as int,
                            base_frequency@,
                            waves0[o as int].frequency_multiplier as int,
                            j + 1,
                        ),
                    );
                    crate::math::lemma_mul_fix_abs_bounds(
                        buffer_sin[j] as int,
                        amp0.spec_apply_factor(o as int, j),
                        FIXED_ONE as int,
                        FIXED_ONE as int,
                    );
                }
            }
            proof {
                assert forall|j: int| 0 <= j < amp0.spec_amp_view().len()
                    implies #[trigger] self.amplitude_overtones.spec_amp_view()[j] == (if j < (
                o as int) + 1 {
                    spec_decay_amp(
                        amp0.spec_amp_view()[j] as int,
                        amp0.spec_mult_view()[j] as int,
                        n as int,
                    ) as i64
                } else {
                    amp0.spec_amp_view()[j]
                }) by {
                    crate::amplitude_overtones::lemma_decay_amp_one(
                        amp0.spec_amp_view()[j] as int,
                        n as int,
                    );
                }
            }
            let mut i2: usize = 0;
            while i2 < n
                invariant
                    0 <= i2 <= n,
                    o < overtone_count,
                    overtone_count <= WAVE_OVERTONE_MAX + 1,
                    overtone_count == waves0.len(),
                    n == result@.len(),
                    n == self.wave_buffer@.len(),
                    forall|j: int|
                        0 <= j < n ==> (#[trigger] self.wave_buffer@[j] == spec_timbre_term(
                            waves0[o as int],
                            amp0,
                            o as int,
                            base_frequency@,
                            j,
                        ) && -FIXED_ONE <= self.wave_buffer@[j] <= FIXED_ONE),
                    forall|j: int|
                        i2 <= j < n ==> #[trigger] result@[j] == spec_timbre_sum(
                            waves0,
                            amp0,
                            base_frequency@,
                            o as int,
                            j,
                        ),
                    forall|j: int|
                        i2 <= j < n ==> -(o as int) * (FIXED_ONE as int) <= #[trigger] result@[j]
                            <= (o as int) * (FIXED_ONE as int),
                    forall|j: int|
                        0 <= j < i2 ==> #[trigger] result@[j] == spec_timbre_sum(
                            waves0,
                            amp0,
                            base_frequency@,
                            o as int + 1,
                            j,
                        ),
                    forall|j: int|
                        0 <= j < i2 ==> -(o as int + 1) * (FIXED_ONE as int)
                            <= #[trigger] result@[j] <= (o as int + 1) * (FIXED_ONE as int),
                decreases n - i2,
            {
                proof {
                    assert((o as int) * (FIXED_ONE as int) + FIXED_ONE == (o as int + 1) * (
                    FIXED_ONE as int)) by (nonlinear_arith);
                    assert(-((o as int) * (FIXED_ONE as int)) - FIXED_ONE == -((o as int + 1) * (
                    FIXED_ONE as int))) by (nonlinear_arith);
                }
                let value = result[i2] + self.wave_buffer[i2];
                result[i2] = value;
                i2 = i2 + 1;
            }
            o = o + 1;
        }
        let _ = time_start;
        Ok(())
    }
}

/// The largest accepted relative channel volume, two hundred and fifty six
/// in fixed point.
pub const VOLUME_LIMIT: i64 = 0x100_0000_0000;

/// The largest accepted channel count of a mixer.
pub const CHANNEL_COUNT_LIMIT: usize = 0xffff;

/// A bound on one channel's contribution to one sample of the mix.
pub const CHANNEL_TERM_LIMIT: i64 = 0x100_0000_0000;

/// A sound component: the closed set of structures a mixer channel can
/// carry. The one concrete sound structure of this library is the timbre.
#[derive(Debug, Clone, PartialEq, Eq)]
pub enum SoundStructure {
    /// A tone with overtones and amplitude modulation.
    Timbre(Timbre),
}

impl SoundStructure {
    /// Validity of the inner structure.
    pub open spec fn wf(&self) -> bool {
        match *self {
            SoundStructure::Timbre(t) => t.wf(),
        }
    }

    /// The buffer size the inner structure was configured with.
    pub open spec fn spec_buffer_size(&self) -> int {
        match *self {
            SoundStructure::Timbre(t) => t.wave_buffer@.len() as int,
        }
    }

    /// Returns the calculated samples in the `result` buffer.
    pub fn get(
        &mut self,
        time_start: SampleCalc,
        base_frequency: &Vec<SampleCalc>,
        result: &mut Vec<SampleCalc>,
    ) -> (r: SoundResult<()>)
        requires
            old(self).wf(),
            forall|i: int|
                0 <= i < base_frequency@.len() ==> 0 <= #[trigger] base_frequency@[i]
                    <= TONE_FREQUENCY_MAX,
        ensures
            final(self).wf(),
            final(self).spec_buffer_size() == old(self).spec_buffer_size(),
            final(result)@.len() == old(result)@.len(),
            base_frequency@.len() == old(self).spec_buffer_size() && old(result)@.len() == old(self).spec_buffer_size() ==> (r === Ok(()) && forall|i: int|
                0 <= i < old(result)@.len() ==> #[trigger] final(result)@[i]
                    == old(self).spec_samples(base_frequency@)[i]),
            !(base_frequency@.len() == old(self).spec_buffer_size() && old(result)@.len() == old(self).spec_buffer_size()) ==> (r === Err(Error::BufferSize) && *final(self) == *old(self)
                && final(result)@ == old(result)@),
    {
        match self {
            SoundStructure::Timbre(t) => t.get(time_start, base_frequency, result),
        }
    }

    /// The samples this structure computes for the given frequencies, one
    /// for each sample of its configured buffer.
    pub open spec fn spec_samples(&self, base: Seq<SampleCalc>) -> Seq<int> {
        match *self {
            SoundStructure::Timbre(t) => Seq::new(
                t.wave_buffer@.len(),
                |i: int|
                    spec_timbre_sum(
                        t.waves@,
                        t.amplitude_overtones,
                        base,
                        t.waves@.len() as int,
                        i,
                    ),
            ),
        }
    }
}

/// Channel structure used for mixing sound structures.
#[derive(Debug, Clone, PartialEq, Eq)]
pub struct MixerChannel {
    /// The interval of the channel's frequency relative to the mixer's
    /// input frequency.
    pub interval: Interval,
    /// Sound structure.
    pub sound: SoundStructure,
    /// The channel's relative volume.
    pub volume_relative: SampleCalc,
    /// The channel's volume after normalization over all channels.
    pub volume_normalized: SampleCalc,
    /// Private scratch buffer for the transposed frequencies.
    pub frequency_buffer: Vec<SampleCalc>,
    /// Private scratch buffer for the generated samples.
    pub wave_buffer: Vec<SampleCalc>,
}

impl MixerChannel {
    /// Validity of one channel for a given mixer buffer size.
    pub open spec fn wf(&self, buffer_size: int) -> bool {
        &&& self.interval.wf()
        &&& self.sound.wf()
        &&& self.sound.spec_buffer_size() == buffer_size
        &&& 0 <= self.volume_relative <= VOLUME_LIMIT
        &&& 0 <= self.volume_normalized <= FIXED_ONE
        &&& self.frequency_buffer@.len() == buffer_size
        &&& self.wave_buffer@.len() == buffer_size
    }
}

/// The relative volumes of a mixer's channels, as a sequence.
pub open spec fn spec_volumes(channels: Seq<MixerChannel>) -> Seq<SampleCalc> {
    Seq::new(channels.len(), |i: int| channels[i].volume_relative)
}

/// Mixes sound channels (structures): each channel's sound runs on the
/// input frequencies transposed by the channel's interval, and the outputs
/// are summed with normalized volumes.
#[derive(Debug, Clone, PartialEq, Eq)]
pub struct Mixer {
    /// The configured buffer size.
    pub buffer_size: usize,
    /// The channels.
    pub channels: Vec<MixerChannel>,
}

impl Mixer {
    /// Validity: every channel is valid for the configured buffer size.
    pub open spec fn wf(&self) -> bool {
        &&& self.channels@.len() <= CHANNEL_COUNT_LIMIT
        &&& forall|i: int|
            0 <= i < self.channels@.len() ==> (#[trigger] self.channels@[i]).wf(
                self.buffer_size as int,
            )
    }

    /// Custom constructor.
    pub fn new(buffer_size: usize) -> (r: SoundResult<Mixer>)
        ensures
            r matches Ok(m) && m.wf() && m.buffer_size == buffer_size && m.channels@.len() == 0,
    {
        Ok(Mixer { buffer_size, channels: Vec::new() })
    }

    /// Add a new channel to the mixer, and renormalize all channel volumes.
    pub fn add(&mut self, interval: Interval, sound: SoundStructure, volume: SampleCalc) -> (r:
        SoundResult<()>)
        requires
            old(self).wf(),
            interval.wf(),
            sound.wf(),
            sound.spec_buffer_size() == old(self).buffer_size as int,
            volume <= VOLUME_LIMIT,
            old(self).channels@.len() < CHANNEL_COUNT_LIMIT,
        ensures
            final(self).buffer_size == old(self).buffer_size,
            volume < 0 ==> (r === Err(Error::AmplitudeInvalid) && *final(self) == *old(self)),
            volume >= 0 ==> (r === Ok(()) && final(self).wf() && final(self).channels@.len()
                == old(self).channels@.len() + 1 && final(self).spec_normalized_of(
                spec_volumes(final(self).channels@),
            ) && (forall|i: int|
                0 <= i < old(self).channels@.len()
                    ==> (#[trigger] final(self).channels@[i]).volume_relative == old(self).channels@[i].volume_relative) && final(self).channels@[old(self).channels@.len() as int].volume_relative == volume),
    {
        if volume < 0 {
            return Err(Error::AmplitudeInvalid);
        }
        let mut frequency_buffer: Vec<SampleCalc> = Vec::new();
        let mut wave_buffer: Vec<SampleCalc> = Vec::new();
        let mut i: usize = 0;
        while i < self.buffer_size
            invariant
                0 <= i <= self.buffer_size,
                frequency_buffer@.len() == i,
                wave_buffer@.len() == i,
                self == old(self),
            decreases self.buffer_size - i,
        {
            frequency_buffer.push(FIXED_ONE);
            wave_buffer.push(0);
            i = i + 1;
        }
        let channel = MixerChannel {
            interval,
            sound,
            volume_relative: volume,
            volume_normalized: 0,
            frequency_buffer,
            wave_buffer,
        };
        self.channels.push(channel);
        let ghost pre = self.channels@;
        proof {
            assert forall|p: int| 0 <= p < self.channels@.len() implies 0 <= (
            #[trigger] self.channels@[p]).volume_relative <= VOLUME_LIMIT by {
                if p < old(self).channels@.len() {
                    assert(old(self).channels@[p].wf(old(self).buffer_size as int));
                }
            }
        }
        self.normalize();
        proof {
            assert(spec_volumes(self.channels@) =~= spec_volumes(pre));
            assert forall|p: int| 0 <= p < self.channels@.len() implies (
            #[trigger] self.channels@[p]).wf(self.buffer_size as int) by {
                assert(self.channels@[p] == (MixerChannel {
                    volume_normalized: self.channels@[p].volume_normalized,
                    ..pre[p]
                }));
            }
        }
        Ok(())
    }

    /// Whether the stored normalized volumes are exactly the normalization
    /// of the given relative volumes: each divided by the total when the
    /// total reaches one, each kept as it is in a quiet mix.
    pub open spec fn spec_normalized_of(&self, volumes: Seq<SampleCalc>) -> bool {
        let total = crate::math::spec_sum_fix(volumes, volumes.len() as int);
        &&& self.channels@.len() == volumes.len()
        &&& forall|i: int|
            0 <= i < self.channels@.len() ==> (#[trigger] self.channels@[i]).volume_normalized
                == (if total < FIXED_ONE {
                volumes[i]
            } else {
                crate::math::spec_div_fix(volumes[i] as int, total) as i64
            })
    }

    /// Generates the normalized volumes for the channels. Only normalizes
    /// if the sum of volumes reaches one: a quiet mix is not boosted.
    pub fn normalize(&mut self)
        requires
            old(self).channels@.len() <= CHANNEL_COUNT_LIMIT,
            forall|i: int|
                0 <= i < old(self).channels@.len() ==> 0 <= (
                #[trigger] old(self).channels@[i]).volume_relative <= VOLUME_LIMIT,
        ensures
            final(self).channels@.len() == old(self).channels@.len(),
            final(self).buffer_size == old(self).buffer_size,
            forall|i: int|
                0 <= i < old(self).channels@.len() ==> #[trigger] final(self).channels@[i]
                    == (MixerChannel {
                    volume_normalized: final(self).channels@[i].volume_normalized,
                    ..old(self).channels@[i]
                }),
            final(self).spec_normalized_of(spec_volumes(old(self).channels@)),
            forall|i: int|
                0 <= i < final(self).channels@.len() ==> 0 <= (
                #[trigger] final(self).channels@[i]).volume_normalized <= FIXED_ONE,
    {
        let count = self.channels.len();
        let ghost vols = spec_volumes(old(self).channels@);
        let mut volume_sum: i64 = 0;
        let mut i: usize = 0;
        while i < count
            invariant
                0 <= i <= count,
                count == self.channels@.len(),
                self == old(self),
                count <= CHANNEL_COUNT_LIMIT,
                vols == spec_volumes(old(self).channels@),
                forall|j: int|
                    0 <= j < count ==> 0 <= (#[trigger] old(self).channels@[j]).volume_relative
                        <= VOLUME_LIMIT,
                volume_sum == crate::math::spec_sum_fix(vols, i as int),
                0 <= volume_sum <= (i as int) * (VOLUME_LIMIT as int),
            decreases count - i,
        {
            proof {
                assert((i as int) * (VOLUME_LIMIT as int) + VOLUME_LIMIT == (i as int + 1) * (
                VOLUME_LIMIT as int)) by (nonlinear_arith);
                assert(vols[i as int] == old(self).channels@[i as int].volume_relative);
            }
            volume_sum = volume_sum + self.channels[i].volume_relative;
            i = i + 1;
        }
        let mut j: usize = 0;
        while j < count
            invariant
                0 <= j <= count,
                count == self.channels@.len(),
                self.channels@.len() == old(self).channels@.len(),
                self.buffer_size == old(self).buffer_size,
                count <= CHANNEL_COUNT_LIMIT,
                vols == spec_volumes(old(self).channels@),
                forall|p: int|
                    0 <= p < count ==> 0 <= (#[trigger] old(self).channels@[p]).volume_relative
                        <= VOLUME_LIMIT,
                volume_sum == crate::math::spec_sum_fix(vols, count as int),
                0 <= volume_sum,
                forall|p: int|
                    j <= p < count ==> #[trigger] self.channels@[p] == old(self).channels@[p],
                forall|p: int|
                    0 <= p < j ==> #[trigger] self.channels@[p] == (MixerChannel {
                        volume_normalized: self.channels@[p].volume_normalized,
                        ..old(self).channels@[p]
                    }),
                forall|p: int|
                    0 <= p < j ==> (#[trigger] self.channels@[p]).volume_normalized == (if (
                    volume_sum as int) < FIXED_ONE {
                        vols[p]
                    } else {
                        crate::math::spec_div_fix(vols[p] as int, volume_sum as int) as i64
                    }),
                forall|p: int|
                    0 <= p < j ==> 0 <= (#[trigger] self.channels@[p]).volume_normalized
                        <= FIXED_ONE,
            decreases count - j,
        {
            proof {
                assert(vols[j as int] == old(self).channels@[j as int].volume_relative);
                crate::math::lemma_sum_fix_element_le(vols, count as int, j as int);
            }
            let vr = self.channels[j].volume_relative;
            let vn: i64;
            if volume_sum < FIXED_ONE {
                vn = vr;
            } else {
                proof {
                    vstd::arithmetic::div_mod::lemma_div_is_ordered(
                        (vr as int) * (FIXED_ONE as int),
                        (volume_sum as int) * (FIXED_ONE as int),
                        volume_sum as int,
                    );
                    vstd::arithmetic::div_mod::lemma_div_multiples_vanish(
                        FIXED_ONE as int,
                        volume_sum as int,
                    );
                    assert((vr as int) * (FIXED_ONE as int) <= (volume_sum as int) * (
                    FIXED_ONE as int)) by (nonlinear_arith)
                        requires
                            0 <= vr <= volume_sum,
                    ;
                }
                vn = crate::math::div_fix(vr, volume_sum);
            }
            self.channels[j].volume_normalized = vn;
            j = j + 1;
        }
    }

    /// Sets a new interval for the channel, relative to the base frequency
    /// of the mixer.
    pub fn set_interval(&mut self, channel: usize, interval: Interval) -> (r: SoundResult<()>)
        requires
            old(self).wf(),
            interval.wf(),
        ensures
            final(self).buffer_size == old(self).buffer_size,
            channel >= old(self).channels@.len() ==> (r === Err(Error::ChannelInvalid) && *final(self) == *old(self)),
            channel < old(self).channels@.len() ==> (r === Ok(()) && final(self).wf() && final(self).channels@ == old(self).channels@.update(
                channel as int,
                (MixerChannel { interval, ..old(self).channels@[channel as int] }),
            )),
    {
        if channel >= self.channels.len() {
            return Err(Error::ChannelInvalid);
        }
        self.channels[channel].interval = interval;
        Ok(())
    }

    /// Sets the relative volume of the channel, and renormalizes all
    /// channel volumes.
    pub fn set_volume(&mut self, channel: usize, volume: SampleCalc) -> (r: SoundResult<()>)
        requires
            old(self).wf(),
            volume <= VOLUME_LIMIT,
        ensures
            final(self).buffer_size == old(self).buffer_size,
            channel >= old(self).channels@.len() ==> (r === Err(Error::ChannelInvalid) && *final(self) == *old(self)),
            channel < old(self).channels@.len() && volume < 0 ==> (r === Err(
                Error::AmplitudeInvalid,
            ) && *final(self) == *old(self)),
            channel < old(self).channels@.len() && volume >= 0 ==> (r === Ok(()) && final(self).wf() && final(self).channels@.len() == old(self).channels@.len() && final(self).channels@[channel as int].volume_relative == volume && final(self).spec_normalized_of(
                spec_volumes(final(self).channels@),
            )),
    {
        if channel >= self.channels.len() {
            return Err(Error::ChannelInvalid);
        }
        if volume < 0 {
            return Err(Error::AmplitudeInvalid);
        }
        self.channels[channel].volume_relative = volume;
        let ghost pre = self.channels@;
        proof {
            assert forall|p: int| 0 <= p < self.channels@.len() implies 0 <= (
            #[trigger] self.channels@[p]).volume_relative <= VOLUME_LIMIT by {
                if p != channel as int {
                    assert(old(self).channels@[p].wf(old(self).buffer_size as int));
                }
            }
        }
        self.normalize();
        proof {
            assert(spec_volumes(self.channels@) =~= spec_volumes(pre));
            assert forall|p: int| 0 <= p < self.channels@.len() implies (
            #[trigger] self.channels@[p]).wf(self.buffer_size as int) by {
                assert(self.channels@[p] == (MixerChannel {
                    volume_normalized: self.channels@[p].volume_normalized,
                    ..pre[p]
                }));
                if p != channel as int {
                    assert(old(self).channels@[p].wf(old(self).buffer_size as int));
                }
            }
        }
        Ok(())
    }
}

/// Normalized mixer volumes sum to one, up to one rounding step per
/// channel, whenever the relative volumes reach one in total: the mixer
/// never boosts a quiet mix and never exceeds unity.
pub proof fn lemma_mixer_normalization(volumes: Seq<SampleCalc>, total: int)
    requires
        0 < volumes.len(),
        forall|i: int| 0 <= i < volumes.len() ==> 0 <= #[trigger] volumes[i],
        total == crate::math::spec_sum_fix(volumes, volumes.len() as int),
        total >= FIXED_ONE,
    ensures
        (FIXED_ONE as int) - volumes.len() < crate::math::spec_norm_sum(
            volumes,
            total,
            volumes.len() as int,
        ) <= FIXED_ONE as int,
{
    crate::math::lemma_norm_sum_close_to_one(volumes, volumes.len() as int);
}

/// Mixes two sound structures: while one fades out, another fades in,
/// with an optional transposing interval for the incoming sound.
#[derive(Debug, Clone, PartialEq, Eq)]
pub struct Crossfader {
    /// The duration of the crossfade.
    pub duration: SampleCalc,
    /// The sound fading out.
    pub sound_fade_out: SoundStructure,
    /// The sound fading in.
    pub sound_fade_in: SoundStructure,
    /// The interval of the fading in sound relative to the fading out one.
    pub interval: Interval,
    /// The fading out envelope.
    pub amplitude_fade_out: crate::amplitude::FadeLinear,
    /// The fading in envelope.
    pub amplitude_fade_in: crate::amplitude::FadeLinear,
}

impl Crossfader {
    /// Validity of the parts.
    pub open spec fn wf(&self) -> bool {
        &&& self.duration > 0
        &&& self.sound_fade_out.wf()
        &&& self.sound_fade_in.wf()
        &&& self.interval.wf()
        &&& self.amplitude_fade_out.wf()
        &&& self.amplitude_fade_in.wf()
    }

    /// Custom constructor: a fade-out envelope from full amplitude and a
    /// fade-in envelope toward full amplitude, over the same duration.
    /// A non-positive duration is rejected.
    pub fn new(
        sample_rate: SampleCalc,
        duration: SampleCalc,
        sound_fade_out: SoundStructure,
        sound_fade_in: SoundStructure,
    ) -> (r: SoundResult<Crossfader>)
        requires
            sound_fade_out.wf(),
            sound_fade_in.wf(),
            duration <= FIXED_LIMIT,
            duration > 0 ==> duration >= crate::progress::PERIOD_MIN,
        ensures
            sample_rate < FIXED_ONE ==> r === Err(Error::SampleRateInvalid),
            sample_rate >= FIXED_ONE && duration <= 0 ==> r === Err(Error::DurationInvalid),
            sample_rate >= FIXED_ONE && duration > 0 ==> r is Ok,
            r matches Ok(c) ==> c.wf() && c.duration == duration && c.sound_fade_out
                == sound_fade_out && c.sound_fade_in == sound_fade_in
                && c.interval.spec_numerator() == 1 && c.interval.spec_denominator() == 1,
    {
        if sample_rate >= FIXED_ONE && duration <= 0 {
            return Err(Error::DurationInvalid);
        }
        let mut amplitude_fade_out = match crate::amplitude::FadeLinear::new_with_time(
            sample_rate,
            duration,
            0,
        ) {
            Ok(f) => f,
            Err(e) => {
                return Err(e);
            },
        };
        match amplitude_fade_out.set_amplitude_start(FIXED_ONE) {
            Ok(()) => {},
            Err(e) => {
                return Err(e);
            },
        }
        let amplitude_fade_in = match crate::amplitude::FadeLinear::new_with_time(
            sample_rate,
            duration,
            FIXED_ONE,
        ) {
            Ok(f) => f,
            Err(e) => {
                return Err(e);
            },
        };
        Ok(
            Crossfader {
                duration,
                sound_fade_out,
                sound_fade_in,
                interval: Interval::default(),
                amplitude_fade_out,
                amplitude_fade_in,
            },
        )
    }

    /// Sets an interval for the fading in sound (relative to the fading out
    /// one).
    pub fn set_interval(&mut self, interval: Interval)
        requires
            old(self).wf(),
            interval.wf(),
        ensures
            final(self).wf(),
            *final(self) == (Crossfader { interval, ..*old(self) }),
    {
        self.interval = interval;
    }

    /// Returns the duration of the crossfade.
    pub fn get_duration(&self) -> (r: SampleCalc)
        ensures
            r == self.duration,
    {
        self.duration
    }
}

/// Every channel's transposition of every input frequency lies within the
/// perceivable range: the condition under which a whole mix succeeds.
pub open spec fn spec_mix_in_range(channels: Seq<MixerChannel>, base: Seq<SampleCalc>) -> bool {
    forall|c: int, i: int|
        0 <= c < channels.len() && 0 <= i < base.len()
            ==> crate::interval::spec_frequency_in_range(
            #[trigger] spec_mul_fix(base[i] as int, channels[c].interval.spec_ratio() as int),
        )
}

/// The frequencies a channel hands to its sound: the mixer's input
/// frequencies transposed by the channel's interval.
pub open spec fn spec_channel_freqs(ch: MixerChannel, base: Seq<SampleCalc>) -> Seq<SampleCalc> {
    Seq::new(base.len(), |i: int| spec_mul_fix(base[i] as int, ch.interval.spec_ratio() as int) as i64)
}

/// The contribution of one channel to sample `i` of the mix.
pub open spec fn spec_mixer_term(ch: MixerChannel, base: Seq<SampleCalc>, i: int) -> int {
    spec_mul_fix(
        ch.sound.spec_samples(spec_channel_freqs(ch, base))[i],
        ch.volume_normalized as int,
    )
}

/// The sum of the contributions of the first `c` channels to sample `i`.
pub open spec fn spec_mixer_sum(
    channels: Seq<MixerChannel>,
    base: Seq<SampleCalc>,
    c: int,
    i: int,
) -> int
    decreases c,
{
    if c <= 0 {
        0
    } else {
        spec_mixer_sum(channels, base, c - 1, i) + spec_mixer_term(channels[c - 1], base, i)
    }
}

/// A timbre's sample is bounded by one fixed-point unit per overtone.
pub proof fn lemma_timbre_sum_bound(
    waves: Seq<Wave>,
    amp: AmplitudeOvertonesProvider,
    base: Seq<SampleCalc>,
    o: int,
    i: int,
)
    requires
        amp.wf(),
        0 <= i,
        0 <= o,
    ensures
        -o * (FIXED_ONE as int) <= spec_timbre_sum(waves, amp, base, o, i) <= o * (
        FIXED_ONE as int),
    decreases o,
{
    if o <= 0 {
    } else {
        lemma_timbre_sum_bound(waves, amp, base, o - 1, i);
        lemma_amp_factor_bounds(amp, o - 1, i);
        crate::math::lemma_sin_fix_bounds(
            spec_wave_phase(
                waves[o - 1].phase as int,
                base,
                waves[o - 1].frequency_multiplier as int,
                i + 1,
            ),
        );
        crate::math::lemma_mul_fix_abs_bounds(
            spec_sin_fix(
                spec_wave_phase(
                    waves[o - 1].phase as int,
                    base,
                    waves[o - 1].frequency_multiplier as int,
                    i + 1,
                ),
            ),
            amp.spec_apply_factor(o - 1, i),
            FIXED_ONE as int,
            FIXED_ONE as int,
        );
        assert((o - 1) * (FIXED_ONE as int) + FIXED_ONE == o * (FIXED_ONE as int))
            by (nonlinear_arith);
    }
}

impl Mixer {
    /// Returns the calculated samples in the `result` buffer: the sum over
    /// all channels of the channel's sound on the transposed frequencies,
    /// scaled by the channel's normalized volume. A range violation during
    /// transposition stops the mix at that channel; the channels already
    /// mixed keep their advanced state, as the scratch buffers document.
    pub fn get(
        &mut self,
        time_start: SampleCalc,
        base_frequency: &Vec<SampleCalc>,
        result: &mut Vec<SampleCalc>,
    ) -> (r: SoundResult<()>)
        requires
            old(self).wf(),
            forall|i: int|
                0 <= i < base_frequency@.len() ==> 0 <= #[trigger] base_frequency@[i]
                    <= TONE_FREQUENCY_MAX,
        ensures
            final(self).wf(),
            final(self).buffer_size == old(self).buffer_size,
            final(self).channels@.len() == old(self).channels@.len(),
            final(result)@.len() == old(result)@.len(),
            base_frequency@.len() != old(result)@.len() ==> (r === Err(Error::BufferSize)
                && *final(self) == *old(self) && final(result)@ == old(result)@),
            forall|c: int|
                0 <= c < old(self).channels@.len() ==> ((#[trigger] final(self).channels@[c]).interval == old(self).channels@[c].interval && final(self).channels@[c].volume_relative
                    == old(self).channels@[c].volume_relative && final(self).channels@[c].volume_normalized == old(self).channels@[c].volume_normalized),
            base_frequency@.len() == old(result)@.len() ==> (r === Ok(()) <==> (old(self).channels@.len() == 0 || (base_frequency@.len() == old(self).buffer_size as int
                && spec_mix_in_range(old(self).channels@, base_frequency@)))),
            base_frequency@.len() == old(result)@.len() && !(r === Ok(())) ==> (r === Err(
                Error::BufferSize,
            ) || r === Err(Error::FrequencyTooLow) || r === Err(Error::FrequencyTooHigh)),
            r === Ok(()) && base_frequency@.len() == old(result)@.len() ==> (forall|i: int|
                0 <= i < old(result)@.len() ==> #[trigger] final(result)@[i] == spec_mixer_sum(
                    old(self).channels@,
                    base_frequency@,
                    old(self).channels@.len() as int,
                    i,
                )),
    {
        if base_frequency.len() != result.len() {
            return Err(Error::BufferSize);
        }
        let n = result.len();
        let ghost channels0 = self.channels@;
        let mut i: usize = 0;
        while i < n
            invariant
                0 <= i <= n,
                n == result@.len(),
                forall|j: int| 0 <= j < i ==> #[trigger] result@[j] == 0,
            decreases n - i,
        {
            result[i] = 0;
            i = i + 1;
        }
        let count = self.channels.len();
        let bs = self.buffer_size;
        let mut c: usize = 0;
        while c < count
            invariant
                0 <= c <= count,
                count == self.channels@.len(),
                count == channels0.len(),
                count <= CHANNEL_COUNT_LIMIT,
                channels0 == old(self).channels@,
                n == result@.len(),
                n == old(result)@.len(),
                n == base_frequency@.len(),
                bs == self.buffer_size,
                self.buffer_size == old(self).buffer_size,
                old(self).wf(),
                forall|j: int|
                    0 <= j < base_frequency@.len() ==> 0 <= #[trigger] base_frequency@[j]
                        <= TONE_FREQUENCY_MAX,
                forall|p: int| c <= p < count ==> self.channels@[p] == channels0[p],
                c > 0 ==> n == bs,
                forall|p: int, i: int|
                    0 <= p < c && 0 <= i < n ==> crate::interval::spec_frequency_in_range(
                        #[trigger] spec_mul_fix(
                            base_frequency@[i] as int,
                            channels0[p].interval.spec_ratio() as int,
                        ),
                    ),
                forall|p: int|
                    0 <= p < count ==> (#[trigger] self.channels@[p]).wf(bs as int),
                forall|p: int|
                    0 <= p < count ==> ((#[trigger] self.channels@[p]).interval == channels0[p].interval && self.channels@[p].volume_relative == channels0[p].volume_relative
                        && self.channels@[p].volume_normalized
                        == channels0[p].volume_normalized),
                forall|j: int|
                    0 <= j < n ==> #[trigger] result@[j] == spec_mixer_sum(
                        channels0,
                        base_frequency@,
                        c as int,
                        j,
                    ),
                forall|j: int|
                    0 <= j < n ==> -(c as int) * (CHANNEL_TERM_LIMIT as int)
                        <= #[trigger] result@[j] <= (c as int) * (CHANNEL_TERM_LIMIT as int),
            decreases count - c,
        {
            let ghost ch0 = self.channels@[c as int];
            let ch = &mut self.channels[c];
            match ch.interval.transpose(base_frequency, &mut ch.frequency_buffer) {
                Ok(()) => {},
                Err(e) => {
                    proof {
                        assert forall|p: int| 0 <= p < count implies (
                        #[trigger] self.channels@[p]).wf(bs as int) by {}
                    }
                    return Err(e);
                },
            }
            proof {
                assert(ch.frequency_buffer@ =~= spec_channel_freqs(ch0, base_frequency@));
            }
            match ch.sound.get(time_start, &ch.frequency_buffer, &mut ch.wave_buffer) {
                Ok(()) => {},
                Err(e) => {
                    proof {
                        assert forall|p: int| 0 <= p < count implies (
                        #[trigger] self.channels@[p]).wf(bs as int) by {}
                    }
                    return Err(e);
                },
            }
            let vn = ch.volume_normalized;
            proof {
                match ch0.sound {
                    SoundStructure::Timbre(t) => {
                        assert forall|j: int| 0 <= j < n implies -(FIXED_ONE as int) * 0x100 <= (
                        #[trigger] ch0.sound.spec_samples(
                            spec_channel_freqs(ch0, base_frequency@),
                        )[j]) <= (FIXED_ONE as int) * 0x100 by {
                            lemma_timbre_sum_bound(
                                t.waves@,
                                t.amplitude_overtones,
                                spec_channel_freqs(ch0, base_frequency@),
                                t.waves@.len() as int,
                                j,
                            );
                            assert(t.waves@.len() * (FIXED_ONE as int) <= 0x100 * (
                            FIXED_ONE as int)) by (nonlinear_arith)
                                requires
                                    t.waves@.len() <= 0x100,
                            ;
                        }
                    },
                }
            }
            let mut j: usize = 0;
            while j < n
                invariant
                    0 <= j <= n,
                    c < count,
                    count == channels0.len(),
                    count <= CHANNEL_COUNT_LIMIT,
                    n == result@.len(),
                    n == old(result)@.len(),
                    ch0 == channels0[c as int],
                    0 <= vn <= FIXED_ONE,
                    vn == ch0.volume_normalized,
                    ch.wave_buffer@.len() == n,
                    forall|p: int|
                        0 <= p < n ==> #[trigger] ch.wave_buffer@[p] == ch0.sound.spec_samples(
                            spec_channel_freqs(ch0, base_frequency@),
                        )[p],
                    forall|p: int|
                        0 <= p < n ==> -(FIXED_ONE as int) * 0x100 <= (
                        #[trigger] ch0.sound.spec_samples(
                            spec_channel_freqs(ch0, base_frequency@),
                        )[p]) <= (FIXED_ONE as int) * 0x100,
                    forall|p: int|
                        j <= p < n ==> #[trigger] result@[p] == spec_mixer_sum(
                            channels0,
                            base_frequency@,
                            c as int,
                            p,
                        ),
                    forall|p: int|
                        j <= p < n ==> -(c as int) * (CHANNEL_TERM_LIMIT as int)
                            <= #[trigger] result@[p] <= (c as int) * (CHANNEL_TERM_LIMIT as int),
                    forall|p: int|
                        0 <= p < j ==> #[trigger] result@[p] == spec_mixer_sum(
                            channels0,
                            base_frequency@,
                            c as int + 1,
                            p,
                        ),
                    forall|p: int|
                        0 <= p < j ==> -(c as int + 1) * (CHANNEL_TERM_LIMIT as int)
                            <= #[trigger] result@[p] <= (c as int + 1) * (
                        CHANNEL_TERM_LIMIT as int),
                decreases n - j,
            {
                proof {
                    crate::math::lemma_mul_fix_abs_bounds(
                        ch.wave_buffer@[j as int] as int,
                        vn as int,
                        0x100 * (FIXED_ONE as int),
                        FIXED_ONE as int,
                    );
                    assert((c as int) * (CHANNEL_TERM_LIMIT as int) + CHANNEL_TERM_LIMIT == (
                    c as int + 1) * (CHANNEL_TERM_LIMIT as int)) by (nonlinear_arith);
                    assert(-((c as int) * (CHANNEL_TERM_LIMIT as int)) - CHANNEL_TERM_LIMIT == -((
                    c as int + 1) * (CHANNEL_TERM_LIMIT as int))) by (nonlinear_arith);
                }
                let term = mul_fix(ch.wave_buffer[j], vn);
                let value = result[j] + term;
                result[j] = value;
                j = j + 1;
            }
            proof {
                assert forall|p: int| 0 <= p < count implies (#[trigger] self.channels@[p]).wf(
                    bs as int,
                ) by {}
            }
            c = c + 1;
        }
        let _ = time_start;
        Ok(())
    }
}

/// The momentary amplitude factor of a valid provider lies in `[0, 1]`.
proof fn lemma_amp_factor_bounds(amp: AmplitudeOvertonesProvider, o: int, k: int)
    requires
        amp.wf(),
        0 <= k,
    ensures
        0 <= amp.spec_apply_factor(o, k) <= FIXED_ONE as int,
{
    if 0 <= o < amp.spec_amp_view().len() {
        crate::amplitude_overtones::lemma_decay_amp_monotone(
            amp.spec_amp_view()[o] as int,
            amp.spec_mult_view()[o] as int,
            k + 1,
        );
    }
}

} // verus!
