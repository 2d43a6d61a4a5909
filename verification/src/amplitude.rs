//! Functions which provide amplitude changes.

use vstd::prelude::*;

use crate::amplitude_overtones::spec_decay_amp;
use crate::errors::{Error, SoundResult};
use crate::math::{
    decay_multiplier, lemma_mul_fix_le_one, mul_fix, mul_fix_signed, spec_decay_multiplier,
    spec_mul_fix, spec_mul_fix_signed,
};
use crate::progress::ProgressOption;
use crate::progress::{lemma_phase_steps_between, spec_phase_steps, TEMPO_LIMIT};
use crate::timing::{spec_jump_time_post, spec_parent_timing_post, spec_restart_post, spec_tempo_drain, Timer, TimingOption};
use crate::{FIXED_LIMIT, FIXED_ONE, SampleCalc};

verus! {

/// Checks if the given value is in the valid amplitude range, `[0, 1]`.
pub fn is_valid_amplitude(amplitude: SampleCalc) -> (r: SoundResult<()>)
    ensures
        (0 <= amplitude <= FIXED_ONE) ==> r === Ok(()),
        !(0 <= amplitude <= FIXED_ONE) ==> r === Err(Error::AmplitudeInvalid),
{
    if amplitude < 0 {
        return Err(Error::AmplitudeInvalid);
    }
    if amplitude > FIXED_ONE {
        return Err(Error::AmplitudeInvalid);
    }
    Ok(())
}

/// What a timing allows of a buffer of `n` samples: all of it, a strict
/// prefix, or nothing at all for the wrong timing kind.
pub open spec fn spec_time_budget(timer: Timer, n: int) -> int {
    if (timer.timing matches TimingOption::Unlimited) {
        n
    } else if timer.timing.is_time_kind() {
        if timer.remaining >= n * timer.sample_time {
            n
        } else {
            (timer.remaining as int) / (timer.sample_time as int)
        }
    } else {
        0
    }
}

/// What applying the constant amplitude over the window `[from, to)` does:
/// each sample the timer admits is multiplied by the amplitude, the rest
/// stay; a timed run that ends mid-window reports the first sample it no
/// longer covers.
pub open spec fn spec_const_window_post(
    a0: AmplitudeConst,
    a1: AmplitudeConst,
    s0: Seq<SampleCalc>,
    s1: Seq<SampleCalc>,
    from: int,
    to: int,
    r: SoundResult<()>,
) -> bool {
    &&& a1.amplitude == a0.amplitude
    &&& s1.len() == s0.len()
    &&& ({
        let n = to - from;
        let k = spec_time_budget(a0.timer, n);
        &&& (a0.timer.timing.is_tempo_kind() ==> r === Err(Error::TimingInvalid) && a1 == a0
            && s1 == s0)
        &&& (!a0.timer.timing.is_tempo_kind() ==> {
            &&& (k == n <==> r === Ok(()))
            &&& (k < n ==> r === Err(Error::ItemsCompleted((from + k) as usize)))
            &&& (forall|i: int|
                from <= i < from + k ==> #[trigger] s1[i] == spec_mul_fix(
                    s0[i] as int,
                    a0.amplitude as int,
                ))
            &&& (forall|i: int| (0 <= i < from || from + k <= i < s0.len()) ==> #[trigger] s1[i] == s0[i])
        })
    })
}

/// What applying the decaying amplitude over the window `[from, to)` does:
/// each admitted sample advances the decay one step and is scaled by the
/// running amplitude.
pub open spec fn spec_decay_window_post(
    a0: AmplitudeDecayExp,
    a1: AmplitudeDecayExp,
    s0: Seq<SampleCalc>,
    s1: Seq<SampleCalc>,
    from: int,
    to: int,
    r: SoundResult<()>,
) -> bool {
    &&& a1.multiplier == a0.multiplier
    &&& s1.len() == s0.len()
    &&& ({
        let n = to - from;
        let k = spec_time_budget(a0.timer, n);
        let amp0 = a0.amplitude as int;
        let m = a0.multiplier as int;
        &&& (a0.timer.timing.is_tempo_kind() ==> r === Err(Error::TimingInvalid) && a1 == a0
            && s1 == s0)
        &&& (!a0.timer.timing.is_tempo_kind() ==> {
            &&& (k == n <==> r === Ok(()))
            &&& (k < n ==> r === Err(Error::ItemsCompleted((from + k) as usize)))
            &&& a1.amplitude == spec_decay_amp(amp0, m, k)
            &&& (forall|i: int|
                from <= i < from + k ==> #[trigger] s1[i] == spec_mul_fix(
                    s0[i] as int,
                    spec_decay_amp(amp0, m, i - from + 1),
                ))
            &&& (forall|i: int| (0 <= i < from || from + k <= i < s0.len()) ==> #[trigger] s1[i] == s0[i])
        })
    })
}

/// What applying the linear fade over the window `[from, to)` does: each
/// admitted sample is scaled by the momentary fade phase, which climbs by
/// the per-sample phase change.
pub open spec fn spec_fade_window_post(
    a0: FadeLinear,
    a1: FadeLinear,
    s0: Seq<SampleCalc>,
    s1: Seq<SampleCalc>,
    from: int,
    to: int,
    r: SoundResult<()>,
) -> bool {
    &&& s1.len() == s0.len()
    &&& a1.amplitude_start == a0.amplitude_start
    &&& a1.amplitude_end == a0.amplitude_end
    &&& (a0.progress is Tempo ==> (r === Err(Error::ProgressInvalid) && a1 == a0 && s1 == s0))
    &&& (a0.progress matches ProgressOption::Time(p) ==> ({
        let n = to - from;
        let pc = p.phase_change as int;
        let p0 = p.phase as int;
        &&& (p.timer.timing.is_tempo_kind() ==> r === Err(Error::TimingInvalid) && a1 == a0 && s1
            == s0)
        &&& (!p.timer.timing.is_tempo_kind() ==> {
            let k = spec_time_budget(p.timer, n);
            &&& (k == n <==> r === Ok(()))
            &&& (k < n ==> r === Err(Error::ItemsCompleted((from + k) as usize)))
            &&& (a1.progress matches ProgressOption::Time(q) && q.phase == p0 + k * pc
                && q.phase_change == pc)
            &&& (forall|i: int|
                from <= i < from + k ==> #[trigger] s1[i] == spec_mul_fix_signed(
                    s0[i] as int,
                    p0 + (i - from + 1) * pc,
                ))
            &&& (forall|i: int| (0 <= i < from || from + k <= i < s0.len()) ==> #[trigger] s1[i] == s0[i])
        })
    }))
}

/// What applying the constant amplitude rhythmically does: the timing is
/// measured in beats of the momentary tempo.
pub open spec fn spec_const_rhythmic_post(
    a0: AmplitudeConst,
    a1: AmplitudeConst,
    tempo: Seq<SampleCalc>,
    s0: Seq<SampleCalc>,
    s1: Seq<SampleCalc>,
    r: SoundResult<()>,
) -> bool {
    &&& a1.amplitude == a0.amplitude
    &&& s1.len() == s0.len()
    &&& (tempo.len() != s0.len() ==> (r === Err(Error::BufferSize) && a1 == a0 && s1 == s0))
    &&& (tempo.len() == s0.len() ==> {
        let n = s0.len() as int;
        let st = a0.timer.sample_time as int;
        let rem0 = a0.timer.remaining as int;
        &&& (a0.timer.timing.is_time_kind() ==> r === Err(Error::TimingInvalid) && a1 == a0 && s1
            == s0)
        &&& (a0.timer.timing matches TimingOption::Unlimited ==> r === Ok(()) && (forall|i: int|
            0 <= i < n ==> #[trigger] s1[i] == spec_mul_fix(s0[i] as int, a0.amplitude as int)))
        &&& (a0.timer.timing.is_tempo_kind() ==> {
            &&& ((forall|i: int|
                0 < i <= n ==> #[trigger] spec_tempo_drain(rem0, tempo, st, i) > 0) <==> r
                === Ok(()))
            &&& (r === Ok(()) ==> forall|i: int|
                0 <= i < n ==> #[trigger] s1[i] == spec_mul_fix(
                    s0[i] as int,
                    a0.amplitude as int,
                ))
            &&& (!(r === Ok(())) ==> exists|k: int|
                0 <= k < n && r === Err(Error::ItemsCompleted(#[trigger] (k as usize))))
            &&& (forall|k: int|
                0 <= k < n && r === Err(Error::ItemsCompleted(#[trigger] (k as usize))) ==> {
                    &&& spec_tempo_drain(rem0, tempo, st, k + 1) <= 0
                    &&& (forall|i: int|
                        0 < i <= k ==> #[trigger] spec_tempo_drain(rem0, tempo, st, i) > 0)
                    &&& (forall|i: int|
                        0 <= i < k ==> #[trigger] s1[i] == spec_mul_fix(
                            s0[i] as int,
                            a0.amplitude as int,
                        ))
                    &&& (forall|i: int| k <= i < n ==> #[trigger] s1[i] == s0[i])
                })
        })
    })
}

/// What applying the decaying amplitude rhythmically does: the duration is
/// measured in beats while the decay itself stays time based.
pub open spec fn spec_decay_rhythmic_post(
    a0: AmplitudeDecayExp,
    a1: AmplitudeDecayExp,
    tempo: Seq<SampleCalc>,
    s0: Seq<SampleCalc>,
    s1: Seq<SampleCalc>,
    r: SoundResult<()>,
) -> bool {
    &&& a1.multiplier == a0.multiplier
    &&& s1.len() == s0.len()
    &&& (tempo.len() != s0.len() ==> (r === Err(Error::BufferSize) && a1 == a0 && s1 == s0))
    &&& (tempo.len() == s0.len() ==> {
        let n = s0.len() as int;
        let st = a0.timer.sample_time as int;
        let rem0 = a0.timer.remaining as int;
        let amp0 = a0.amplitude as int;
        let m = a0.multiplier as int;
        &&& (a0.timer.timing.is_time_kind() ==> r === Err(Error::TimingInvalid) && a1 == a0 && s1
            == s0)
        &&& (a0.timer.timing matches TimingOption::Unlimited ==> r === Ok(()) && a1.amplitude
            == spec_decay_amp(amp0, m, n) && (forall|i: int|
            0 <= i < n ==> #[trigger] s1[i] == spec_mul_fix(
                s0[i] as int,
                spec_decay_amp(amp0, m, i + 1),
            )))
        &&& (a0.timer.timing.is_tempo_kind() ==> {
            &&& ((forall|i: int|
                0 < i <= n ==> #[trigger] spec_tempo_drain(rem0, tempo, st, i) > 0) <==> r
                === Ok(()))
            &&& (r === Ok(()) ==> a1.amplitude == spec_decay_amp(amp0, m, n) && (forall|i: int|
                0 <= i < n ==> #[trigger] s1[i] == spec_mul_fix(
                    s0[i] as int,
                    spec_decay_amp(amp0, m, i + 1),
                )))
            &&& (!(r === Ok(())) ==> exists|k: int|
                0 <= k < n && r === Err(Error::ItemsCompleted(#[trigger] (k as usize))))
            &&& (forall|k: int|
                0 <= k < n && r === Err(Error::ItemsCompleted(#[trigger] (k as usize))) ==> {
                    &&& spec_tempo_drain(rem0, tempo, st, k + 1) <= 0
                    &&& (forall|i: int|
                        0 < i <= k ==> #[trigger] spec_tempo_drain(rem0, tempo, st, i) > 0)
                    &&& a1.amplitude == spec_decay_amp(amp0, m, k)
                    &&& (forall|i: int|
                        0 <= i < k ==> #[trigger] s1[i] == spec_mul_fix(
                            s0[i] as int,
                            spec_decay_amp(amp0, m, i + 1),
                        ))
                    &&& (forall|i: int| k <= i < n ==> #[trigger] s1[i] == s0[i])
                })
        })
    })
}

/// What applying the linear fade rhythmically does: both the phase and the
/// duration are driven by the momentary tempo.
pub open spec fn spec_fade_rhythmic_post(
    a0: FadeLinear,
    a1: FadeLinear,
    tempo: Seq<SampleCalc>,
    s0: Seq<SampleCalc>,
    s1: Seq<SampleCalc>,
    r: SoundResult<()>,
) -> bool {
    &&& s1.len() == s0.len()
    &&& a1.amplitude_start == a0.amplitude_start
    &&& a1.amplitude_end == a0.amplitude_end
    &&& (tempo.len() != s0.len() ==> (r === Err(Error::BufferSize) && a1 == a0 && s1 == s0))
    &&& (tempo.len() == s0.len() && a0.progress is Time ==> (r === Err(Error::ProgressInvalid)
        && a1 == a0 && s1 == s0))
    &&& (tempo.len() == s0.len() ==> (a0.progress matches ProgressOption::Tempo(p) ==> ({
        let n = s0.len() as int;
        let pc = p.phase_change as int;
        let p0 = p.phase as int;
        let st = p.timer.sample_time as int;
        let rem0 = p.timer.remaining as int;
        &&& (p.timer.timing.is_time_kind() ==> r === Err(Error::TimingInvalid) && a1 == a0 && s1
            == s0)
        &&& (p.timer.timing matches TimingOption::Unlimited ==> (r === Ok(()) && (forall|i: int|
            0 <= i < n ==> #[trigger] s1[i] == spec_mul_fix_signed(
                s0[i] as int,
                p0 + spec_phase_steps(pc, tempo, i + 1),
            ))))
        &&& (p.timer.timing.is_tempo_kind() ==> {
            &&& ((forall|i: int|
                0 < i <= n ==> #[trigger] spec_tempo_drain(rem0, tempo, st, i) > 0) <==> r
                === Ok(()))
            &&& (r === Ok(()) ==> forall|i: int|
                0 <= i < n ==> #[trigger] s1[i] == spec_mul_fix_signed(
                    s0[i] as int,
                    p0 + spec_phase_steps(pc, tempo, i + 1),
                ))
            &&& (!(r === Ok(())) ==> exists|k: int|
                0 <= k < n && r === Err(Error::ItemsCompleted(#[trigger] (k as usize))))
            &&& (forall|k: int|
                0 <= k < n && r === Err(Error::ItemsCompleted(#[trigger] (k as usize))) ==> {
                    &&& spec_tempo_drain(rem0, tempo, st, k + 1) <= 0
                    &&& (forall|i: int|
                        0 < i <= k ==> #[trigger] spec_tempo_drain(rem0, tempo, st, i) > 0)
                    &&& (forall|i: int|
                        0 <= i < k ==> #[trigger] s1[i] == spec_mul_fix_signed(
                            s0[i] as int,
                            p0 + spec_phase_steps(pc, tempo, i + 1),
                        ))
                    &&& (forall|i: int| k <= i < n ==> #[trigger] s1[i] == s0[i])
                })
        })
    })))
}

/// Constant amplitude, limited in time by its timer.
#[derive(Debug, Copy, Clone, PartialEq, Eq, Structural)]
pub struct AmplitudeConst {
    /// The timer for sequence use.
    pub timer: Timer,
    /// The constant amplitude.
    pub amplitude: SampleCalc,
}

impl AmplitudeConst {
    /// Validity: the timer is valid and the amplitude lies in `[0, 1]`.
    pub open spec fn wf(&self) -> bool {
        &&& self.timer.wf()
        &&& 0 <= self.amplitude <= FIXED_ONE
    }

    /// Custom constructor: full amplitude, no timing.
    pub fn new(sample_rate: SampleCalc) -> (r: SoundResult<AmplitudeConst>)
        ensures
            sample_rate < FIXED_ONE ==> r === Err(Error::SampleRateInvalid),
            sample_rate >= FIXED_ONE ==> (r matches Ok(a) && a.wf() && a.amplitude == FIXED_ONE
                && a.timer.timing == TimingOption::Unlimited),
    {
        let timer = match Timer::new(sample_rate) {
            Ok(t) => t,
            Err(e) => {
                return Err(e);
            },
        };
        Ok(AmplitudeConst { timer, amplitude: FIXED_ONE })
    }

    /// Applies the amplitude over already existing samples, within the
    /// window `[from, len)`: each allowed sample is multiplied by the
    /// amplitude. The timer limits how many samples are allowed; a timed
    /// run that ends mid-window reports the count of samples that still
    /// fit.
    pub fn apply_range(&mut self, samples: &mut Vec<SampleCalc>, from: usize, to: usize) -> (r:
        SoundResult<()>)
        requires
            old(self).wf(),
            from <= to <= old(samples)@.len(),
            forall|i: int|
                from <= i < to ==> -FIXED_LIMIT <= #[trigger] old(samples)@[i] <= FIXED_LIMIT,
        ensures
            final(self).wf(),
            spec_const_window_post(
                *old(self),
                *final(self),
                old(samples)@,
                final(samples)@,
                from as int,
                to as int,
                r,
            ),
            final(self).amplitude == old(self).amplitude,
            final(samples)@.len() == old(samples)@.len(),
            ({
                let n = to - from;
                let k = spec_time_budget(old(self).timer, n);
                &&& (old(self).timer.timing.is_tempo_kind() ==> r === Err(Error::TimingInvalid)
                    && *final(self) == *old(self) && final(samples)@ == old(samples)@)
                &&& (!old(self).timer.timing.is_tempo_kind() ==> {
                    &&& (k == n <==> r === Ok(()))
                    &&& (k < n ==> r === Err(Error::ItemsCompleted((from + k) as usize)))
                    &&& (forall|i: int|
                        from <= i < from + k ==> #[trigger] final(samples)@[i] == spec_mul_fix(
                            old(samples)@[i] as int,
                            old(self).amplitude as int,
                        ))
                    &&& (forall|i: int|
                        (0 <= i < from || from + k <= i < old(samples)@.len()) ==> #[trigger] final(samples)@[i] == old(samples)@[i])
                })
            }),
    {
        let n = to - from;
        let timer_result = self.timer.jump_by_time(n);
        let limit: usize = match timer_result {
            Ok(()) => from + n,
            Err(Error::ItemsCompleted(completed)) => {
                proof {
                    let rem = old(self).timer.remaining as int;
                    let st = old(self).timer.sample_time as int;
                    vstd::arithmetic::div_mod::lemma_div_pos_is_pos(rem, st);
                    assert(st * (n as int) == (n as int) * st) by (nonlinear_arith);
                    vstd::arithmetic::div_mod::lemma_multiply_divide_lt(rem, st, n as int);
                }
                from + completed
            },
            Err(e) => {
                return Err(e);
            },
        };
        let mut i: usize = from;
        while i < limit
            invariant
                from <= i <= limit <= samples@.len(),
                samples@.len() == old(samples)@.len(),
                0 <= self.amplitude <= FIXED_ONE,
                self.amplitude == old(self).amplitude,
                self.timer.wf(),
                forall|j: int|
                    from <= j < limit ==> -FIXED_LIMIT <= #[trigger] old(samples)@[j]
                        <= FIXED_LIMIT,
                forall|j: int|
                    from <= j < i ==> #[trigger] samples@[j] == spec_mul_fix(
                        old(samples)@[j] as int,
                        self.amplitude as int,
                    ),
                forall|j: int|
                    (0 <= j < from || i <= j < samples@.len()) ==> #[trigger] samples@[j] == old(samples)@[j],
            decreases limit - i,
        {
            proof {
                crate::math::lemma_mul_fix_abs_bounds(
                    samples@[i as int] as int,
                    self.amplitude as int,
                    FIXED_LIMIT as int,
                    FIXED_ONE as int,
                );
            }
            let value = mul_fix(samples[i], self.amplitude);
            samples[i] = value;
            i = i + 1;
        }
        match timer_result {
            Ok(()) => Ok(()),
            Err(Error::ItemsCompleted(completed)) => Err(Error::ItemsCompleted(from + completed)),
            Err(e) => Err(e),
        }
    }

    /// Applies the amplitude function over already existing samples. It
    /// multiplies each sample with its new amplitude.
    pub fn apply(&mut self, samples: &mut Vec<SampleCalc>) -> (r: SoundResult<()>)
        requires
            old(self).wf(),
            forall|i: int|
                0 <= i < old(samples)@.len() ==> -FIXED_LIMIT <= #[trigger] old(samples)@[i]
                    <= FIXED_LIMIT,
        ensures
            final(self).wf(),
            final(self).amplitude == old(self).amplitude,
            final(samples)@.len() == old(samples)@.len(),
            ({
                let n = old(samples)@.len() as int;
                let k = spec_time_budget(old(self).timer, n);
                &&& (old(self).timer.timing.is_tempo_kind() ==> r === Err(Error::TimingInvalid)
                    && *final(self) == *old(self) && final(samples)@ == old(samples)@)
                &&& (!old(self).timer.timing.is_tempo_kind() ==> {
                    &&& (k == n <==> r === Ok(()))
                    &&& (k < n ==> r === Err(Error::ItemsCompleted(k as usize)))
                    &&& (forall|i: int|
                        0 <= i < k ==> #[trigger] final(samples)@[i] == spec_mul_fix(
                            old(samples)@[i] as int,
                            old(self).amplitude as int,
                        ))
                    &&& (forall|i: int|
                        k <= i < n ==> #[trigger] final(samples)@[i] == old(samples)@[i])
                })
            }),
    {
        let to = samples.len();
        self.apply_range(samples, 0, to)
    }

    /// Applies the amplitude function over already existing samples, with
    /// the timing measured in beats of the given tempo.
    pub fn apply_rhythmic(&mut self, tempo: &Vec<SampleCalc>, samples: &mut Vec<SampleCalc>) -> (r:
        SoundResult<()>)
        requires
            old(self).wf(),
            forall|i: int| 0 <= i < tempo@.len() ==> 0 <= #[trigger] tempo@[i] <= FIXED_LIMIT,
            forall|i: int|
                0 <= i < old(samples)@.len() ==> -FIXED_LIMIT <= #[trigger] old(samples)@[i]
                    <= FIXED_LIMIT,
        ensures
            final(self).wf(),
            spec_const_rhythmic_post(
                *old(self),
                *final(self),
                tempo@,
                old(samples)@,
                final(samples)@,
                r,
            ),
            final(self).amplitude == old(self).amplitude,
            final(samples)@.len() == old(samples)@.len(),
            tempo@.len() != old(samples)@.len() ==> (r === Err(Error::BufferSize) && *final(self)
                == *old(self) && final(samples)@ == old(samples)@),
            tempo@.len() == old(samples)@.len() ==> {
                let n = old(samples)@.len() as int;
                let st = old(self).timer.sample_time as int;
                let rem0 = old(self).timer.remaining as int;
                &&& (old(self).timer.timing.is_time_kind() ==> r === Err(Error::TimingInvalid)
                    && *final(self) == *old(self) && final(samples)@ == old(samples)@)
                &&& (old(self).timer.timing matches TimingOption::Unlimited ==> r === Ok(())
                    && (forall|i: int|
                    0 <= i < n ==> #[trigger] final(samples)@[i] == spec_mul_fix(
                        old(samples)@[i] as int,
                        old(self).amplitude as int,
                    )))
                &&& (old(self).timer.timing.is_tempo_kind() ==> {
                    &&& ((forall|i: int|
                        0 < i <= n ==> #[trigger] spec_tempo_drain(rem0, tempo@, st, i) > 0)
                        <==> r === Ok(()))
                    &&& (r === Ok(()) ==> forall|i: int|
                        0 <= i < n ==> #[trigger] final(samples)@[i] == spec_mul_fix(
                            old(samples)@[i] as int,
                            old(self).amplitude as int,
                        ))
                    &&& (!(r === Ok(())) ==> exists|k: int|
                        0 <= k < n && r === Err(Error::ItemsCompleted(#[trigger] (k as usize))))
                    &&& (forall|k: int|
                        0 <= k < n && r === Err(Error::ItemsCompleted(#[trigger] (k as usize)))
                            ==> {
                            &&& spec_tempo_drain(rem0, tempo@, st, k + 1) <= 0
                            &&& (forall|i: int|
                                0 < i <= k ==> #[trigger] spec_tempo_drain(rem0, tempo@, st, i)
                                    > 0)
                            &&& (forall|i: int|
                                0 <= i < k ==> #[trigger] final(samples)@[i] == spec_mul_fix(
                                    old(samples)@[i] as int,
                                    old(self).amplitude as int,
                                ))
                            &&& (forall|i: int|
                                k <= i < n ==> #[trigger] final(samples)@[i] == old(samples)@[i])
                        })
                })
            },
    {
        if tempo.len() != samples.len() {
            return Err(Error::BufferSize);
        }
        let timer_result = self.timer.jump_by_tempo(tempo);
        let limit: usize = match timer_result {
            Ok(()) => samples.len(),
            Err(Error::ItemsCompleted(completed)) => completed,
            Err(e) => {
                return Err(e);
            },
        };
        let mut i: usize = 0;
        while i < limit
            invariant
                0 <= i <= limit <= samples@.len(),
                samples@.len() == old(samples)@.len(),
                0 <= self.amplitude <= FIXED_ONE,
                self.amplitude == old(self).amplitude,
                self.timer.wf(),
                forall|j: int|
                    0 <= j < old(samples)@.len() ==> -FIXED_LIMIT <= #[trigger] old(samples)@[j]
                        <= FIXED_LIMIT,
                forall|j: int|
                    0 <= j < i ==> #[trigger] samples@[j] == spec_mul_fix(
                        old(samples)@[j] as int,
                        self.amplitude as int,
                    ),
                forall|j: int| i <= j < samples@.len() ==> #[trigger] samples@[j] == old(samples)@[j],
            decreases limit - i,
        {
            proof {
                crate::math::lemma_mul_fix_abs_bounds(
                    samples@[i as int] as int,
                    self.amplitude as int,
                    FIXED_LIMIT as int,
                    FIXED_ONE as int,
                );
            }
            let value = mul_fix(samples[i], self.amplitude);
            samples[i] = value;
            i = i + 1;
        }
        timer_result
    }

    /// Sets the initial amplitude, and resets time.
    pub fn set_amplitude_start(&mut self, amplitude: SampleCalc) -> (r: SoundResult<()>)
        requires
            old(self).wf(),
        ensures
            !(0 <= amplitude <= FIXED_ONE) ==> (r === Err(Error::AmplitudeInvalid) && *final(self)
                == *old(self)),
            (0 <= amplitude <= FIXED_ONE) ==> (r === Ok(()) && final(self).wf() && final(self).amplitude == amplitude && spec_restart_post(old(self).timer, final(self).timer)),
    {
        match is_valid_amplitude(amplitude) {
            Ok(()) => {},
            Err(e) => {
                return Err(e);
            },
        }
        self.amplitude = amplitude;
        self.timer.restart();
        Ok(())
    }

    /// Provides the actual amplitude value.
    pub fn get_amplitude(&self) -> (r: SampleCalc)
        ensures
            r == self.amplitude,
    {
        self.amplitude
    }

    /// Provides the maximal possible future amplitude (for normalization).
    pub fn get_max(&self) -> (r: SampleCalc)
        ensures
            r == self.amplitude,
    {
        self.amplitude
    }

    /// Sets the timing (duration), and restarts the internal timer.
    pub fn set_timing(&mut self, timing: TimingOption) -> (r: SoundResult<()>)
        requires
            old(self).wf(),
            match timing {
                TimingOption::Unlimited => true,
                TimingOption::TimeConst(d) => d <= FIXED_LIMIT,
                TimingOption::TimeRatio { ratio, duration } => duration <= FIXED_LIMIT && 0
                    <= ratio <= FIXED_LIMIT,
                TimingOption::TempoConst(nv) => nv.wf(),
                TimingOption::TempoRatio { ratio, duration } => ratio.wf() && duration.wf(),
            },
        ensures
            final(self).amplitude == old(self).amplitude,
            (match timing {
                TimingOption::TimeConst(d) => d > 0,
                TimingOption::TimeRatio { duration, .. } => duration > 0,
                _ => true,
            }) ==> (r === Ok(()) && final(self).wf() && final(self).timer.timing == timing),
            (match timing {
                TimingOption::TimeConst(d) => d <= 0,
                TimingOption::TimeRatio { duration, .. } => duration <= 0,
                _ => false,
            }) ==> (r === Err(Error::DurationInvalid) && *final(self) == *old(self)),
    {
        match self.timer.set_timing(timing) {
            Ok(()) => {},
            Err(e) => {
                return Err(e);
            },
        }
        self.timer.restart();
        Ok(())
    }

    /// Provides the timing.
    pub fn get_timing(&self) -> (r: TimingOption)
        ensures
            r == self.timer.timing,
    {
        self.timer.get_timing()
    }

    /// Restarts the internal timer.
    pub fn restart(&mut self)
        requires
            old(self).wf(),
        ensures
            final(self).wf(),
            final(self).amplitude == old(self).amplitude,
            spec_restart_post(old(self).timer, final(self).timer),
            final(self).timer.timing == old(self).timer.timing,
    {
        self.timer.restart();
    }

    /// Applies the parent's timing to calculate its own relative timing.
    pub fn apply_parent_timing(&mut self, parent_timing: TimingOption) -> (r: SoundResult<()>)
        requires
            old(self).wf(),
            parent_timing.wf(),
        ensures
            final(self).wf(),
            final(self).amplitude == old(self).amplitude,
            spec_parent_timing_post(old(self).timer, final(self).timer, parent_timing, r),
    {
        self.timer.apply_parent_timing(parent_timing)
    }
}

/// Amplitude is decaying exponentially. The decay rate only depends on
/// time, even when the duration is tempo dependent.
#[derive(Debug, Copy, Clone, PartialEq, Eq, Structural)]
pub struct AmplitudeDecayExp {
    /// The timer for sequence use.
    pub timer: Timer,
    /// Duration of one sample.
    pub sample_time: SampleCalc,
    /// The per-sample decay multiplier.
    pub multiplier: SampleCalc,
    /// The running amplitude.
    pub amplitude: SampleCalc,
}

impl AmplitudeDecayExp {
    /// Validity: the timer is valid, the running amplitude is a weight and
    /// the multiplier never exceeds one.
    pub open spec fn wf(&self) -> bool {
        &&& self.timer.wf()
        &&& 1 <= self.sample_time <= FIXED_ONE
        &&& 0 <= self.amplitude <= FIXED_ONE
        &&& 0 <= self.multiplier <= FIXED_ONE
    }

    /// Custom constructor. `half_life` is the time required to reduce the
    /// amplitude to its half.
    pub fn new(sample_rate: SampleCalc, half_life: SampleCalc) -> (r: SoundResult<
        AmplitudeDecayExp,
    >)
        ensures
            sample_rate < FIXED_ONE ==> r === Err(Error::SampleRateInvalid),
            sample_rate >= FIXED_ONE && half_life <= 0 ==> r === Err(Error::AmplitudeRateInvalid),
            sample_rate >= FIXED_ONE && half_life > 0 ==> (r matches Ok(a) && a.wf() && a.amplitude
                == FIXED_ONE && a.sample_time == crate::math::spec_div_fix(
                FIXED_ONE as int,
                sample_rate as int,
            ) && a.multiplier == spec_decay_multiplier(a.sample_time as int, half_life as int)
                && a.timer.timing == TimingOption::Unlimited),
    {
        let sample_time = match crate::get_sample_time(sample_rate) {
            Ok(st) => st,
            Err(e) => {
                return Err(e);
            },
        };
        if half_life <= 0 {
            return Err(Error::AmplitudeRateInvalid);
        }
        let multiplier = decay_multiplier(sample_time, half_life);
        let timer = match Timer::new(sample_rate) {
            Ok(t) => t,
            Err(e) => {
                return Err(e);
            },
        };
        Ok(AmplitudeDecayExp { timer, sample_time, multiplier, amplitude: FIXED_ONE })
    }

    /// Applies the decaying amplitude over already existing samples, within
    /// the window `[from, len)`: each allowed sample first advances the
    /// decay one step, then is scaled by the running amplitude.
    pub fn apply_range(&mut self, samples: &mut Vec<SampleCalc>, from: usize, to: usize) -> (r:
        SoundResult<()>)
        requires
            old(self).wf(),
            from <= to <= old(samples)@.len(),
            forall|i: int|
                from <= i < to ==> -FIXED_LIMIT <= #[trigger] old(samples)@[i] <= FIXED_LIMIT,
        ensures
            final(self).wf(),
            spec_decay_window_post(
                *old(self),
                *final(self),
                old(samples)@,
                final(samples)@,
                from as int,
                to as int,
                r,
            ),
            final(self).multiplier == old(self).multiplier,
            final(samples)@.len() == old(samples)@.len(),
            ({
                let n = to - from;
                let k = spec_time_budget(old(self).timer, n);
                let a0 = old(self).amplitude as int;
                let m = old(self).multiplier as int;
                &&& (old(self).timer.timing.is_tempo_kind() ==> r === Err(Error::TimingInvalid)
                    && *final(self) == *old(self) && final(samples)@ == old(samples)@)
                &&& (!old(self).timer.timing.is_tempo_kind() ==> {
                    &&& (k == n <==> r === Ok(()))
                    &&& (k < n ==> r === Err(Error::ItemsCompleted((from + k) as usize)))
                    &&& final(self).amplitude == spec_decay_amp(a0, m, k)
                    &&& (forall|i: int|
                        from <= i < from + k ==> #[trigger] final(samples)@[i] == spec_mul_fix(
                            old(samples)@[i] as int,
                            spec_decay_amp(a0, m, i - from + 1),
                        ))
                    &&& (forall|i: int|
                        (0 <= i < from || from + k <= i < old(samples)@.len()) ==> #[trigger] final(samples)@[i] == old(samples)@[i])
                })
            }),
    {
        let n = to - from;
        let timer_result = self.timer.jump_by_time(n);
        let limit: usize = match timer_result {
            Ok(()) => from + n,
            Err(Error::ItemsCompleted(completed)) => {
                proof {
                    let rem = old(self).timer.remaining as int;
                    let st = old(self).timer.sample_time as int;
                    vstd::arithmetic::div_mod::lemma_div_pos_is_pos(rem, st);
                    assert(st * (n as int) == (n as int) * st) by (nonlinear_arith);
                    vstd::arithmetic::div_mod::lemma_multiply_divide_lt(rem, st, n as int);
                }
                from + completed
            },
            Err(e) => {
                return Err(e);
            },
        };
        let ghost a0 = self.amplitude as int;
        let mut i: usize = from;
        while i < limit
            invariant
                from <= i <= limit <= samples@.len(),
                samples@.len() == old(samples)@.len(),
                0 <= self.amplitude <= FIXED_ONE,
                0 <= self.multiplier <= FIXED_ONE,
                0 <= a0 <= FIXED_ONE,
                self.multiplier == old(self).multiplier,
                self.sample_time == old(self).sample_time,
                self.timer.wf(),
                self.amplitude as int == spec_decay_amp(a0, self.multiplier as int, i - from),
                forall|j: int|
                    from <= j < limit ==> -FIXED_LIMIT <= #[trigger] old(samples)@[j]
                        <= FIXED_LIMIT,
                forall|j: int|
                    from <= j < i ==> #[trigger] samples@[j] == spec_mul_fix(
                        old(samples)@[j] as int,
                        spec_decay_amp(a0, self.multiplier as int, j - from + 1),
                    ),
                forall|j: int|
                    (0 <= j < from || i <= j < samples@.len()) ==> #[trigger] samples@[j] == old(samples)@[j],
            decreases limit - i,
        {
            proof {
                lemma_mul_fix_le_one(self.amplitude as int, self.multiplier as int);
            }
            self.amplitude = mul_fix(self.amplitude, self.multiplier);
            proof {
                crate::math::lemma_mul_fix_abs_bounds(
                    samples@[i as int] as int,
                    self.amplitude as int,
                    FIXED_LIMIT as int,
                    FIXED_ONE as int,
                );
            }
            let value = mul_fix(samples[i], self.amplitude);
            samples[i] = value;
            i = i + 1;
        }
        match timer_result {
            Ok(()) => Ok(()),
            Err(Error::ItemsCompleted(completed)) => Err(Error::ItemsCompleted(from + completed)),
            Err(e) => Err(e),
        }
    }

    /// Applies the decaying amplitude over already existing samples.
    pub fn apply(&mut self, samples: &mut Vec<SampleCalc>) -> (r: SoundResult<()>)
        requires
            old(self).wf(),
            forall|i: int|
                0 <= i < old(samples)@.len() ==> -FIXED_LIMIT <= #[trigger] old(samples)@[i]
                    <= FIXED_LIMIT,
        ensures
            final(self).wf(),
            final(self).multiplier == old(self).multiplier,
            final(samples)@.len() == old(samples)@.len(),
            ({
                let n = old(samples)@.len() as int;
                let k = spec_time_budget(old(self).timer, n);
                let a0 = old(self).amplitude as int;
                let m = old(self).multiplier as int;
                &&& (old(self).timer.timing.is_tempo_kind() ==> r === Err(Error::TimingInvalid)
                    && *final(self) == *old(self) && final(samples)@ == old(samples)@)
                &&& (!old(self).timer.timing.is_tempo_kind() ==> {
                    &&& (k == n <==> r === Ok(()))
                    &&& (k < n ==> r === Err(Error::ItemsCompleted(k as usize)))
                    &&& final(self).amplitude == spec_decay_amp(a0, m, k)
                    &&& (forall|i: int|
                        0 <= i < k ==> #[trigger] final(samples)@[i] == spec_mul_fix(
                            old(samples)@[i] as int,
                            spec_decay_amp(a0, m, i + 1),
                        ))
                    &&& (forall|i: int|
                        k <= i < n ==> #[trigger] final(samples)@[i] == old(samples)@[i])
                })
            }),
    {
        let to = samples.len();
        self.apply_range(samples, 0, to)
    }

    /// Applies the decaying amplitude over already existing samples, with
    /// the duration measured in beats of the given tempo. The decay itself
    /// stays time based.
    pub fn apply_rhythmic(&mut self, tempo: &Vec<SampleCalc>, samples: &mut Vec<SampleCalc>) -> (r:
        SoundResult<()>)
        requires
            old(self).wf(),
            forall|i: int| 0 <= i < tempo@.len() ==> 0 <= #[trigger] tempo@[i] <= FIXED_LIMIT,
            forall|i: int|
                0 <= i < old(samples)@.len() ==> -FIXED_LIMIT <= #[trigger] old(samples)@[i]
                    <= FIXED_LIMIT,
        ensures
            final(self).wf(),
            spec_decay_rhythmic_post(
                *old(self),
                *final(self),
                tempo@,
                old(samples)@,
                final(samples)@,
                r,
            ),
            final(self).multiplier == old(self).multiplier,
            final(samples)@.len() == old(samples)@.len(),
            tempo@.len() != old(samples)@.len() ==> (r === Err(Error::BufferSize) && *final(self)
                == *old(self) && final(samples)@ == old(samples)@),
            tempo@.len() == old(samples)@.len() ==> {
                let n = old(samples)@.len() as int;
                let st = old(self).timer.sample_time as int;
                let rem0 = old(self).timer.remaining as int;
                let a0 = old(self).amplitude as int;
                let m = old(self).multiplier as int;
                &&& (old(self).timer.timing.is_time_kind() ==> r === Err(Error::TimingInvalid)
                    && *final(self) == *old(self) && final(samples)@ == old(samples)@)
                &&& (old(self).timer.timing matches TimingOption::Unlimited ==> r === Ok(())
                    && final(self).amplitude == spec_decay_amp(a0, m, n) && (forall|i: int|
                    0 <= i < n ==> #[trigger] final(samples)@[i] == spec_mul_fix(
                        old(samples)@[i] as int,
                        spec_decay_amp(a0, m, i + 1),
                    )))
                &&& (old(self).timer.timing.is_tempo_kind() ==> {
                    &&& ((forall|i: int|
                        0 < i <= n ==> #[trigger] spec_tempo_drain(rem0, tempo@, st, i) > 0)
                        <==> r === Ok(()))
                    &&& (r === Ok(()) ==> final(self).amplitude == spec_decay_amp(a0, m, n) && (
                    forall|i: int|
                        0 <= i < n ==> #[trigger] final(samples)@[i] == spec_mul_fix(
                            old(samples)@[i] as int,
                            spec_decay_amp(a0, m, i + 1),
                        )))
                    &&& (!(r === Ok(())) ==> exists|k: int|
                        0 <= k < n && r === Err(Error::ItemsCompleted(#[trigger] (k as usize))))
                    &&& (forall|k: int|
                        0 <= k < n && r === Err(Error::ItemsCompleted(#[trigger] (k as usize)))
                            ==> {
                            &&& spec_tempo_drain(rem0, tempo@, st, k + 1) <= 0
                            &&& (forall|i: int|
                                0 < i <= k ==> #[trigger] spec_tempo_drain(rem0, tempo@, st, i)
                                    > 0)
                            &&& final(self).amplitude == spec_decay_amp(a0, m, k)
                            &&& (forall|i: int|
                                0 <= i < k ==> #[trigger] final(samples)@[i] == spec_mul_fix(
                                    old(samples)@[i] as int,
                                    spec_decay_amp(a0, m, i + 1),
                                ))
                            &&& (forall|i: int|
                                k <= i < n ==> #[trigger] final(samples)@[i] == old(samples)@[i])
                        })
                })
            },
    {
        if tempo.len() != samples.len() {
            return Err(Error::BufferSize);
        }
        let timer_result = self.timer.jump_by_tempo(tempo);
        let limit: usize = match timer_result {
            Ok(()) => samples.len(),
            Err(Error::ItemsCompleted(completed)) => completed,
            Err(e) => {
                return Err(e);
            },
        };
        let ghost a0 = self.amplitude as int;
        let mut i: usize = 0;
        while i < limit
            invariant
                0 <= i <= limit <= samples@.len(),
                samples@.len() == old(samples)@.len(),
                0 <= self.amplitude <= FIXED_ONE,
                0 <= self.multiplier <= FIXED_ONE,
                0 <= a0 <= FIXED_ONE,
                self.multiplier == old(self).multiplier,
                self.sample_time == old(self).sample_time,
                self.timer.wf(),
                self.amplitude as int == spec_decay_amp(a0, self.multiplier as int, i as int),
                forall|j: int|
                    0 <= j < old(samples)@.len() ==> -FIXED_LIMIT <= #[trigger] old(samples)@[j]
                        <= FIXED_LIMIT,
                forall|j: int|
                    0 <= j < i ==> #[trigger] samples@[j] == spec_mul_fix(
                        old(samples)@[j] as int,
                        spec_decay_amp(a0, self.multiplier as int, j + 1),
                    ),
                forall|j: int| i <= j < samples@.len() ==> #[trigger] samples@[j] == old(samples)@[j],
            decreases limit - i,
        {
            proof {
                lemma_mul_fix_le_one(self.amplitude as int, self.multiplier as int);
            }
            self.amplitude = mul_fix(self.amplitude, self.multiplier);
            proof {
                crate::math::lemma_mul_fix_abs_bounds(
                    samples@[i as int] as int,
                    self.amplitude as int,
                    FIXED_LIMIT as int,
                    FIXED_ONE as int,
                );
            }
            let value = mul_fix(samples[i], self.amplitude);
            samples[i] = value;
            i = i + 1;
        }
        timer_result
    }

    /// Sets the initial amplitude, and resets time.
    pub fn set_amplitude_start(&mut self, amplitude: SampleCalc) -> (r: SoundResult<()>)
        requires
            old(self).wf(),
        ensures
            !(0 <= amplitude <= FIXED_ONE) ==> (r === Err(Error::AmplitudeInvalid) && *final(self)
                == *old(self)),
            (0 <= amplitude <= FIXED_ONE) ==> (r === Ok(()) && final(self).wf() && final(self).amplitude == amplitude && final(self).multiplier == old(self).multiplier && final(self).sample_time == old(self).sample_time && spec_restart_post(old(self).timer, final(self).timer)),
    {
        match is_valid_amplitude(amplitude) {
            Ok(()) => {},
            Err(e) => {
                return Err(e);
            },
        }
        self.amplitude = amplitude;
        self.timer.restart();
        Ok(())
    }

    /// Provides the actual amplitude value.
    pub fn get_amplitude(&self) -> (r: SampleCalc)
        ensures
            r == self.amplitude,
    {
        self.amplitude
    }

    /// Provides the maximal possible future amplitude (for normalization).
    pub fn get_max(&self) -> (r: SampleCalc)
        ensures
            r == self.amplitude,
    {
        self.amplitude
    }

    /// Sets the timing (duration), and restarts the internal timer.
    pub fn set_timing(&mut self, timing: TimingOption) -> (r: SoundResult<()>)
        requires
            old(self).wf(),
            match timing {
                TimingOption::Unlimited => true,
                TimingOption::TimeConst(d) => d <= FIXED_LIMIT,
                TimingOption::TimeRatio { ratio, duration } => duration <= FIXED_LIMIT && 0
                    <= ratio <= FIXED_LIMIT,
                TimingOption::TempoConst(nv) => nv.wf(),
                TimingOption::TempoRatio { ratio, duration } => ratio.wf() && duration.wf(),
            },
        ensures
            final(self).amplitude == old(self).amplitude,
            (match timing {
                TimingOption::TimeConst(d) => d > 0,
                TimingOption::TimeRatio { duration, .. } => duration > 0,
                _ => true,
            }) ==> (r === Ok(()) && final(self).wf() && final(self).timer.timing == timing),
            (match timing {
                TimingOption::TimeConst(d) => d <= 0,
                TimingOption::TimeRatio { duration, .. } => duration <= 0,
                _ => false,
            }) ==> (r === Err(Error::DurationInvalid) && *final(self) == *old(self)),
    {
        match self.timer.set_timing(timing) {
            Ok(()) => {},
            Err(e) => {
                return Err(e);
            },
        }
        self.timer.restart();
        Ok(())
    }

    /// Provides the timing.
    pub fn get_timing(&self) -> (r: TimingOption)
        ensures
            r == self.timer.timing,
    {
        self.timer.get_timing()
    }

    /// Restarts the internal timer.
    pub fn restart(&mut self)
        requires
            old(self).wf(),
        ensures
            final(self).wf(),
            final(self).amplitude == old(self).amplitude,
            final(self).multiplier == old(self).multiplier,
            final(self).sample_time == old(self).sample_time,
            spec_restart_post(old(self).timer, final(self).timer),
            final(self).timer.timing == old(self).timer.timing,
    {
        self.timer.restart();
    }

    /// Applies the parent's timing to calculate its own relative timing.
    pub fn apply_parent_timing(&mut self, parent_timing: TimingOption) -> (r: SoundResult<()>)
        requires
            old(self).wf(),
            parent_timing.wf(),
        ensures
            final(self).wf(),
            final(self).amplitude == old(self).amplitude,
            spec_parent_timing_post(old(self).timer, final(self).timer, parent_timing, r),
    {
        self.timer.apply_parent_timing(parent_timing)
    }
}

/// Linearly changing amplitude: the phase of its progress is the momentary
/// amplitude, running from the start value to the end value.
#[derive(Debug, Copy, Clone, PartialEq, Eq, Structural)]
pub struct FadeLinear {
    /// Tempo or time based progress.
    pub progress: ProgressOption,
    /// The amplitude the fade starts from.
    pub amplitude_start: SampleCalc,
    /// The amplitude the fade ends at.
    pub amplitude_end: SampleCalc,
}

impl FadeLinear {
    /// Validity: the progress is valid and both amplitudes are weights.
    pub open spec fn wf(&self) -> bool {
        &&& self.progress.wf()
        &&& 0 <= self.amplitude_start <= FIXED_ONE
        &&& 0 <= self.amplitude_end <= FIXED_ONE
    }

    /// Custom constructor: the fade starts at zero amplitude.
    pub fn new(progress: ProgressOption, amplitude_end: SampleCalc) -> (r: SoundResult<FadeLinear>)
        requires
            progress.wf(),
        ensures
            !(0 <= amplitude_end <= FIXED_ONE) ==> r === Err(Error::AmplitudeInvalid),
            (0 <= amplitude_end <= FIXED_ONE) ==> (r matches Ok(f) && f.wf() && f.amplitude_start
                == 0 && f.amplitude_end == amplitude_end && ((f.progress is Time) == (progress
                is Time))),
    {
        match is_valid_amplitude(amplitude_end) {
            Ok(()) => {},
            Err(e) => {
                return Err(e);
            },
        }
        let mut progress = progress;
        progress.set_period_unit(amplitude_end);
        Ok(FadeLinear { progress, amplitude_start: 0, amplitude_end })
    }

    /// Custom constructor with time based progress.
    pub fn new_with_time(
        sample_rate: SampleCalc,
        duration: SampleCalc,
        amplitude_end: SampleCalc,
    ) -> (r: SoundResult<FadeLinear>)
        requires
            duration <= FIXED_LIMIT,
            duration > 0 ==> duration >= crate::progress::PERIOD_MIN,
        ensures
            sample_rate < FIXED_ONE ==> r === Err(Error::SampleRateInvalid),
            sample_rate >= FIXED_ONE && duration <= 0 ==> r === Err(Error::PeriodInvalid),
            sample_rate >= FIXED_ONE && duration > 0 && !(0 <= amplitude_end <= FIXED_ONE) ==> r
                === Err(Error::AmplitudeInvalid),
            sample_rate >= FIXED_ONE && duration > 0 && 0 <= amplitude_end <= FIXED_ONE ==> r
                is Ok,
            r matches Ok(f) ==> f.wf() && f.amplitude_start == 0 && f.amplitude_end
                == amplitude_end && (f.progress is Time),
    {
        let progress = match crate::progress::ProgressTime::new(sample_rate, duration) {
            Ok(p) => p,
            Err(e) => {
                return Err(e);
            },
        };
        FadeLinear::new(ProgressOption::Time(progress), amplitude_end)
    }

    /// Constructor with tempo based progress. `note_value` is the tempo
    /// relative fade duration.
    pub fn new_with_tempo(
        sample_rate: SampleCalc,
        note_value: crate::rhythm::NoteValue,
        amplitude_end: SampleCalc,
    ) -> (r: SoundResult<FadeLinear>)
        requires
            note_value.wf(),
        ensures
            sample_rate < FIXED_ONE ==> r === Err(Error::SampleRateInvalid),
            sample_rate >= FIXED_ONE && !(0 <= amplitude_end <= FIXED_ONE) ==> r === Err(
                Error::AmplitudeInvalid,
            ),
            sample_rate >= FIXED_ONE && 0 <= amplitude_end <= FIXED_ONE ==> r is Ok,
            r matches Ok(f) ==> f.wf() && f.amplitude_start == 0 && f.amplitude_end
                == amplitude_end && (f.progress is Tempo),
    {
        let progress = match crate::progress::ProgressTempo::new(sample_rate, note_value) {
            Ok(p) => p,
            Err(e) => {
                return Err(e);
            },
        };
        FadeLinear::new(ProgressOption::Tempo(progress), amplitude_end)
    }

    /// Applies the fade over already existing samples, within the window
    /// `[from, len)`: each allowed sample is scaled by the momentary fade
    /// phase. A fade that reaches its duration mid-window reports the index
    /// of the first sample it no longer covers.
    pub fn apply_range(&mut self, samples: &mut Vec<SampleCalc>, from: usize, to: usize) -> (r:
        SoundResult<()>)
        requires
            old(self).wf(),
            from <= to <= old(samples)@.len(),
            forall|i: int|
                from <= i < to ==> -FIXED_LIMIT <= #[trigger] old(samples)@[i] <= FIXED_LIMIT,
            old(self).progress matches ProgressOption::Time(p) ==> {
                let n = to - from;
                &&& -2 * FIXED_ONE <= p.phase <= 2 * FIXED_ONE
                &&& -2 * FIXED_ONE <= p.phase + n * p.phase_change <= 2 * FIXED_ONE
            },
        ensures
            final(self).wf(),
            spec_fade_window_post(
                *old(self),
                *final(self),
                old(samples)@,
                final(samples)@,
                from as int,
                to as int,
                r,
            ),
            final(samples)@.len() == old(samples)@.len(),
            final(self).amplitude_start == old(self).amplitude_start,
            final(self).amplitude_end == old(self).amplitude_end,
            old(self).progress is Tempo ==> (r === Err(Error::ProgressInvalid) && *final(self)
                == *old(self) && final(samples)@ == old(samples)@),
            old(self).progress matches ProgressOption::Time(p) ==> ({
                let n = to - from;
                let pc = p.phase_change as int;
                let p0 = p.phase as int;
                &&& (p.timer.timing.is_tempo_kind() ==> r === Err(Error::TimingInvalid) && *final(self) == *old(self) && final(samples)@ == old(samples)@)
                &&& (!p.timer.timing.is_tempo_kind() ==> {
                    let k = spec_time_budget(p.timer, n);
                    &&& (k == n <==> r === Ok(()))
                    &&& (k < n ==> r === Err(Error::ItemsCompleted((from + k) as usize)))
                    &&& (final(self).progress matches ProgressOption::Time(q) && q.phase == p0 + k
                        * pc && q.phase_change == pc)
                    &&& (forall|i: int|
                        from <= i < from + k ==> #[trigger] final(samples)@[i]
                            == spec_mul_fix_signed(
                            old(samples)@[i] as int,
                            p0 + (i - from + 1) * pc,
                        ))
                    &&& (forall|i: int|
                        (0 <= i < from || from + k <= i < old(samples)@.len()) ==> #[trigger] final(samples)@[i] == old(samples)@[i])
                })
            }),
    {
        let n = to - from;
        match self.progress {
            ProgressOption::Tempo(_) => {
                return Err(Error::ProgressInvalid);
            },
            ProgressOption::Time(p_copy) => {
                let mut p = p_copy;
                let timing_now = p.get_timing();
                let timing_is_tempo: bool = match timing_now {
                    TimingOption::TempoConst(_) | TimingOption::TempoRatio { .. } => true,
                    _ => false,
                };
                if timing_is_tempo {
                    return Err(Error::TimingInvalid);
                }
                proof {
                    assert(!p.timer.timing.is_tempo_kind());
                }
                let ghost p0 = p.phase as int;
                let ghost pc = p.phase_change as int;
                let ghost rem0 = p.timer.remaining as int;
                let ghost st0 = p.timer.sample_time as int;
                let ghost timing0 = p.timer.timing;
                proof {
                    assert((0 as int) * pc == 0 && (0 as int) * st0 == 0) by (nonlinear_arith);
                    if timing0.is_time_kind() {
                        vstd::arithmetic::div_mod::lemma_div_pos_is_pos(rem0, st0);
                        lemma_budget_at_least(rem0, st0, n as int, 0);
                        if rem0 < st0 && n > 0 {
                            lemma_budget_exact(rem0, st0, n as int, 0);
                        }
                        assert(n > 0 ==> st0 <= (n as int) * st0) by (nonlinear_arith)
                            requires
                                st0 >= 1,
                        ;
                    }
                }
                let mut i: usize = from;
                let len = samples.len();
                while i < to
                    invariant
                        from <= i <= to <= len,
                        len == samples@.len(),
                        len == old(samples)@.len(),
                        n == to - from,
                        p.wf(),
                        pc == p.phase_change as int,
                        p.timer.timing == timing0,
                        p.timer.sample_time == st0,
                        old(self).progress matches ProgressOption::Time(op) && op.phase == p0
                            && op.phase_change == pc && op.timer.remaining == rem0
                            && op.timer.sample_time == st0 && op.timer.timing == timing0,
                        0 <= rem0 <= FIXED_LIMIT,
                        1 <= st0 <= FIXED_ONE,
                        -2 * FIXED_ONE <= p0 <= 2 * FIXED_ONE,
                        -2 * FIXED_ONE <= p0 + (n as int) * pc <= 2 * FIXED_ONE,
                        p.phase as int == p0 + (i - from) * pc,
                        self.amplitude_start == old(self).amplitude_start,
                        self.amplitude_end == old(self).amplitude_end,
                        0 <= self.amplitude_start <= FIXED_ONE,
                        0 <= self.amplitude_end <= FIXED_ONE,
                        !(timing0.is_tempo_kind()),
                        timing0 matches TimingOption::Unlimited ==> p.timer.remaining as int
                            == rem0,
                        timing0.is_time_kind() ==> p.timer.remaining as int == rem0 - (i - from)
                            * st0,
                        timing0.is_time_kind() ==> rem0 >= (i - from) * st0 + st0 || i == from
                            + spec_time_budget(
                            Timer { sample_time: st0 as i64, timing: timing0, remaining: rem0 as i64 },
                            n as int,
                        ),
                        i - from <= spec_time_budget(
                            Timer { sample_time: st0 as i64, timing: timing0, remaining: rem0 as i64 },
                            n as int,
                        ),
                        forall|j: int|
                            from <= j < to ==> -FIXED_LIMIT <= #[trigger] old(samples)@[j]
                                <= FIXED_LIMIT,
                        forall|j: int|
                            from <= j < i ==> #[trigger] samples@[j] == spec_mul_fix_signed(
                                old(samples)@[j] as int,
                                p0 + (j - from + 1) * pc,
                            ),
                        forall|j: int|
                            (0 <= j < from || i <= j < len) ==> #[trigger] samples@[j] == old(samples)@[j],
                    decreases to - i,
                {
                    proof {
                        lemma_fade_phase_between(p0, pc, (i - from) as int, n as int);
                        lemma_fade_phase_between(p0, pc, (i - from + 1) as int, n as int);
                        assert((i - from + 1) * pc == (i - from) * pc + pc) by (nonlinear_arith);
                        assert((i - from + 1) * st0 == (i - from) * st0 + st0)
                            by (nonlinear_arith);
                    }
                    let phase = match p.next_by_time() {
                        Ok(ph) => ph,
                        Err(Error::ProgressCompleted) => {
                            self.progress = ProgressOption::Time(p);
                            return Err(Error::ItemsCompleted(i));
                        },
                        Err(e) => {
                            self.progress = ProgressOption::Time(p);
                            return Err(e);
                        },
                    };
                    proof {
                        let sv = samples@[i as int] as int;
                        assert((if sv >= 0 {
                            sv
                        } else {
                            -sv
                        }) * (if phase as int >= 0 {
                            phase as int
                        } else {
                            -(phase as int)
                        }) <= 0x7fff_ffff_ffff_ffff * (FIXED_ONE as int)) by (nonlinear_arith)
                            requires
                                -FIXED_LIMIT <= sv <= FIXED_LIMIT,
                                -2 * (FIXED_ONE as int) <= phase <= 2 * (FIXED_ONE as int),
                        ;
                    }
                    let value = mul_fix_signed(samples[i], phase);
                    samples[i] = value;
                    proof {
                        if timing0.is_time_kind() {
                            let m1 = i as int + 1 - from;
                            lemma_budget_at_least(rem0, st0, n as int, m1);
                            if rem0 < m1 * st0 + st0 && m1 < n as int {
                                lemma_budget_exact(rem0, st0, n as int, m1);
                            }
                        }
                    }
                    i = i + 1;
                }
                proof {
                    if timing0.is_time_kind() {
                        assert(rem0 - (n as int) * st0 >= 0 ==> spec_time_budget(
                            Timer { sample_time: st0 as i64, timing: timing0, remaining: rem0 as i64 },
                            n as int,
                        ) == n as int);
                    }
                }
                self.progress = ProgressOption::Time(p);
                Ok(())
            },
        }
    }

    /// Applies the fade over already existing samples.
    pub fn apply(&mut self, samples: &mut Vec<SampleCalc>) -> (r: SoundResult<()>)
        requires
            old(self).wf(),
            forall|i: int|
                0 <= i < old(samples)@.len() ==> -FIXED_LIMIT <= #[trigger] old(samples)@[i]
                    <= FIXED_LIMIT,
            old(self).progress matches ProgressOption::Time(p) ==> {
                let n = old(samples)@.len() as int;
                &&& -2 * FIXED_ONE <= p.phase <= 2 * FIXED_ONE
                &&& -2 * FIXED_ONE <= p.phase + n * p.phase_change <= 2 * FIXED_ONE
            },
        ensures
            final(self).wf(),
            final(samples)@.len() == old(samples)@.len(),
            old(self).progress is Tempo ==> (r === Err(Error::ProgressInvalid) && *final(self)
                == *old(self) && final(samples)@ == old(samples)@),
            old(self).progress matches ProgressOption::Time(p) ==> ({
                let n = old(samples)@.len() as int;
                let pc = p.phase_change as int;
                let p0 = p.phase as int;
                &&& (p.timer.timing.is_tempo_kind() ==> r === Err(Error::TimingInvalid) && *final(self) == *old(self) && final(samples)@ == old(samples)@)
                &&& (!p.timer.timing.is_tempo_kind() ==> {
                    let k = spec_time_budget(p.timer, n);
                    &&& (k == n <==> r === Ok(()))
                    &&& (k < n ==> r === Err(Error::ItemsCompleted(k as usize)))
                    &&& (forall|i: int|
                        0 <= i < k ==> #[trigger] final(samples)@[i] == spec_mul_fix_signed(
                            old(samples)@[i] as int,
                            p0 + (i + 1) * pc,
                        ))
                    &&& (forall|i: int|
                        k <= i < n ==> #[trigger] final(samples)@[i] == old(samples)@[i])
                })
            }),
    {
        let to = samples.len();
        self.apply_range(samples, 0, to)
    }

    /// Applies the fade over already existing samples, with both the phase
    /// and the duration driven by the momentary tempo, given in beats per
    /// second.
    pub fn apply_rhythmic(&mut self, tempo: &Vec<SampleCalc>, samples: &mut Vec<SampleCalc>) -> (r:
        SoundResult<()>)
        requires
            old(self).wf(),
            forall|i: int| 0 <= i < tempo@.len() ==> 0 <= #[trigger] tempo@[i] <= TEMPO_LIMIT,
            forall|i: int|
                0 <= i < old(samples)@.len() ==> -FIXED_LIMIT <= #[trigger] old(samples)@[i]
                    <= FIXED_LIMIT,
            old(self).progress matches ProgressOption::Tempo(p) ==> {
                let m = spec_mul_fix(p.phase_change as int, TEMPO_LIMIT as int);
                &&& -2 * FIXED_ONE <= p.phase <= 2 * FIXED_ONE
                &&& -2 * FIXED_ONE <= p.phase + old(samples)@.len() * m <= 2 * FIXED_ONE
            },
        ensures
            final(self).wf(),
            spec_fade_rhythmic_post(
                *old(self),
                *final(self),
                tempo@,
                old(samples)@,
                final(samples)@,
                r,
            ),
            final(samples)@.len() == old(samples)@.len(),
            final(self).amplitude_start == old(self).amplitude_start,
            final(self).amplitude_end == old(self).amplitude_end,
            tempo@.len() != old(samples)@.len() ==> (r === Err(Error::BufferSize) && *final(self)
                == *old(self) && final(samples)@ == old(samples)@),
            tempo@.len() == old(samples)@.len() && old(self).progress is Time ==> (r === Err(
                Error::ProgressInvalid,
            ) && *final(self) == *old(self) && final(samples)@ == old(samples)@),
            tempo@.len() == old(samples)@.len() ==> (old(self).progress matches
                ProgressOption::Tempo(p) ==> ({
                let n = old(samples)@.len() as int;
                let pc = p.phase_change as int;
                let p0 = p.phase as int;
                let st = p.timer.sample_time as int;
                let rem0 = p.timer.remaining as int;
                &&& (p.timer.timing.is_time_kind() ==> r === Err(Error::TimingInvalid) && *final(self) == *old(self) && final(samples)@ == old(samples)@)
                &&& (p.timer.timing matches TimingOption::Unlimited ==> (r === Ok(()) && (forall|
                    i: int,
                |
                    0 <= i < n ==> #[trigger] final(samples)@[i] == spec_mul_fix_signed(
                        old(samples)@[i] as int,
                        p0 + spec_phase_steps(pc, tempo@, i + 1),
                    ))))
                &&& (p.timer.timing.is_tempo_kind() ==> {
                    &&& ((forall|i: int|
                        0 < i <= n ==> #[trigger] spec_tempo_drain(rem0, tempo@, st, i) > 0)
                        <==> r === Ok(()))
                    &&& (r === Ok(()) ==> forall|i: int|
                        0 <= i < n ==> #[trigger] final(samples)@[i] == spec_mul_fix_signed(
                            old(samples)@[i] as int,
                            p0 + spec_phase_steps(pc, tempo@, i + 1),
                        ))
                    &&& (!(r === Ok(())) ==> exists|k: int|
                        0 <= k < n && r === Err(Error::ItemsCompleted(#[trigger] (k as usize))))
                    &&& (forall|k: int|
                        0 <= k < n && r === Err(Error::ItemsCompleted(#[trigger] (k as usize)))
                            ==> {
                            &&& spec_tempo_drain(rem0, tempo@, st, k + 1) <= 0
                            &&& (forall|i: int|
                                0 < i <= k ==> #[trigger] spec_tempo_drain(rem0, tempo@, st, i)
                                    > 0)
                            &&& (forall|i: int|
                                0 <= i < k ==> #[trigger] final(samples)@[i]
                                    == spec_mul_fix_signed(
                                    old(samples)@[i] as int,
                                    p0 + spec_phase_steps(pc, tempo@, i + 1),
                                ))
                            &&& (forall|i: int|
                                k <= i < n ==> #[trigger] final(samples)@[i] == old(samples)@[i])
                        })
                })
            })),
    {
        if tempo.len() != samples.len() {
            return Err(Error::BufferSize);
        }
        let n = samples.len();
        match self.progress {
            ProgressOption::Time(_) => {
                return Err(Error::ProgressInvalid);
            },
            ProgressOption::Tempo(p_copy) => {
                let mut p = p_copy;
                let timing_now = p.get_timing();
                let timing_is_time: bool = match timing_now {
                    TimingOption::TimeConst(_) | TimingOption::TimeRatio { .. } => true,
                    _ => false,
                };
                if timing_is_time {
                    return Err(Error::TimingInvalid);
                }
                let ghost p0 = p.phase as int;
                let ghost pc = p.phase_change as int;
                let ghost rem0 = p.timer.remaining as int;
                let ghost st0 = p.timer.sample_time as int;
                let ghost timing0 = p.timer.timing;
                let ghost m = spec_mul_fix(pc, TEMPO_LIMIT as int);
                proof {
                    lemma_phase_steps_between(pc, tempo@, TEMPO_LIMIT as int, 0);
                    assert(0 * m == 0) by (nonlinear_arith);
                }
                let mut i: usize = 0;
                while i < n
                    invariant
                        0 <= i <= n,
                        n == samples@.len(),
                        n == old(samples)@.len(),
                        n == tempo@.len(),
                        p.wf(),
                        pc == p.phase_change as int,
                        p.timer.timing == timing0,
                        p.timer.sample_time == st0,
                        old(self).progress matches ProgressOption::Tempo(op) && op.phase == p0
                            && op.phase_change == pc && op.timer.remaining == rem0
                            && op.timer.sample_time == st0 && op.timer.timing == timing0,
                        self.progress == old(self).progress,
                        0 <= rem0 <= FIXED_LIMIT,
                        1 <= st0 <= FIXED_ONE,
                        m == spec_mul_fix(pc, TEMPO_LIMIT as int),
                        -2 * FIXED_ONE <= p0 <= 2 * FIXED_ONE,
                        -2 * FIXED_ONE <= p0 + (n as int) * m <= 2 * FIXED_ONE,
                        p.phase as int == p0 + spec_phase_steps(pc, tempo@, i as int),
                        -2 * FIXED_ONE <= p.phase <= 2 * FIXED_ONE,
                        self.amplitude_start == old(self).amplitude_start,
                        self.amplitude_end == old(self).amplitude_end,
                        0 <= self.amplitude_start <= FIXED_ONE,
                        0 <= self.amplitude_end <= FIXED_ONE,
                        !(timing0.is_time_kind()),
                        forall|j: int|
                            0 <= j < tempo@.len() ==> 0 <= #[trigger] tempo@[j] <= TEMPO_LIMIT,
                        timing0 matches TimingOption::Unlimited ==> p.timer.remaining as int
                            == rem0,
                        timing0.is_tempo_kind() ==> p.timer.remaining as int == spec_tempo_drain(
                            rem0,
                            tempo@,
                            st0,
                            i as int,
                        ),
                        timing0.is_tempo_kind() ==> (p.timer.remaining > 0 || i == 0),
                        timing0.is_tempo_kind() ==> (forall|j: int|
                            0 < j <= i ==> #[trigger] spec_tempo_drain(rem0, tempo@, st0, j) > 0),
                        forall|j: int|
                            0 <= j < n ==> -FIXED_LIMIT <= #[trigger] old(samples)@[j]
                                <= FIXED_LIMIT,
                        forall|j: int|
                            0 <= j < i ==> #[trigger] samples@[j] == spec_mul_fix_signed(
                                old(samples)@[j] as int,
                                p0 + spec_phase_steps(pc, tempo@, j + 1),
                            ),
                        forall|j: int| i <= j < n ==> #[trigger] samples@[j] == old(samples)@[j],
                    decreases n - i,
                {
                    proof {
                        lemma_phase_steps_between(pc, tempo@, TEMPO_LIMIT as int, i as int);
                        lemma_phase_steps_between(pc, tempo@, TEMPO_LIMIT as int, i as int + 1);
                        if pc >= 0 {
                            assert((i as int) * m <= (n as int) * m && (i as int + 1) * m <= (
                            n as int) * m && 0 <= (i as int) * m) by (nonlinear_arith)
                                requires
                                    0 <= i < n,
                                    m >= 0,
                            ;
                        } else {
                            assert((n as int) * m <= (i as int) * m && (n as int) * m <= (i as int
                                + 1) * m && (i as int) * m <= 0) by (nonlinear_arith)
                                requires
                                    0 <= i < n,
                                    m < 0,
                            ;
                        }
                    }
                    proof {
                        assert(spec_tempo_drain(rem0, tempo@, st0, i as int + 1)
                            == spec_tempo_drain(rem0, tempo@, st0, i as int) - spec_mul_fix(
                            tempo@[i as int] as int,
                            st0,
                        ));
                    }
                    let phase = match p.next_by_tempo(tempo[i]) {
                        Ok(ph) => ph,
                        Err(Error::ProgressCompleted) => {
                            proof {
                                assert(((i as int) as usize) == i);
                            }
                            self.progress = ProgressOption::Tempo(p);
                            return Err(Error::ItemsCompleted(i));
                        },
                        Err(e) => {
                            self.progress = ProgressOption::Tempo(p);
                            return Err(e);
                        },
                    };
                    proof {
                        let sv = samples@[i as int] as int;
                        assert((if sv >= 0 {
                            sv
                        } else {
                            -sv
                        }) * (if phase as int >= 0 {
                            phase as int
                        } else {
                            -(phase as int)
                        }) <= 0x7fff_ffff_ffff_ffff * (FIXED_ONE as int)) by (nonlinear_arith)
                            requires
                                -FIXED_LIMIT <= sv <= FIXED_LIMIT,
                                -2 * (FIXED_ONE as int) <= phase <= 2 * (FIXED_ONE as int),
                        ;
                    }
                    let value = mul_fix_signed(samples[i], phase);
                    samples[i] = value;
                    i = i + 1;
                }
                self.progress = ProgressOption::Tempo(p);
                Ok(())
            },
        }
    }

    /// Sets the initial amplitude, and resets time.
    pub fn set_amplitude_start(&mut self, amplitude: SampleCalc) -> (r: SoundResult<()>)
        requires
            old(self).wf(),
        ensures
            !(0 <= amplitude <= FIXED_ONE) ==> (r === Err(Error::AmplitudeInvalid) && *final(self)
                == *old(self)),
            (0 <= amplitude <= FIXED_ONE) ==> (r === Ok(()) && final(self).wf() && final(self).amplitude_start == amplitude && final(self).amplitude_end == old(self).amplitude_end && final(self).progress.spec_phase() == amplitude),
    {
        match is_valid_amplitude(amplitude) {
            Ok(()) => {},
            Err(e) => {
                return Err(e);
            },
        }
        self.amplitude_start = amplitude;
        self.progress.set_phase_init(amplitude);
        let diff = self.amplitude_end - self.amplitude_start;
        self.progress.set_period_unit(diff);
        Ok(())
    }

    /// Provides the actual amplitude value: the current fade phase.
    pub fn get_amplitude(&self) -> (r: SampleCalc)
        ensures
            r == self.progress.spec_phase(),
    {
        self.progress.get_phase()
    }

    /// Provides the maximal possible future amplitude (for normalization).
    pub fn get_max(&self) -> (r: SampleCalc)
        ensures
            r == (if self.amplitude_start >= self.amplitude_end {
                self.amplitude_start
            } else {
                self.amplitude_end
            }),
    {
        if self.amplitude_start >= self.amplitude_end {
            self.amplitude_start
        } else {
            self.amplitude_end
        }
    }

    /// Sets the timing (duration), and restarts the progress.
    pub fn set_timing(&mut self, timing: TimingOption) -> (r: SoundResult<()>)
        requires
            old(self).wf(),
            match timing {
                TimingOption::Unlimited => true,
                TimingOption::TimeConst(d) => d <= FIXED_LIMIT,
                TimingOption::TimeRatio { ratio, duration } => duration <= FIXED_LIMIT && 0
                    <= ratio <= FIXED_LIMIT,
                TimingOption::TempoConst(nv) => nv.wf(),
                TimingOption::TempoRatio { ratio, duration } => ratio.wf() && duration.wf(),
            },
        ensures
            final(self).wf() || *final(self) == *old(self),
            (match timing {
                TimingOption::TimeConst(d) => d <= 0,
                TimingOption::TimeRatio { duration, .. } => duration <= 0,
                _ => false,
            }) ==> (r === Err(Error::DurationInvalid) && *final(self) == *old(self)),
            (match timing {
                TimingOption::TimeConst(d) => d > 0,
                TimingOption::TimeRatio { duration, .. } => duration > 0,
                _ => true,
            }) ==> (r === Ok(()) && final(self).wf() && final(self).progress.spec_timing()
                == timing),
    {
        match self.progress.set_timing(timing) {
            Ok(()) => {},
            Err(e) => {
                return Err(e);
            },
        }
        self.progress.restart();
        Ok(())
    }

    /// Provides the timing.
    pub fn get_timing(&self) -> (r: TimingOption)
        ensures
            r == self.progress.spec_timing(),
    {
        self.progress.get_timing()
    }

    /// Restarts the progress: the phase returns to its initial value and
    /// the timer is refilled.
    pub fn restart(&mut self)
        requires
            old(self).wf(),
        ensures
            final(self).wf(),
            final(self).amplitude_start == old(self).amplitude_start,
            final(self).amplitude_end == old(self).amplitude_end,
            final(self).progress.spec_phase() == old(self).progress.spec_phase_init(),
            spec_restart_post(old(self).progress.spec_timer(), final(self).progress.spec_timer()),
            (final(self).progress is Time) == (old(self).progress is Time),
    {
        self.progress.restart();
    }

    /// Applies the parent's timing to calculate its own relative timing.
    pub fn apply_parent_timing(&mut self, parent_timing: TimingOption) -> (r: SoundResult<()>)
        requires
            old(self).wf(),
            parent_timing.wf(),
        ensures
            final(self).wf(),
            final(self).amplitude_start == old(self).amplitude_start,
            final(self).amplitude_end == old(self).amplitude_end,
            final(self).progress.spec_phase() == old(self).progress.spec_phase(),
            spec_parent_timing_post(
                old(self).progress.spec_timer(),
                final(self).progress.spec_timer(),
                parent_timing,
                r,
            ),
    {
        self.progress.apply_parent_timing(parent_timing)
    }
}

/// Tremolo: sine variation of the amplitude. The per-sample scale is
/// `amplitude_normalized * extent_ratio ^ sin(phase)`, chosen so the peak
/// scale is one.
#[derive(Debug, Copy, Clone, PartialEq, Eq, Structural)]
pub struct Tremolo {
    /// Tempo or time based progress.
    pub progress: ProgressOption,
    /// The ratio of maximum shift away from the base amplitude; always
    /// above one.
    pub extent_ratio: SampleCalc,
    /// The average amplitude, the reciprocal of the extent ratio: the peak
    /// amplitude is then one.
    pub amplitude_normalized: SampleCalc,
}

/// The momentary tremolo scale at a given phase.
pub open spec fn spec_tremolo_scale(amplitude_normalized: int, extent_ratio: int, phase: int) -> int {
    spec_mul_fix(
        amplitude_normalized,
        crate::math::spec_pow_fix(extent_ratio, crate::math::spec_sin_fix(phase)),
    )
}

impl Tremolo {
    /// Validity: the progress is valid with a non-negative phase track, the
    /// extent ratio is above one and within the power function's domain,
    /// and the normalized amplitude is its rounded-down reciprocal.
    pub open spec fn wf(&self) -> bool {
        &&& self.progress.wf()
        &&& FIXED_ONE < self.extent_ratio <= crate::frequency::EXTENT_RATIO_MAX
        &&& self.amplitude_normalized == crate::math::spec_div_fix(
            FIXED_ONE as int,
            self.extent_ratio as int,
        )
        &&& 0 < self.amplitude_normalized <= FIXED_ONE
        &&& (self.progress matches ProgressOption::Time(p) ==> 0 <= p.phase && 0 <= p.phase_init
            && 0 <= p.phase_change && 0 <= p.period_unit)
        &&& (self.progress matches ProgressOption::Tempo(p) ==> 0 <= p.phase && 0 <= p.phase_init
            && 0 <= p.phase_change && 0 <= p.period_unit)
    }

    /// Custom constructor. `extent_ratio` is the ratio of maximum shift
    /// away from the base amplitude; it must be above one.
    pub fn new(progress: ProgressOption, extent_ratio: SampleCalc) -> (r: SoundResult<Tremolo>)
        requires
            progress.wf(),
            extent_ratio > FIXED_ONE ==> extent_ratio <= crate::frequency::EXTENT_RATIO_MAX,
            progress matches ProgressOption::Time(p) ==> 0 <= p.phase && 0 <= p.phase_init && 0
                <= p.phase_change && 0 <= p.period_unit,
            progress matches ProgressOption::Tempo(p) ==> 0 <= p.phase && 0 <= p.phase_init && 0
                <= p.phase_change && 0 <= p.period_unit,
        ensures
            extent_ratio <= FIXED_ONE ==> r === Err(Error::AmplitudeInvalid),
            extent_ratio > FIXED_ONE ==> (r matches Ok(t) && t.wf() && t.progress == progress
                && t.extent_ratio == extent_ratio),
    {
        if extent_ratio <= FIXED_ONE {
            return Err(Error::AmplitudeInvalid);
        }
        proof {
            crate::math::lemma_div_fix_bounds(FIXED_ONE as int, extent_ratio as int);
            vstd::arithmetic::div_mod::lemma_div_is_ordered_by_denominator(
                (FIXED_ONE as int) * (FIXED_ONE as int),
                FIXED_ONE as int,
                extent_ratio as int,
            );
        }
        let amplitude_normalized = crate::math::div_fix(FIXED_ONE, extent_ratio);
        Ok(Tremolo { progress, extent_ratio, amplitude_normalized })
    }

    /// Custom constructor with time based progress.
    pub fn new_with_time(
        sample_rate: SampleCalc,
        timing: TimingOption,
        period: SampleCalc,
        extent_ratio: SampleCalc,
    ) -> (r: SoundResult<Tremolo>)
        requires
            period <= FIXED_LIMIT,
            period > 0 ==> period >= crate::progress::PERIOD_MIN,
            extent_ratio > FIXED_ONE ==> extent_ratio <= crate::frequency::EXTENT_RATIO_MAX,
            match timing {
                TimingOption::Unlimited => true,
                TimingOption::TimeConst(d) => d <= FIXED_LIMIT,
                TimingOption::TimeRatio { ratio, duration } => duration <= FIXED_LIMIT && 0
                    <= ratio <= FIXED_LIMIT,
                TimingOption::TempoConst(nv) => nv.wf(),
                TimingOption::TempoRatio { ratio, duration } => ratio.wf() && duration.wf(),
            },
        ensures
            sample_rate < FIXED_ONE ==> r === Err(Error::SampleRateInvalid),
            sample_rate >= FIXED_ONE && period <= 0 ==> r === Err(Error::PeriodInvalid),
            sample_rate >= FIXED_ONE && period > 0 && (match timing {
                TimingOption::TimeConst(d) => d <= 0,
                TimingOption::TimeRatio { duration, .. } => duration <= 0,
                _ => false,
            }) ==> r === Err(Error::DurationInvalid),
            sample_rate >= FIXED_ONE && period > 0 && (match timing {
                TimingOption::TimeConst(d) => d > 0,
                TimingOption::TimeRatio { duration, .. } => duration > 0,
                _ => true,
            }) && extent_ratio <= FIXED_ONE ==> r === Err(Error::AmplitudeInvalid),
            sample_rate >= FIXED_ONE && period > 0 && (match timing {
                TimingOption::TimeConst(d) => d > 0,
                TimingOption::TimeRatio { duration, .. } => duration > 0,
                _ => true,
            }) && extent_ratio > FIXED_ONE ==> r is Ok,
            r matches Ok(t) ==> t.wf() && t.extent_ratio == extent_ratio && (t.progress is Time),
    {
        let progress = match crate::progress::ProgressTime::new(sample_rate, period) {
            Ok(p) => p,
            Err(e) => {
                return Err(e);
            },
        };
        let mut progress = progress;
        match progress.set_timing(timing) {
            Ok(()) => {},
            Err(e) => {
                return Err(e);
            },
        }
        Tremolo::new(ProgressOption::Time(progress), extent_ratio)
    }

    /// Constructor with tempo based progress.
    pub fn new_with_tempo(
        sample_rate: SampleCalc,
        timing: TimingOption,
        period: crate::rhythm::NoteValue,
        extent_ratio: SampleCalc,
    ) -> (r: SoundResult<Tremolo>)
        requires
            period.wf(),
            extent_ratio > FIXED_ONE ==> extent_ratio <= crate::frequency::EXTENT_RATIO_MAX,
            match timing {
                TimingOption::Unlimited => true,
                TimingOption::TimeConst(d) => d <= FIXED_LIMIT,
                TimingOption::TimeRatio { ratio, duration } => duration <= FIXED_LIMIT && 0
                    <= ratio <= FIXED_LIMIT,
                TimingOption::TempoConst(nv) => nv.wf(),
                TimingOption::TempoRatio { ratio, duration } => ratio.wf() && duration.wf(),
            },
        ensures
            sample_rate < FIXED_ONE ==> r === Err(Error::SampleRateInvalid),
            sample_rate >= FIXED_ONE && (match timing {
                TimingOption::TimeConst(d) => d <= 0,
                TimingOption::TimeRatio { duration, .. } => duration <= 0,
                _ => false,
            }) ==> r === Err(Error::DurationInvalid),
            sample_rate >= FIXED_ONE && (match timing {
                TimingOption::TimeConst(d) => d > 0,
                TimingOption::TimeRatio { duration, .. } => duration > 0,
                _ => true,
            }) && extent_ratio <= FIXED_ONE ==> r === Err(Error::AmplitudeInvalid),
            sample_rate >= FIXED_ONE && (match timing {
                TimingOption::TimeConst(d) => d > 0,
                TimingOption::TimeRatio { duration, .. } => duration > 0,
                _ => true,
            }) && extent_ratio > FIXED_ONE ==> r is Ok,
            r matches Ok(t) ==> t.wf() && t.extent_ratio == extent_ratio && (t.progress is Tempo),
    {
        let progress = match crate::progress::ProgressTempo::new(sample_rate, period) {
            Ok(p) => p,
            Err(e) => {
                return Err(e);
            },
        };
        let mut progress = progress;
        match progress.set_timing(timing) {
            Ok(()) => {},
            Err(e) => {
                return Err(e);
            },
        }
        Tremolo::new(ProgressOption::Tempo(progress), extent_ratio)
    }

    /// Applies the tremolo over already existing samples, within the window
    /// `[from, len)`: each allowed sample is scaled by the momentary
    /// tremolo scale, and at the end the phase is folded back into one
    /// period. A tremolo whose duration ends mid-window reports the index
    /// of the first sample it no longer covers.
    pub fn apply_from(&mut self, samples: &mut Vec<SampleCalc>, from: usize) -> (r: SoundResult<
        (),
    >)
        requires
            old(self).wf(),
            from <= old(samples)@.len(),
            forall|i: int|
                0 <= i < old(samples)@.len() ==> -FIXED_LIMIT <= #[trigger] old(samples)@[i]
                    <= FIXED_LIMIT,
            old(self).progress matches ProgressOption::Time(p) ==> p.phase + (old(samples)@.len() - from) * p.phase_change <= crate::progress::PHASE_LIMIT,
        ensures
            final(self).wf(),
            final(samples)@.len() == old(samples)@.len(),
            final(self).extent_ratio == old(self).extent_ratio,
            final(self).amplitude_normalized == old(self).amplitude_normalized,
            old(self).progress is Tempo ==> (r === Err(Error::ProgressInvalid) && *final(self)
                == *old(self) && final(samples)@ == old(samples)@),
            old(self).progress matches ProgressOption::Time(p) ==> ({
                let n = old(samples)@.len() - from;
                let pc = p.phase_change as int;
                let p0 = p.phase as int;
                let an = old(self).amplitude_normalized as int;
                let er = old(self).extent_ratio as int;
                &&& (p.timer.timing.is_tempo_kind() ==> r === Err(Error::TimingInvalid) && *final(self) == *old(self) && final(samples)@ == old(samples)@)
                &&& (!p.timer.timing.is_tempo_kind() ==> {
                    let k = spec_time_budget(p.timer, n);
                    &&& (k == n <==> r === Ok(()))
                    &&& (k < n ==> r === Err(Error::ItemsCompleted((from + k) as usize)))
                    &&& (r === Ok(()) ==> (final(self).progress matches ProgressOption::Time(q)
                        && q.phase == crate::progress::spec_phase_rem(
                        p0 + k * pc,
                        p.period_unit as int,
                    ) && q.phase_change == pc))
                    &&& (forall|i: int|
                        from <= i < from + k ==> #[trigger] final(samples)@[i] == spec_mul_fix(
                            old(samples)@[i] as int,
                            spec_tremolo_scale(an, er, p0 + (i - from + 1) * pc),
                        ))
                    &&& (forall|i: int|
                        (0 <= i < from || from + k <= i < old(samples)@.len()) ==> #[trigger] final(samples)@[i] == old(samples)@[i])
                })
            }),
    {
        let n = samples.len() - from;
        match self.progress {
            ProgressOption::Tempo(_) => {
                return Err(Error::ProgressInvalid);
            },
            ProgressOption::Time(p_copy) => {
                let mut p = p_copy;
                let timing_now = p.get_timing();
                let timing_is_tempo: bool = match timing_now {
                    TimingOption::TempoConst(_) | TimingOption::TempoRatio { .. } => true,
                    _ => false,
                };
                if timing_is_tempo {
                    return Err(Error::TimingInvalid);
                }
                let ghost p0 = p.phase as int;
                let ghost pc = p.phase_change as int;
                let ghost rem0 = p.timer.remaining as int;
                let ghost st0 = p.timer.sample_time as int;
                let ghost timing0 = p.timer.timing;
                proof {
                    assert((0 as int) * pc == 0 && (0 as int) * st0 == 0) by (nonlinear_arith);
                    if timing0.is_time_kind() {
                        vstd::arithmetic::div_mod::lemma_div_pos_is_pos(rem0, st0);
                        lemma_budget_at_least(rem0, st0, n as int, 0);
                        if rem0 < st0 && n > 0 {
                            lemma_budget_exact(rem0, st0, n as int, 0);
                        }
                        assert(n > 0 ==> st0 <= (n as int) * st0) by (nonlinear_arith)
                            requires
                                st0 >= 1,
                        ;
                    }
                }
                let an = self.amplitude_normalized;
                let er = self.extent_ratio;
                let mut i: usize = from;
                let len = samples.len();
                while i < len
                    invariant
                        from <= i <= len,
                        len == samples@.len(),
                        len == old(samples)@.len(),
                        n == len - from,
                        p.wf(),
                        pc == p.phase_change as int,
                        p.timer.timing == timing0,
                        p.timer.sample_time == st0,
                        old(self).progress matches ProgressOption::Time(op) && op.phase == p0
                            && op.phase_change == pc && op.timer.remaining == rem0
                            && op.timer.sample_time == st0 && op.timer.timing == timing0
                            && op.period_unit == p.period_unit,
                        self.progress == old(self).progress,
                        0 <= rem0 <= FIXED_LIMIT,
                        1 <= st0 <= FIXED_ONE,
                        0 <= p0,
                        0 <= pc,
                        p0 + (n as int) * pc <= crate::progress::PHASE_LIMIT,
                        p.phase as int == p0 + (i - from) * pc,
                        an == self.amplitude_normalized,
                        er == self.extent_ratio,
                        self.amplitude_normalized == old(self).amplitude_normalized,
                        self.extent_ratio == old(self).extent_ratio,
                        0 < an <= FIXED_ONE,
                        FIXED_ONE < er <= crate::frequency::EXTENT_RATIO_MAX,
                        an as int == crate::math::spec_div_fix(FIXED_ONE as int, er as int),
                        0 <= p.phase_init,
                        0 <= p.period_unit,
                        !(timing0.is_tempo_kind()),
                        timing0 matches TimingOption::Unlimited ==> p.timer.remaining as int
                            == rem0,
                        timing0.is_time_kind() ==> p.timer.remaining as int == rem0 - (i - from)
                            * st0,
                        timing0.is_time_kind() ==> rem0 >= (i - from) * st0 + st0 || i == from
                            + spec_time_budget(
                            Timer { sample_time: st0 as i64, timing: timing0, remaining: rem0 as i64 },
                            n as int,
                        ),
                        i - from <= spec_time_budget(
                            Timer { sample_time: st0 as i64, timing: timing0, remaining: rem0 as i64 },
                            n as int,
                        ),
                        forall|j: int|
                            0 <= j < old(samples)@.len() ==> -FIXED_LIMIT <= #[trigger] old(samples)@[j] <= FIXED_LIMIT,
                        forall|j: int|
                            from <= j < i ==> #[trigger] samples@[j] == spec_mul_fix(
                                old(samples)@[j] as int,
                                spec_tremolo_scale(an as int, er as int, p0 + (j - from + 1) * pc),
                            ),
                        forall|j: int|
                            (0 <= j < from || i <= j < len) ==> #[trigger] samples@[j] == old(samples)@[j],
                    decreases len - i,
                {
                    proof {
                        assert((i - from + 1) * pc == (i - from) * pc + pc) by (nonlinear_arith);
                        assert((i - from + 1) * st0 == (i - from) * st0 + st0)
                            by (nonlinear_arith);
                        assert(0 <= (i - from) * pc && (i - from) * pc <= (n as int) * pc)
                            by (nonlinear_arith)
                            requires
                                0 <= i - from <= n,
                                0 <= pc,
                        ;
                        assert(0 <= (i - from + 1) * pc && (i - from + 1) * pc <= (n as int) * pc)
                            by (nonlinear_arith)
                            requires
                                0 <= i - from + 1 <= n,
                                0 <= pc,
                        ;
                    }
                    let phase = match p.next_by_time() {
                        Ok(ph) => ph,
                        Err(Error::ProgressCompleted) => {
                            self.progress = ProgressOption::Time(p);
                            return Err(Error::ItemsCompleted(i));
                        },
                        Err(e) => {
                            self.progress = ProgressOption::Time(p);
                            return Err(e);
                        },
                    };
                    let s = crate::math::sin_fix(phase);
                    let pw = crate::math::pow_fix(er, s);
                    proof {
                        crate::math::lemma_mul_fix_bounds(
                            an as int,
                            pw as int,
                            FIXED_ONE as int,
                            0x20 * (FIXED_ONE as int),
                        );
                    }
                    let scale = mul_fix(an, pw);
                    proof {
                        crate::math::lemma_mul_fix_abs_bounds(
                            samples@[i as int] as int,
                            scale as int,
                            FIXED_LIMIT as int,
                            0x20 * (FIXED_ONE as int),
                        );
                        let sv = samples@[i as int] as int;
                        assert((if sv >= 0 {
                            sv
                        } else {
                            -sv
                        }) * (scale as int) <= 0x7fff_ffff_ffff_ffff * (FIXED_ONE as int))
                            by (nonlinear_arith)
                            requires
                                -FIXED_LIMIT <= sv <= FIXED_LIMIT,
                                0 <= scale <= 0x20 * (FIXED_ONE as int),
                        ;
                    }
                    let value = mul_fix(samples[i], scale);
                    samples[i] = value;
                    proof {
                        if timing0.is_time_kind() {
                            let m1 = i as int + 1 - from;
                            lemma_budget_at_least(rem0, st0, n as int, m1);
                            if rem0 < m1 * st0 + st0 && m1 < n as int {
                                lemma_budget_exact(rem0, st0, n as int, m1);
                            }
                        }
                    }
                    i = i + 1;
                }
                proof {
                    if timing0.is_time_kind() {
                        assert(rem0 - (n as int) * st0 >= 0 ==> spec_time_budget(
                            Timer { sample_time: st0 as i64, timing: timing0, remaining: rem0 as i64 },
                            n as int,
                        ) == n as int);
                    }
                }
                p.simplify();
                self.progress = ProgressOption::Time(p);
                Ok(())
            },
        }
    }

    /// Applies the tremolo over already existing samples.
    pub fn apply(&mut self, samples: &mut Vec<SampleCalc>) -> (r: SoundResult<()>)
        requires
            old(self).wf(),
            forall|i: int|
                0 <= i < old(samples)@.len() ==> -FIXED_LIMIT <= #[trigger] old(samples)@[i]
                    <= FIXED_LIMIT,
            old(self).progress matches ProgressOption::Time(p) ==> p.phase + old(samples)@.len() * p.phase_change <= crate::progress::PHASE_LIMIT,
        ensures
            final(self).wf(),
            final(samples)@.len() == old(samples)@.len(),
            old(self).progress is Tempo ==> (r === Err(Error::ProgressInvalid) && *final(self)
                == *old(self) && final(samples)@ == old(samples)@),
            old(self).progress matches ProgressOption::Time(p) ==> ({
                let n = old(samples)@.len() as int;
                let pc = p.phase_change as int;
                let p0 = p.phase as int;
                let an = old(self).amplitude_normalized as int;
                let er = old(self).extent_ratio as int;
                &&& (p.timer.timing.is_tempo_kind() ==> r === Err(Error::TimingInvalid) && *final(self) == *old(self) && final(samples)@ == old(samples)@)
                &&& (!p.timer.timing.is_tempo_kind() ==> {
                    let k = spec_time_budget(p.timer, n);
                    &&& (k == n <==> r === Ok(()))
                    &&& (k < n ==> r === Err(Error::ItemsCompleted(k as usize)))
                    &&& (forall|i: int|
                        0 <= i < k ==> #[trigger] final(samples)@[i] == spec_mul_fix(
                            old(samples)@[i] as int,
                            spec_tremolo_scale(an, er, p0 + (i + 1) * pc),
                        ))
                    &&& (forall|i: int|
                        k <= i < n ==> #[trigger] final(samples)@[i] == old(samples)@[i])
                })
            }),
    {
        self.apply_from(samples, 0)
    }

    /// Applies the tremolo over already existing samples, with both the
    /// phase and the duration driven by the momentary tempo, given in beats
    /// per second. At the end the phase is folded back into one period.
    pub fn apply_rhythmic(&mut self, tempo: &Vec<SampleCalc>, samples: &mut Vec<SampleCalc>) -> (r:
        SoundResult<()>)
        requires
            old(self).wf(),
            forall|i: int| 0 <= i < tempo@.len() ==> 0 <= #[trigger] tempo@[i] <= TEMPO_LIMIT,
            forall|i: int|
                0 <= i < old(samples)@.len() ==> -FIXED_LIMIT <= #[trigger] old(samples)@[i]
                    <= FIXED_LIMIT,
            old(self).progress matches ProgressOption::Tempo(p) ==> p.phase + old(samples)@.len()
                * spec_mul_fix(p.phase_change as int, TEMPO_LIMIT as int)
                <= crate::progress::PHASE_LIMIT,
        ensures
            final(self).wf(),
            final(samples)@.len() == old(samples)@.len(),
            final(self).extent_ratio == old(self).extent_ratio,
            final(self).amplitude_normalized == old(self).amplitude_normalized,
            tempo@.len() != old(samples)@.len() ==> (r === Err(Error::BufferSize) && *final(self)
                == *old(self) && final(samples)@ == old(samples)@),
            tempo@.len() == old(samples)@.len() && old(self).progress is Time ==> (r === Err(
                Error::ProgressInvalid,
            ) && *final(self) == *old(self) && final(samples)@ == old(samples)@),
            tempo@.len() == old(samples)@.len() ==> (old(self).progress matches
                ProgressOption::Tempo(p) ==> ({
                let n = old(samples)@.len() as int;
                let pc = p.phase_change as int;
                let p0 = p.phase as int;
                let st = p.timer.sample_time as int;
                let rem0 = p.timer.remaining as int;
                let an = old(self).amplitude_normalized as int;
                let er = old(self).extent_ratio as int;
                &&& (p.timer.timing.is_time_kind() ==> r === Err(Error::TimingInvalid) && *final(self) == *old(self) && final(samples)@ == old(samples)@)
                &&& (p.timer.timing matches TimingOption::Unlimited ==> (r === Ok(()) && (forall|
                    i: int,
                |
                    0 <= i < n ==> #[trigger] final(samples)@[i] == spec_mul_fix(
                        old(samples)@[i] as int,
                        spec_tremolo_scale(an, er, p0 + spec_phase_steps(pc, tempo@, i + 1)),
                    ))))
                &&& (p.timer.timing.is_tempo_kind() ==> {
                    &&& ((forall|i: int|
                        0 < i <= n ==> #[trigger] spec_tempo_drain(rem0, tempo@, st, i) > 0)
                        <==> r === Ok(()))
                    &&& (r === Ok(()) ==> forall|i: int|
                        0 <= i < n ==> #[trigger] final(samples)@[i] == spec_mul_fix(
                            old(samples)@[i] as int,
                            spec_tremolo_scale(an, er, p0 + spec_phase_steps(pc, tempo@, i + 1)),
                        ))
                    &&& (!(r === Ok(())) ==> exists|k: int|
                        0 <= k < n && r === Err(Error::ItemsCompleted(#[trigger] (k as usize))))
                    &&& (forall|k: int|
                        0 <= k < n && r === Err(Error::ItemsCompleted(#[trigger] (k as usize)))
                            ==> {
                            &&& spec_tempo_drain(rem0, tempo@, st, k + 1) <= 0
                            &&& (forall|i: int|
                                0 < i <= k ==> #[trigger] spec_tempo_drain(rem0, tempo@, st, i)
                                    > 0)
                            &&& (forall|i: int|
                                0 <= i < k ==> #[trigger] final(samples)@[i] == spec_mul_fix(
                                    old(samples)@[i] as int,
                                    spec_tremolo_scale(
                                        an,
                                        er,
                                        p0 + spec_phase_steps(pc, tempo@, i + 1),
                                    ),
                                ))
                            &&& (forall|i: int|
                                k <= i < n ==> #[trigger] final(samples)@[i] == old(samples)@[i])
                        })
                })
            })),
    {
        if tempo.len() != samples.len() {
            return Err(Error::BufferSize);
        }
        let n = samples.len();
        match self.progress {
            ProgressOption::Time(_) => {
                return Err(Error::ProgressInvalid);
            },
            ProgressOption::Tempo(p_copy) => {
                let mut p = p_copy;
                let timing_now = p.get_timing();
                let timing_is_time: bool = match timing_now {
                    TimingOption::TimeConst(_) | TimingOption::TimeRatio { .. } => true,
                    _ => false,
                };
                if timing_is_time {
                    return Err(Error::TimingInvalid);
                }
                let ghost p0 = p.phase as int;
                let ghost pc = p.phase_change as int;
                let ghost rem0 = p.timer.remaining as int;
                let ghost st0 = p.timer.sample_time as int;
                let ghost timing0 = p.timer.timing;
                let ghost m = spec_mul_fix(pc, TEMPO_LIMIT as int);
                proof {
                    lemma_phase_steps_between(pc, tempo@, TEMPO_LIMIT as int, 0);
                    assert(0 * m == 0) by (nonlinear_arith);
                }
                let an = self.amplitude_normalized;
                let er = self.extent_ratio;
                let mut i: usize = 0;
                while i < n
                    invariant
                        0 <= i <= n,
                        n == samples@.len(),
                        n == old(samples)@.len(),
                        n == tempo@.len(),
                        p.wf(),
                        pc == p.phase_change as int,
                        0 <= pc,
                        p.timer.timing == timing0,
                        p.timer.sample_time == st0,
                        old(self).progress matches ProgressOption::Tempo(op) && op.phase == p0
                            && op.phase_change == pc && op.timer.remaining == rem0
                            && op.timer.sample_time == st0 && op.timer.timing == timing0
                            && op.period_unit == p.period_unit,
                        self.progress == old(self).progress,
                        0 <= rem0 <= FIXED_LIMIT,
                        1 <= st0 <= FIXED_ONE,
                        m == spec_mul_fix(pc, TEMPO_LIMIT as int),
                        0 <= p0,
                        p0 + (n as int) * m <= crate::progress::PHASE_LIMIT,
                        p.phase as int == p0 + spec_phase_steps(pc, tempo@, i as int),
                        0 <= p.phase,
                        an == self.amplitude_normalized,
                        er == self.extent_ratio,
                        self.amplitude_normalized == old(self).amplitude_normalized,
                        self.extent_ratio == old(self).extent_ratio,
                        0 < an <= FIXED_ONE,
                        FIXED_ONE < er <= crate::frequency::EXTENT_RATIO_MAX,
                        an as int == crate::math::spec_div_fix(FIXED_ONE as int, er as int),
                        0 <= p.phase_init,
                        0 <= p.period_unit,
                        !(timing0.is_time_kind()),
                        forall|j: int|
                            0 <= j < tempo@.len() ==> 0 <= #[trigger] tempo@[j] <= TEMPO_LIMIT,
                        timing0 matches TimingOption::Unlimited ==> p.timer.remaining as int
                            == rem0,
                        timing0.is_tempo_kind() ==> p.timer.remaining as int == spec_tempo_drain(
                            rem0,
                            tempo@,
                            st0,
                            i as int,
                        ),
                        timing0.is_tempo_kind() ==> (p.timer.remaining > 0 || i == 0),
                        timing0.is_tempo_kind() ==> (forall|j: int|
                            0 < j <= i ==> #[trigger] spec_tempo_drain(rem0, tempo@, st0, j) > 0),
                        forall|j: int|
                            0 <= j < n ==> -FIXED_LIMIT <= #[trigger] old(samples)@[j]
                                <= FIXED_LIMIT,
                        forall|j: int|
                            0 <= j < i ==> #[trigger] samples@[j] == spec_mul_fix(
                                old(samples)@[j] as int,
                                spec_tremolo_scale(
                                    an as int,
                                    er as int,
                                    p0 + spec_phase_steps(pc, tempo@, j + 1),
                                ),
                            ),
                        forall|j: int| i <= j < n ==> #[trigger] samples@[j] == old(samples)@[j],
                    decreases n - i,
                {
                    proof {
                        lemma_phase_steps_between(pc, tempo@, TEMPO_LIMIT as int, i as int);
                        lemma_phase_steps_between(pc, tempo@, TEMPO_LIMIT as int, i as int + 1);
                        assert((i as int) * m <= (n as int) * m && (i as int + 1) * m <= (
                        n as int) * m && 0 <= (i as int) * m) by (nonlinear_arith)
                            requires
                                0 <= i < n,
                                m >= 0,
                        ;
                        assert(spec_tempo_drain(rem0, tempo@, st0, i as int + 1)
                            == spec_tempo_drain(rem0, tempo@, st0, i as int) - spec_mul_fix(
                            tempo@[i as int] as int,
                            st0,
                        ));
                    }
                    let phase = match p.next_by_tempo(tempo[i]) {
                        Ok(ph) => ph,
                        Err(Error::ProgressCompleted) => {
                            proof {
                                assert(((i as int) as usize) == i);
                            }
                            self.progress = ProgressOption::Tempo(p);
                            return Err(Error::ItemsCompleted(i));
                        },
                        Err(e) => {
                            self.progress = ProgressOption::Tempo(p);
                            return Err(e);
                        },
                    };
                    let s = crate::math::sin_fix(phase);
                    let pw = crate::math::pow_fix(er, s);
                    proof {
                        crate::math::lemma_mul_fix_bounds(
                            an as int,
                            pw as int,
                            FIXED_ONE as int,
                            0x20 * (FIXED_ONE as int),
                        );
                    }
                    let scale = mul_fix(an, pw);
                    proof {
                        crate::math::lemma_mul_fix_abs_bounds(
                            samples@[i as int] as int,
                            scale as int,
                            FIXED_LIMIT as int,
                            0x20 * (FIXED_ONE as int),
                        );
                        let sv = samples@[i as int] as int;
                        assert((if sv >= 0 {
                            sv
                        } else {
                            -sv
                        }) * (scale as int) <= 0x7fff_ffff_ffff_ffff * (FIXED_ONE as int))
                            by (nonlinear_arith)
                            requires
                                -FIXED_LIMIT <= sv <= FIXED_LIMIT,
                                0 <= scale <= 0x20 * (FIXED_ONE as int),
                        ;
                    }
                    let value = mul_fix(samples[i], scale);
                    samples[i] = value;
                    i = i + 1;
                }
                p.simplify();
                self.progress = ProgressOption::Tempo(p);
                Ok(())
            },
        }
    }

    /// Sets the timing (duration), and restarts the progress.
    pub fn set_timing(&mut self, timing: TimingOption) -> (r: SoundResult<()>)
        requires
            old(self).wf(),
            match timing {
                TimingOption::Unlimited => true,
                TimingOption::TimeConst(d) => d <= FIXED_LIMIT,
                TimingOption::TimeRatio { ratio, duration } => duration <= FIXED_LIMIT && 0
                    <= ratio <= FIXED_LIMIT,
                TimingOption::TempoConst(nv) => nv.wf(),
                TimingOption::TempoRatio { ratio, duration } => ratio.wf() && duration.wf(),
            },
        ensures
            final(self).wf() || *final(self) == *old(self),
            (match timing {
                TimingOption::TimeConst(d) => d <= 0,
                TimingOption::TimeRatio { duration, .. } => duration <= 0,
                _ => false,
            }) ==> (r === Err(Error::DurationInvalid) && *final(self) == *old(self)),
            (match timing {
                TimingOption::TimeConst(d) => d > 0,
                TimingOption::TimeRatio { duration, .. } => duration > 0,
                _ => true,
            }) ==> (r === Ok(()) && final(self).wf() && final(self).progress.spec_timing()
                == timing && ((*final(self)).progress is Time == (*old(self)).progress is Time)
                && final(self).extent_ratio == old(self).extent_ratio && final(self).amplitude_normalized == old(self).amplitude_normalized),
    {
        match self.progress {
            ProgressOption::Time(p_copy) => {
                let mut p = p_copy;
                match p.set_timing(timing) {
                    Ok(()) => {},
                    Err(e) => {
                        return Err(e);
                    },
                }
                p.restart();
                self.progress = ProgressOption::Time(p);
                Ok(())
            },
            ProgressOption::Tempo(p_copy) => {
                let mut p = p_copy;
                match p.set_timing(timing) {
                    Ok(()) => {},
                    Err(e) => {
                        return Err(e);
                    },
                }
                p.restart();
                self.progress = ProgressOption::Tempo(p);
                Ok(())
            },
        }
    }

    /// Provides the timing.
    pub fn get_timing(&self) -> (r: TimingOption)
        ensures
            r == self.progress.spec_timing(),
    {
        self.progress.get_timing()
    }

    /// Restarts the progress: the phase returns to its initial value and
    /// the timer is refilled.
    pub fn restart(&mut self)
        requires
            old(self).wf(),
        ensures
            final(self).wf(),
            final(self).extent_ratio == old(self).extent_ratio,
            final(self).amplitude_normalized == old(self).amplitude_normalized,
            final(self).progress.spec_phase() == old(self).progress.spec_phase_init(),
            spec_restart_post(old(self).progress.spec_timer(), final(self).progress.spec_timer()),
            (final(self).progress is Time) == (old(self).progress is Time),
    {
        match self.progress {
            ProgressOption::Time(p_copy) => {
                let mut p = p_copy;
                p.restart();
                self.progress = ProgressOption::Time(p);
            },
            ProgressOption::Tempo(p_copy) => {
                let mut p = p_copy;
                p.restart();
                self.progress = ProgressOption::Tempo(p);
            },
        }
    }

    /// Applies the parent's timing to calculate its own relative timing.
    pub fn apply_parent_timing(&mut self, parent_timing: TimingOption) -> (r: SoundResult<()>)
        requires
            old(self).wf(),
            parent_timing.wf(),
        ensures
            final(self).wf(),
            final(self).extent_ratio == old(self).extent_ratio,
            final(self).amplitude_normalized == old(self).amplitude_normalized,
            spec_parent_timing_post(
                old(self).progress.spec_timer(),
                final(self).progress.spec_timer(),
                parent_timing,
                r,
            ),
    {
        match self.progress {
            ProgressOption::Time(p_copy) => {
                let mut p = p_copy;
                let r = p.apply_parent_timing(parent_timing);
                self.progress = ProgressOption::Time(p);
                r
            },
            ProgressOption::Tempo(p_copy) => {
                let mut p = p_copy;
                let r = p.apply_parent_timing(parent_timing);
                self.progress = ProgressOption::Tempo(p);
                r
            },
        }
    }
}

/// Whether a tempo driven fade element's phase track stays within the
/// fixed-point working range over a buffer of the given length at any
/// tempo; other elements have no such constraint.
fn rhythmic_window_within_range(element: &AmplitudeJoinable, n: usize) -> (b: bool)
    requires
        element.wf(),
    ensures
        b == element.spec_rhythmic_window_ok(n as int),
{
    match element {
        AmplitudeJoinable::Fade(f) => match f.progress {
            ProgressOption::Tempo(p) => {
                proof {
                    assert(p.wf());
                    let pc = p.phase_change as int;
                    assert((if pc >= 0 {
                        pc
                    } else {
                        -pc
                    }) * (TEMPO_LIMIT as int) <= 0x7fff_ffff_ffff_ffff * (FIXED_ONE as int))
                        by (nonlinear_arith)
                        requires
                            -0x10_0000_0000_0000 <= pc <= 0x10_0000_0000_0000,
                    ;
                }
                let m = mul_fix_signed(p.phase_change, TEMPO_LIMIT);
                proof {
                    crate::math::lemma_mul_fix_abs_bounds(
                        p.phase_change as int,
                        TEMPO_LIMIT as int,
                        crate::progress::PHASE_CHANGE_LIMIT as int,
                        TEMPO_LIMIT as int,
                    );
                    assert((n as i128) as int == n as int);
                    assert((m as i128) as int == m as int);
                    assert(-0x4000_0000_0000_0000_0000_0000_0000_0000 < (n as int) * (m as int)
                        < 0x4000_0000_0000_0000_0000_0000_0000_0000) by (nonlinear_arith)
                        requires
                            0 <= n < 0xffff_ffff_ffff_ffff + 1,
                            -0x4000_0000_0000_0000 <= m <= 0x4000_0000_0000_0000,
                    ;
                }
                let endpoint: i128 = (p.phase as i128) + (n as i128) * (m as i128);
                let lo: i128 = -0x2_0000_0000i128;
                let hi: i128 = 0x2_0000_0000i128;
                lo <= (p.phase as i128) && (p.phase as i128) <= hi && lo <= endpoint && endpoint
                    <= hi
            },
            ProgressOption::Time(_) => true,
        },
        _ => true,
    }
}

/// The time budget of a window never exceeds the window.
proof fn lemma_budget_le_n(timer: Timer, n: int)
    requires
        timer.wf(),
        0 <= n,
    ensures
        0 <= spec_time_budget(timer, n) <= n,
{
    if (timer.timing matches TimingOption::Unlimited) {
    } else if timer.timing.is_time_kind() {
        if timer.remaining >= n * timer.sample_time {
        } else {
            vstd::arithmetic::div_mod::lemma_div_pos_is_pos(
                timer.remaining as int,
                timer.sample_time as int,
            );
            assert((timer.sample_time as int) * n == n * (timer.sample_time as int))
                by (nonlinear_arith);
            vstd::arithmetic::div_mod::lemma_multiply_divide_lt(
                timer.remaining as int,
                timer.sample_time as int,
                n,
            );
        }
    } else {
    }
}

/// When at least `m` sample times fit the remaining budget, the time
/// budget admits at least `m` samples.
proof fn lemma_budget_at_least(rem0: int, st0: int, n: int, m: int)
    requires
        1 <= st0,
        0 <= m <= n,
        0 <= rem0,
        rem0 >= m * st0,
    ensures
        (if rem0 >= n * st0 {
            n
        } else {
            rem0 / st0
        }) >= m,
{
    if rem0 >= n * st0 {
    } else {
        vstd::arithmetic::div_mod::lemma_div_is_ordered(m * st0, rem0, st0);
        vstd::arithmetic::div_mod::lemma_div_multiples_vanish(m, st0);
        assert(st0 * m == m * st0) by (nonlinear_arith);
    }
}

/// When between `m` and `m + 1` sample times fit, the time budget is
/// exactly `m` samples.
proof fn lemma_budget_exact(rem0: int, st0: int, n: int, m: int)
    requires
        1 <= st0,
        0 <= m < n,
        0 <= rem0,
        m * st0 <= rem0,
        rem0 < m * st0 + st0,
    ensures
        (if rem0 >= n * st0 {
            n
        } else {
            rem0 / st0
        }) == m,
{
    assert(m * st0 + st0 == (m + 1) * st0) by (nonlinear_arith);
    assert((m + 1) * st0 <= n * st0) by (nonlinear_arith)
        requires
            m + 1 <= n,
            st0 >= 1,
    ;
    vstd::arithmetic::div_mod::lemma_fundamental_div_mod_converse(
        rem0,
        st0,
        m,
        rem0 - m * st0,
    );
}

/// A fade phase between its endpoints stays within twice the unit range.
proof fn lemma_fade_phase_between(p0: int, pc: int, j: int, n: int)
    requires
        0 <= j <= n,
        -2 * (FIXED_ONE as int) <= p0 <= 2 * (FIXED_ONE as int),
        -2 * (FIXED_ONE as int) <= p0 + n * pc <= 2 * (FIXED_ONE as int),
    ensures
        -2 * (FIXED_ONE as int) <= p0 + j * pc <= 2 * (FIXED_ONE as int),
{
    if pc >= 0 {
        assert(j * pc <= n * pc && 0 <= j * pc) by (nonlinear_arith)
            requires
                0 <= j <= n,
                pc >= 0,
        ;
    } else {
        assert(n * pc <= j * pc && j * pc <= 0) by (nonlinear_arith)
            requires
                0 <= j <= n,
                pc < 0,
        ;
    }
}

/// The closed set of amplitude providers that can be joined into a
/// sequence: constant, linear fade, or exponential decay.
#[derive(Debug, Copy, Clone, PartialEq, Eq, Structural)]
pub enum AmplitudeJoinable {
    /// Constant amplitude.
    Const(AmplitudeConst),
    /// Linearly changing amplitude.
    Fade(FadeLinear),
    /// Exponentially decaying amplitude.
    DecayExp(AmplitudeDecayExp),
}

impl AmplitudeJoinable {
    /// Validity of the inner provider.
    pub open spec fn wf(&self) -> bool {
        match *self {
            AmplitudeJoinable::Const(a) => a.wf(),
            AmplitudeJoinable::Fade(a) => a.wf(),
            AmplitudeJoinable::DecayExp(a) => a.wf(),
        }
    }

    /// The actual amplitude of the inner provider.
    pub open spec fn spec_amplitude(&self) -> SampleCalc {
        match *self {
            AmplitudeJoinable::Const(a) => a.amplitude,
            AmplitudeJoinable::Fade(a) => a.progress.spec_phase(),
            AmplitudeJoinable::DecayExp(a) => a.amplitude,
        }
    }

    /// Whether a fade element is within the range its sample window allows
    /// without leaving the fixed-point working range.
    pub open spec fn spec_window_ok(&self, n: int) -> bool {
        match *self {
            AmplitudeJoinable::Fade(a) => a.progress matches ProgressOption::Time(p) ==> (-2
                * FIXED_ONE <= p.phase <= 2 * FIXED_ONE && -2 * FIXED_ONE <= p.phase + n
                * p.phase_change <= 2 * FIXED_ONE),
            _ => true,
        }
    }

    /// Applies the inner amplitude function over the window `[from, to)` of
    /// the samples. An element whose duration ends inside the window
    /// reports the index of the first sample it no longer covers.
    pub fn apply_range(&mut self, samples: &mut Vec<SampleCalc>, from: usize, to: usize) -> (r:
        SoundResult<()>)
        requires
            old(self).wf(),
            from <= to <= old(samples)@.len(),
            forall|i: int|
                from <= i < to ==> -FIXED_LIMIT <= #[trigger] old(samples)@[i] <= FIXED_LIMIT,
            old(self).spec_window_ok(to - from),
        ensures
            final(self).wf(),
            final(samples)@.len() == old(samples)@.len(),
            forall|j: int|
                (0 <= j < from || to <= j < old(samples)@.len()) ==> #[trigger] final(samples)@[j]
                    == old(samples)@[j],
            r === Ok(()) || (exists|c: int|
                from <= c < to && r === Err(Error::ItemsCompleted(#[trigger] (c as usize)))) || r
                === Err(Error::TimingInvalid) || r === Err(Error::ProgressInvalid),
            forall|c: int|
                from <= c < to && r === Err(Error::ItemsCompleted(#[trigger] (c as usize)))
                    ==> (forall|j: int|
                    c <= j < old(samples)@.len() ==> #[trigger] final(samples)@[j] == old(samples)@[j]),
            (r === Err(Error::TimingInvalid) || r === Err(Error::ProgressInvalid)) ==> final(samples)@ == old(samples)@,
            (*old(self)) matches AmplitudeJoinable::Const(a0) ==> ((*final(self)) matches
                AmplitudeJoinable::Const(a1) && spec_const_window_post(
                a0,
                a1,
                old(samples)@,
                final(samples)@,
                from as int,
                to as int,
                r,
            )),
            (*old(self)) matches AmplitudeJoinable::DecayExp(a0) ==> ((*final(self)) matches
                AmplitudeJoinable::DecayExp(a1) && spec_decay_window_post(
                a0,
                a1,
                old(samples)@,
                final(samples)@,
                from as int,
                to as int,
                r,
            )),
            (*old(self)) matches AmplitudeJoinable::Fade(a0) ==> ((*final(self)) matches
                AmplitudeJoinable::Fade(a1) && spec_fade_window_post(
                a0,
                a1,
                old(samples)@,
                final(samples)@,
                from as int,
                to as int,
                r,
            )),
    {
        match self {
            AmplitudeJoinable::Const(a) => {
                let ghost t0 = a.timer;
                let r = a.apply_range(samples, from, to);
                proof {
                    lemma_budget_le_n(t0, (to - from) as int);
                }
                r
            },
            AmplitudeJoinable::Fade(a) => {
                let ghost pr0 = a.progress;
                let r = a.apply_range(samples, from, to);
                proof {
                    match pr0 {
                        ProgressOption::Time(p) => {
                            lemma_budget_le_n(p.timer, (to - from) as int);
                        },
                        ProgressOption::Tempo(_) => {},
                    }
                }
                r
            },
            AmplitudeJoinable::DecayExp(a) => {
                let ghost t0 = a.timer;
                let r = a.apply_range(samples, from, to);
                proof {
                    lemma_budget_le_n(t0, (to - from) as int);
                }
                r
            },
        }
    }

    /// Whether a tempo driven fade element stays within the fixed-point
    /// working range over a buffer of the given length at any tempo.
    pub open spec fn spec_rhythmic_window_ok(&self, n: int) -> bool {
        match *self {
            AmplitudeJoinable::Fade(a) => a.progress matches ProgressOption::Tempo(p) ==> {
                let m = spec_mul_fix(p.phase_change as int, TEMPO_LIMIT as int);
                &&& -2 * FIXED_ONE <= p.phase <= 2 * FIXED_ONE
                &&& -2 * FIXED_ONE <= p.phase + n * m <= 2 * FIXED_ONE
            },
            _ => true,
        }
    }

    /// Applies the inner amplitude function over the whole buffer, with the
    /// timing measured in beats of the given tempo.
    pub fn apply_rhythmic(&mut self, tempo: &Vec<SampleCalc>, samples: &mut Vec<SampleCalc>) -> (r:
        SoundResult<()>)
        requires
            old(self).wf(),
            forall|i: int| 0 <= i < tempo@.len() ==> 0 <= #[trigger] tempo@[i] <= TEMPO_LIMIT,
            forall|i: int|
                0 <= i < old(samples)@.len() ==> -FIXED_LIMIT <= #[trigger] old(samples)@[i]
                    <= FIXED_LIMIT,
            old(self).spec_rhythmic_window_ok(old(samples)@.len() as int),
        ensures
            final(self).wf(),
            final(samples)@.len() == old(samples)@.len(),
            tempo@.len() != old(samples)@.len() ==> (r === Err(Error::BufferSize) && *final(self)
                == *old(self) && final(samples)@ == old(samples)@),
            r === Ok(()) || (exists|c: int|
                0 <= c < old(samples)@.len() && r === Err(
                    Error::ItemsCompleted(#[trigger] (c as usize)),
                )) || r === Err(Error::TimingInvalid) || r === Err(Error::ProgressInvalid) || r
                === Err(Error::BufferSize),
            forall|c: int|
                0 <= c < old(samples)@.len() && r === Err(
                    Error::ItemsCompleted(#[trigger] (c as usize)),
                ) ==> (forall|j: int|
                    c <= j < old(samples)@.len() ==> #[trigger] final(samples)@[j] == old(samples)@[j]),
            (r === Err(Error::TimingInvalid) || r === Err(Error::ProgressInvalid)) ==> final(samples)@ == old(samples)@,
            (*old(self)) matches AmplitudeJoinable::Const(a0) ==> ((*final(self)) matches
                AmplitudeJoinable::Const(a1) && spec_const_rhythmic_post(
                a0,
                a1,
                tempo@,
                old(samples)@,
                final(samples)@,
                r,
            )),
            (*old(self)) matches AmplitudeJoinable::DecayExp(a0) ==> ((*final(self)) matches
                AmplitudeJoinable::DecayExp(a1) && spec_decay_rhythmic_post(
                a0,
                a1,
                tempo@,
                old(samples)@,
                final(samples)@,
                r,
            )),
            (*old(self)) matches AmplitudeJoinable::Fade(a0) ==> ((*final(self)) matches
                AmplitudeJoinable::Fade(a1) && spec_fade_rhythmic_post(
                a0,
                a1,
                tempo@,
                old(samples)@,
                final(samples)@,
                r,
            )),
    {
        match self {
            AmplitudeJoinable::Const(a) => a.apply_rhythmic(tempo, samples),
            AmplitudeJoinable::Fade(a) => a.apply_rhythmic(tempo, samples),
            AmplitudeJoinable::DecayExp(a) => a.apply_rhythmic(tempo, samples),
        }
    }

    /// What seeding an element with a start amplitude does: the momentary
    /// amplitude becomes the given value; a constant or decaying element
    /// refills its timer ("resets time"), a fade restarts its ramp from the
    /// value while keeping its end point.
    pub open spec fn spec_seed_rel(
        e0: AmplitudeJoinable,
        e1: AmplitudeJoinable,
        amp: SampleCalc,
    ) -> bool {
        &&& e1.wf()
        &&& e1.spec_amplitude() == amp
        &&& (e0 matches AmplitudeJoinable::Const(a0) ==> (e1 matches AmplitudeJoinable::Const(a1)
            && a1.amplitude == amp && spec_restart_post(a0.timer, a1.timer)))
        &&& (e0 matches AmplitudeJoinable::DecayExp(a0) ==> (e1 matches
            AmplitudeJoinable::DecayExp(a1) && a1.amplitude == amp && a1.multiplier
            == a0.multiplier && a1.sample_time == a0.sample_time && spec_restart_post(
            a0.timer,
            a1.timer,
        )))
        &&& (e0 matches AmplitudeJoinable::Fade(a0) ==> (e1 matches AmplitudeJoinable::Fade(a1)
            && a1.amplitude_start == amp && a1.amplitude_end == a0.amplitude_end
            && a1.progress.spec_phase() == amp))
    }

    /// Sets the initial amplitude, and resets time.
    pub fn set_amplitude_start(&mut self, amplitude: SampleCalc) -> (r: SoundResult<()>)
        requires
            old(self).wf(),
        ensures
            !(0 <= amplitude <= FIXED_ONE) ==> (r === Err(Error::AmplitudeInvalid) && *final(self)
                == *old(self)),
            (0 <= amplitude <= FIXED_ONE) ==> (r === Ok(()) && final(self).wf() && final(self).spec_amplitude() == amplitude && AmplitudeJoinable::spec_seed_rel(
                *old(self),
                *final(self),
                amplitude,
            )),
            (*final(self)) is Const == (*old(self)) is Const,
            (*final(self)) is Fade == (*old(self)) is Fade,
    {
        match self {
            AmplitudeJoinable::Const(a) => a.set_amplitude_start(amplitude),
            AmplitudeJoinable::Fade(a) => a.set_amplitude_start(amplitude),
            AmplitudeJoinable::DecayExp(a) => a.set_amplitude_start(amplitude),
        }
    }

    /// Provides the actual amplitude value.
    pub fn get_amplitude(&self) -> (r: SampleCalc)
        ensures
            r == self.spec_amplitude(),
    {
        match self {
            AmplitudeJoinable::Const(a) => a.get_amplitude(),
            AmplitudeJoinable::Fade(a) => a.get_amplitude(),
            AmplitudeJoinable::DecayExp(a) => a.get_amplitude(),
        }
    }

    /// The maximal possible future amplitude of the inner provider: the
    /// momentary amplitude for a constant or decaying element, the larger
    /// endpoint for a fade.
    pub open spec fn spec_max(&self) -> SampleCalc {
        match *self {
            AmplitudeJoinable::Const(a) => a.amplitude,
            AmplitudeJoinable::Fade(a) => if a.amplitude_start >= a.amplitude_end {
                a.amplitude_start
            } else {
                a.amplitude_end
            },
            AmplitudeJoinable::DecayExp(a) => a.amplitude,
        }
    }

    /// Provides the maximal possible future amplitude (for normalization).
    pub fn get_max(&self) -> (r: SampleCalc)
        ensures
            r == self.spec_max(),
    {
        match self {
            AmplitudeJoinable::Const(a) => a.get_max(),
            AmplitudeJoinable::Fade(a) => a.get_max(),
            AmplitudeJoinable::DecayExp(a) => a.get_max(),
        }
    }

    /// What applying a parent timing does to an element: its timer is
    /// rescaled as the timer's own rule says, the variant and the
    /// momentary amplitude stay as they are.
    pub open spec fn spec_parent_rel(
        e0: AmplitudeJoinable,
        e1: AmplitudeJoinable,
        parent_timing: TimingOption,
        r: SoundResult<()>,
    ) -> bool {
        &&& e1.wf()
        &&& spec_parent_timing_post(
            e0.spec_element_timer(),
            e1.spec_element_timer(),
            parent_timing,
            r,
        )
        &&& (e1 is Const == e0 is Const)
        &&& (e1 is Fade == e0 is Fade)
        &&& e1.spec_amplitude() == e0.spec_amplitude()
    }

    /// Applies the parent's timing to calculate its own relative timing.
    pub fn apply_parent_timing(&mut self, parent_timing: TimingOption) -> (r: SoundResult<()>)
        requires
            old(self).wf(),
            parent_timing.wf(),
        ensures
            final(self).wf(),
            spec_parent_timing_post(
                old(self).spec_element_timer(),
                final(self).spec_element_timer(),
                parent_timing,
                r,
            ),
            AmplitudeJoinable::spec_parent_rel(*old(self), *final(self), parent_timing, r),
    {
        match self {
            AmplitudeJoinable::Const(a) => a.apply_parent_timing(parent_timing),
            AmplitudeJoinable::Fade(a) => a.apply_parent_timing(parent_timing),
            AmplitudeJoinable::DecayExp(a) => a.apply_parent_timing(parent_timing),
        }
    }

    /// The internal timer of the inner provider.
    pub open spec fn spec_element_timer(&self) -> Timer {
        match *self {
            AmplitudeJoinable::Const(a) => a.timer,
            AmplitudeJoinable::Fade(a) => a.progress.spec_timer(),
            AmplitudeJoinable::DecayExp(a) => a.timer,
        }
    }

    /// What a restart does to an element: the timer is refilled; a constant
    /// or decaying element keeps its running amplitude, a fade returns to
    /// its initial phase.
    pub open spec fn spec_restart_rel(e0: AmplitudeJoinable, e1: AmplitudeJoinable) -> bool {
        &&& spec_restart_post(e0.spec_element_timer(), e1.spec_element_timer())
        &&& (e0 matches AmplitudeJoinable::Const(a0) ==> (e1 matches AmplitudeJoinable::Const(a1)
            && a1.amplitude == a0.amplitude))
        &&& (e0 matches AmplitudeJoinable::DecayExp(a0) ==> (e1 matches
            AmplitudeJoinable::DecayExp(a1) && a1.amplitude == a0.amplitude && a1.multiplier
            == a0.multiplier))
        &&& (e0 matches AmplitudeJoinable::Fade(a0) ==> (e1 matches AmplitudeJoinable::Fade(a1)
            && a1.amplitude_start == a0.amplitude_start && a1.amplitude_end == a0.amplitude_end
            && a1.progress.spec_phase() == a0.progress.spec_phase_init()))
    }

    /// What one window application does to an element: the per-variant
    /// window postcondition of the inner provider.
    pub open spec fn spec_window_rel(
        e0: AmplitudeJoinable,
        e1: AmplitudeJoinable,
        s0: Seq<SampleCalc>,
        s1: Seq<SampleCalc>,
        from: int,
        to: int,
        r: SoundResult<()>,
    ) -> bool {
        &&& (e0 matches AmplitudeJoinable::Const(a0) ==> (e1 matches AmplitudeJoinable::Const(a1)
            && spec_const_window_post(a0, a1, s0, s1, from, to, r)))
        &&& (e0 matches AmplitudeJoinable::DecayExp(a0) ==> (e1 matches
            AmplitudeJoinable::DecayExp(a1) && spec_decay_window_post(a0, a1, s0, s1, from, to, r)))
        &&& (e0 matches AmplitudeJoinable::Fade(a0) ==> (e1 matches AmplitudeJoinable::Fade(a1)
            && spec_fade_window_post(a0, a1, s0, s1, from, to, r)))
    }

    /// What one rhythmic application does to an element: the per-variant
    /// rhythmic postcondition of the inner provider.
    pub open spec fn spec_rhythmic_rel(
        e0: AmplitudeJoinable,
        e1: AmplitudeJoinable,
        tempo: Seq<SampleCalc>,
        s0: Seq<SampleCalc>,
        s1: Seq<SampleCalc>,
        r: SoundResult<()>,
    ) -> bool {
        &&& (e0 matches AmplitudeJoinable::Const(a0) ==> (e1 matches AmplitudeJoinable::Const(a1)
            && spec_const_rhythmic_post(a0, a1, tempo, s0, s1, r)))
        &&& (e0 matches AmplitudeJoinable::DecayExp(a0) ==> (e1 matches
            AmplitudeJoinable::DecayExp(a1) && spec_decay_rhythmic_post(a0, a1, tempo, s0, s1, r)))
        &&& (e0 matches AmplitudeJoinable::Fade(a0) ==> (e1 matches AmplitudeJoinable::Fade(a1)
            && spec_fade_rhythmic_post(a0, a1, tempo, s0, s1, r)))
    }

    /// Restarts the inner provider: the timer is refilled and a fade
    /// returns to its initial phase.
    pub fn restart(&mut self)
        requires
            old(self).wf(),
        ensures
            final(self).wf(),
            AmplitudeJoinable::spec_restart_rel(*old(self), *final(self)),
    {
        match self {
            AmplitudeJoinable::Const(a) => a.restart(),
            AmplitudeJoinable::Fade(a) => a.restart(),
            AmplitudeJoinable::DecayExp(a) => a.restart(),
        }
    }
}

/// One complete run of an amplitude sequence over the window `[from,
/// limit)` of a buffer, once the sequence's own timer has been drained:
/// the element at the active index `j` covers the window; when its
/// duration ends at a sample `c` inside it, the next element is seeded
/// with the predecessor's clamped final amplitude, takes over the
/// sequence's timing, and resumes at `c`; running out of elements
/// mid-window is `Error::ItemInvalid`, and a fade whose phase track would
/// leave the working range is `Error::Overflow` — each error only in its
/// branch. The relation ties the elements and the samples before the run
/// to those after it, splice by splice; `timer_r` is what the run returns
/// when an element covers the rest of the window.
pub open spec fn spec_sequence_run(
    arr_in: Seq<AmplitudeJoinable>,
    arr_out: Seq<AmplitudeJoinable>,
    s_in: Seq<SampleCalc>,
    s_out: Seq<SampleCalc>,
    j: int,
    j_out: int,
    from: int,
    limit: int,
    timer_r: SoundResult<()>,
    timing: TimingOption,
    amp_in: SampleCalc,
    amp_out: SampleCalc,
    r: SoundResult<()>,
) -> bool
    decreases arr_in.len() - j,
{
    let count = arr_in.len() as int;
    if !(0 <= j < count) {
        &&& r === Err(Error::ItemInvalid)
        &&& arr_out == arr_in
        &&& s_out == s_in
        &&& j_out == j
        &&& amp_out == amp_in
    } else if !arr_in[j].spec_window_ok(limit - from) {
        &&& r === Err(Error::Overflow)
        &&& arr_out == arr_in
        &&& s_out == s_in
        &&& j_out == j
        &&& amp_out == amp_in
    } else {
        exists|e1: AmplitudeJoinable, s1: Seq<SampleCalc>, cr: SoundResult<()>|
            {
                &&& #[trigger] AmplitudeJoinable::spec_window_rel(
                    arr_in[j],
                    e1,
                    s_in,
                    s1,
                    from,
                    limit,
                    cr,
                )
                &&& s1.len() == s_in.len()
                &&& (cr === Ok(()) || (exists|c: int|
                    from <= c < limit && cr === Err(Error::ItemsCompleted(#[trigger] (c as usize))))
                    || cr === Err(Error::TimingInvalid) || cr === Err(Error::ProgressInvalid))
                &&& (cr === Ok(()) ==> (r == timer_r && arr_out == arr_in.update(j, e1) && s_out
                    == s1 && j_out == j && amp_out == spec_clamp_amplitude(e1.spec_amplitude())))
                &&& ((cr === Err(Error::TimingInvalid) || cr === Err(Error::ProgressInvalid)) ==> (
                r == cr && arr_out == arr_in.update(j, e1) && s_out == s1 && j_out == j && amp_out
                    == amp_in))
                &&& (forall|c: int|
                    from <= c < limit && cr === Err(Error::ItemsCompleted(#[trigger] (c as usize)))
                        ==> (if j + 1 >= count {
                        &&& r === Err(Error::ItemInvalid)
                        &&& arr_out == arr_in.update(j, e1)
                        &&& s_out == s1
                        &&& j_out == j
                        &&& amp_out == amp_in
                    } else {
                        let amp_mid = spec_clamp_amplitude(e1.spec_amplitude());
                        exists|e2: AmplitudeJoinable, e3: AmplitudeJoinable, pr: SoundResult<()>|
                            {
                                &&& AmplitudeJoinable::spec_seed_rel(arr_in[j + 1], e2, amp_mid)
                                &&& #[trigger] AmplitudeJoinable::spec_parent_rel(
                                    e2,
                                    e3,
                                    timing,
                                    pr,
                                )
                                &&& (pr is Err ==> (r == pr && arr_out == arr_in.update(
                                    j,
                                    e1,
                                ).update(j + 1, e3) && s_out == s1 && j_out == j + 1 && amp_out
                                    == amp_mid))
                                &&& (pr === Ok(()) ==> spec_sequence_run(
                                    arr_in.update(j, e1).update(j + 1, e3),
                                    arr_out,
                                    s1,
                                    s_out,
                                    j + 1,
                                    j_out,
                                    c,
                                    limit,
                                    timer_r,
                                    timing,
                                    amp_mid,
                                    amp_out,
                                    r,
                                ))
                            }
                    }))
            }
    }
}

/// One complete rhythmic run of an amplitude sequence, once its own
/// time-based timer has admitted the whole buffer: as the timed run, but
/// each element is applied over the whole tempo buffer, so a hand-over is
/// only possible at the very first sample; one at a later sample `from`
/// still seeds and times the successor and is then refused with
/// `Error::BufferSize`.
pub open spec fn spec_sequence_rhythmic_run(
    arr_in: Seq<AmplitudeJoinable>,
    arr_out: Seq<AmplitudeJoinable>,
    tempo: Seq<SampleCalc>,
    s_in: Seq<SampleCalc>,
    s_out: Seq<SampleCalc>,
    j: int,
    j_out: int,
    from: int,
    timing: TimingOption,
    amp_in: SampleCalc,
    amp_out: SampleCalc,
    r: SoundResult<()>,
) -> bool
    decreases arr_in.len() - j,
{
    let count = arr_in.len() as int;
    let n = s_in.len() as int;
    if !(0 <= j < count) {
        &&& r === Err(Error::ItemInvalid)
        &&& arr_out == arr_in
        &&& s_out == s_in
        &&& j_out == j
        &&& amp_out == amp_in
    } else if from != 0 {
        &&& r === Err(Error::BufferSize)
        &&& arr_out == arr_in
        &&& s_out == s_in
        &&& j_out == j
        &&& amp_out == amp_in
    } else if !arr_in[j].spec_rhythmic_window_ok(n) {
        &&& r === Err(Error::Overflow)
        &&& arr_out == arr_in
        &&& s_out == s_in
        &&& j_out == j
        &&& amp_out == amp_in
    } else {
        exists|e1: AmplitudeJoinable, s1: Seq<SampleCalc>, cr: SoundResult<()>|
            {
                &&& #[trigger] AmplitudeJoinable::spec_rhythmic_rel(
                    arr_in[j],
                    e1,
                    tempo,
                    s_in,
                    s1,
                    cr,
                )
                &&& s1.len() == s_in.len()
                &&& (cr === Ok(()) || (exists|c: int|
                    0 <= c < n && cr === Err(Error::ItemsCompleted(#[trigger] (c as usize)))) || cr
                    === Err(Error::TimingInvalid) || cr === Err(Error::ProgressInvalid) || cr
                    === Err(Error::BufferSize))
                &&& (cr === Ok(()) ==> (r === Ok(()) && arr_out == arr_in.update(j, e1) && s_out
                    == s1 && j_out == j && amp_out == spec_clamp_amplitude(e1.spec_amplitude())))
                &&& ((cr === Err(Error::TimingInvalid) || cr === Err(Error::ProgressInvalid) || cr
                    === Err(Error::BufferSize)) ==> (r == cr && arr_out == arr_in.update(j, e1)
                    && s_out == s1 && j_out == j && amp_out == amp_in))
                &&& (forall|c: int|
                    0 <= c < n && cr === Err(Error::ItemsCompleted(#[trigger] (c as usize))) ==> (
                    if j + 1 >= count {
                        &&& r === Err(Error::ItemInvalid)
                        &&& arr_out == arr_in.update(j, e1)
                        &&& s_out == s1
                        &&& j_out == j
                        &&& amp_out == amp_in
                    } else {
                        let amp_mid = spec_clamp_amplitude(e1.spec_amplitude());
                        exists|e2: AmplitudeJoinable, e3: AmplitudeJoinable, pr: SoundResult<()>|
                            {
                                &&& AmplitudeJoinable::spec_seed_rel(arr_in[j + 1], e2, amp_mid)
                                &&& #[trigger] AmplitudeJoinable::spec_parent_rel(
                                    e2,
                                    e3,
                                    timing,
                                    pr,
                                )
                                &&& (pr is Err ==> (r == pr && arr_out == arr_in.update(
                                    j,
                                    e1,
                                ).update(j + 1, e3) && s_out == s1 && j_out == j + 1 && amp_out
                                    == amp_mid))
                                &&& (pr === Ok(()) ==> spec_sequence_rhythmic_run(
                                    arr_in.update(j, e1).update(j + 1, e3),
                                    arr_out,
                                    tempo,
                                    s1,
                                    s_out,
                                    j + 1,
                                    j_out,
                                    c,
                                    timing,
                                    amp_mid,
                                    amp_out,
                                    r,
                                ))
                            }
                    }))
            }
    }
}

/// Sequence of several amplitude functions, spliced end to end in time:
/// when the active element's duration ends mid-buffer, the next element
/// takes over from the very sample where the previous one stopped, seeded
/// with the previous element's final amplitude so the splice is continuous.
#[derive(Debug, Clone, PartialEq, Eq)]
pub struct AmplitudeSequence {
    /// The timer limiting the sequence as a whole.
    pub timer: Timer,
    /// The elements of the sequence.
    pub amp_funct_array: Vec<AmplitudeJoinable>,
    /// The index of the active element.
    pub array_index: usize,
    /// The last amplitude value.
    pub amplitude: SampleCalc,
}

impl AmplitudeSequence {
    /// Validity: the timer and every element are valid and the active
    /// index never runs past the element list.
    pub open spec fn wf(&self) -> bool {
        &&& self.timer.wf()
        &&& self.array_index <= self.amp_funct_array@.len()
        &&& forall|i: int|
            0 <= i < self.amp_funct_array@.len() ==> (#[trigger] self.amp_funct_array@[i]).wf()
        &&& 0 <= self.amplitude <= FIXED_ONE
    }

    /// Custom constructor: an empty sequence.
    pub fn new(sample_rate: SampleCalc) -> (r: SoundResult<AmplitudeSequence>)
        ensures
            sample_rate < FIXED_ONE ==> r === Err(Error::SampleRateInvalid),
            sample_rate >= FIXED_ONE ==> (r matches Ok(s) && s.wf() && s.amp_funct_array@.len()
                == 0 && s.array_index == 0 && s.amplitude == FIXED_ONE),
    {
        let timer = match Timer::new(sample_rate) {
            Ok(t) => t,
            Err(e) => {
                return Err(e);
            },
        };
        Ok(AmplitudeSequence { timer, amp_funct_array: Vec::new(), array_index: 0, amplitude: FIXED_ONE })
    }

    /// Adds a new amplitude function to the sequence.
    pub fn add(&mut self, amplitude: AmplitudeJoinable)
        requires
            old(self).wf(),
            amplitude.wf(),
            old(self).amp_funct_array@.len() < 0xffff,
        ensures
            final(self).wf(),
            final(self).amp_funct_array@ == old(self).amp_funct_array@.push(amplitude),
    {
        self.amp_funct_array.push(amplitude);
    }

    /// Applies the sequence over already existing samples: the sequence's
    /// own timer first truncates the buffer, then the elements cover it in
    /// turn, each seeded with its predecessor's final amplitude. Running
    /// out of elements mid-buffer is `Error::ItemInvalid`; an empty
    /// sequence is `Error::SequenceEmpty`. The whole splice chain is the
    /// run relation of the last clause.
    pub fn apply(&mut self, samples: &mut Vec<SampleCalc>) -> (r: SoundResult<()>)
        requires
            old(self).wf(),
            forall|i: int|
                0 <= i < old(samples)@.len() ==> -FIXED_LIMIT <= #[trigger] old(samples)@[i]
                    <= FIXED_LIMIT,
        ensures
            final(samples)@.len() == old(samples)@.len(),
            old(self).amp_funct_array@.len() == 0 <==> r === Err(Error::SequenceEmpty),
            r === Err(Error::SequenceEmpty) ==> (*final(self) == *old(self) && final(samples)@
                == old(samples)@),
            final(self).wf(),
            final(self).amp_funct_array@.len() == old(self).amp_funct_array@.len(),
            final(self).array_index >= old(self).array_index,
            old(self).amp_funct_array@.len() > 0 && old(self).timer.timing.is_tempo_kind() ==> (r
                === Err(Error::TimingInvalid) && *final(self) == *old(self) && final(samples)@
                == old(samples)@),
            old(self).amp_funct_array@.len() > 0 && !old(self).timer.timing.is_tempo_kind()
                ==> ({
                let n = old(samples)@.len() as int;
                let count = old(self).amp_funct_array@.len() as int;
                let j0 = old(self).array_index as int;
                let limit = spec_time_budget(old(self).timer, n);
                let arr0 = old(self).amp_funct_array@;
                let arr1 = final(self).amp_funct_array@;
                &&& spec_jump_time_post(
                    old(self).timer,
                    final(self).timer,
                    n,
                    if limit == n {
                        Ok(())
                    } else {
                        Err(Error::ItemsCompleted(limit as usize))
                    },
                )
                &&& (forall|j: int|
                    limit <= j < n ==> #[trigger] final(samples)@[j] == old(samples)@[j])
                &&& (j0 >= count ==> (r === Err(Error::ItemInvalid) && arr1 == arr0 && final(samples)@ == old(samples)@ && final(self).array_index == j0 && final(self).amplitude == old(self).amplitude))
                &&& ((r === Ok(()) || r matches Err(Error::ItemsCompleted(_))) ==> (final(self).array_index < count && final(self).amplitude == spec_clamp_amplitude(
                    arr1[final(self).array_index as int].spec_amplitude(),
                )))
                &&& (j0 < count && final(self).array_index == j0 ==> {
                    let e0 = arr0[j0];
                    let e1 = arr1[j0];
                    &&& (forall|i: int| 0 <= i < count && i != j0 ==> #[trigger] arr1[i] == arr0[i])
                    &&& (r === Ok(()) ==> (limit == n && AmplitudeJoinable::spec_window_rel(
                        e0,
                        e1,
                        old(samples)@,
                        final(samples)@,
                        0,
                        n,
                        Ok(()),
                    )))
                    &&& (forall|k: int|
                        r === Err(Error::ItemsCompleted(#[trigger] (k as usize))) && k == limit
                            && 0 <= k ==> AmplitudeJoinable::spec_window_rel(
                            e0,
                            e1,
                            old(samples)@,
                            final(samples)@,
                            0,
                            limit,
                            Ok(()),
                        ))
                    &&& (r === Err(Error::ItemInvalid) ==> (j0 + 1 >= count && final(self).amplitude == old(self).amplitude && exists|c: int|
                        0 <= c < limit && AmplitudeJoinable::spec_window_rel(
                            e0,
                            e1,
                            old(samples)@,
                            final(samples)@,
                            0,
                            limit,
                            Err(Error::ItemsCompleted(#[trigger] (c as usize))),
                        )))
                    &&& ((r === Err(Error::TimingInvalid) || r === Err(Error::ProgressInvalid))
                        ==> (final(self).amplitude == old(self).amplitude
                        && AmplitudeJoinable::spec_window_rel(
                        e0,
                        e1,
                        old(samples)@,
                        final(samples)@,
                        0,
                        limit,
                        r,
                    )))
                })
                &&& (final(self).array_index > j0 ==> (forall|i: int|
                    final(self).array_index < i < count ==> #[trigger] arr1[i] == arr0[i]))
                &&& spec_sequence_run(
                    arr0,
                    arr1,
                    old(samples)@,
                    final(samples)@,
                    j0,
                    final(self).array_index as int,
                    0,
                    limit,
                    if limit == n {
                        Ok(())
                    } else {
                        Err(Error::ItemsCompleted(limit as usize))
                    },
                    old(self).timer.timing,
                    old(self).amplitude,
                    final(self).amplitude,
                    r,
                )
            }),
    {
        if self.amp_funct_array.len() == 0 {
            return Err(Error::SequenceEmpty);
        }
        let n = samples.len();
        let timer_result = self.timer.jump_by_time(n);
        let limit: usize = match timer_result {
            Ok(()) => n,
            Err(Error::ItemsCompleted(completed)) => {
                proof {
                    let rem = old(self).timer.remaining as int;
                    let st = old(self).timer.sample_time as int;
                    vstd::arithmetic::div_mod::lemma_div_pos_is_pos(rem, st);
                    assert(st * (n as int) == (n as int) * st) by (nonlinear_arith);
                    vstd::arithmetic::div_mod::lemma_multiply_divide_lt(rem, st, n as int);
                }
                completed
            },
            Err(e) => {
                return Err(e);
            },
        };
        let mut index_from: usize = 0;
        let count = self.amp_funct_array.len();
        let ghost j0 = old(self).array_index as int;
        let ghost glimit = spec_time_budget(old(self).timer, n as int);
        loop
            invariant
                0 <= index_from <= limit <= n,
                n == samples@.len(),
                n == old(samples)@.len(),
                count == self.amp_funct_array@.len(),
                count == old(self).amp_funct_array@.len(),
                count > 0,
                j0 == old(self).array_index as int,
                glimit == spec_time_budget(old(self).timer, n as int),
                limit as int == glimit,
                !old(self).timer.timing.is_tempo_kind(),
                spec_jump_time_post(old(self).timer, self.timer, n as int, timer_result),
                timer_result == (if glimit == n as int {
                    Ok::<(), Error>(())
                } else {
                    Err::<(), Error>(Error::ItemsCompleted(limit))
                }),
                self.array_index >= old(self).array_index,
                self.array_index == j0 ==> (self.amp_funct_array@ == old(self).amp_funct_array@
                    && index_from == 0 && samples@ == old(samples)@ && self.amplitude == old(self).amplitude),
                forall|i: int|
                    self.array_index < i < count ==> #[trigger] self.amp_funct_array@[i] == old(self).amp_funct_array@[i],
                self.timer.wf(),
                self.array_index <= count,
                0 <= self.amplitude <= FIXED_ONE,
                forall|i: int|
                    0 <= i < self.amp_funct_array@.len() ==> (
                    #[trigger] self.amp_funct_array@[i]).wf(),
                forall|j: int|
                    index_from <= j < n ==> #[trigger] samples@[j] == old(samples)@[j],
                forall|j: int|
                    0 <= j < n ==> -FIXED_LIMIT <= #[trigger] old(samples)@[j] <= FIXED_LIMIT,
                !(timer_result === Err(Error::SequenceEmpty)),
                timer_result === Ok(()) || timer_result matches Err(Error::ItemsCompleted(_))
                    || timer_result === Err(Error::TimingInvalid),
                forall|arr_out: Seq<AmplitudeJoinable>, s_out: Seq<SampleCalc>, j_out: int,
                amp_out: SampleCalc, rr: SoundResult<()>|
                    #[trigger] spec_sequence_run(
                        self.amp_funct_array@,
                        arr_out,
                        samples@,
                        s_out,
                        self.array_index as int,
                        j_out,
                        index_from as int,
                        glimit,
                        timer_result,
                        old(self).timer.timing,
                        self.amplitude,
                        amp_out,
                        rr,
                    ) ==> spec_sequence_run(
                        old(self).amp_funct_array@,
                        arr_out,
                        old(samples)@,
                        s_out,
                        j0,
                        j_out,
                        0,
                        glimit,
                        timer_result,
                        old(self).timer.timing,
                        old(self).amplitude,
                        amp_out,
                        rr,
                    ),
            decreases count - self.array_index,
        {
            let ghost arr_pre = self.amp_funct_array@;
            let ghost s_pre = samples@;
            let ghost jpre = self.array_index as int;
            let ghost amp_pre = self.amplitude;
            let ghost from_pre = index_from as int;
            if self.array_index >= count {
                proof {
                    assert(spec_sequence_run(
                        arr_pre,
                        arr_pre,
                        s_pre,
                        s_pre,
                        jpre,
                        jpre,
                        from_pre,
                        glimit,
                        timer_result,
                        old(self).timer.timing,
                        amp_pre,
                        amp_pre,
                        Err(Error::ItemInvalid),
                    ));
                }
                return Err(Error::ItemInvalid);
            }
            let idx = self.array_index;
            if !window_within_range(&self.amp_funct_array[idx], limit - index_from) {
                proof {
                    assert(!arr_pre[jpre].spec_window_ok(glimit - from_pre));
                    assert(spec_sequence_run(
                        arr_pre,
                        arr_pre,
                        s_pre,
                        s_pre,
                        jpre,
                        jpre,
                        from_pre,
                        glimit,
                        timer_result,
                        old(self).timer.timing,
                        amp_pre,
                        amp_pre,
                        Err(Error::Overflow),
                    ));
                }
                return Err(Error::Overflow);
            }
            let child_result = self.amp_funct_array[idx].apply_range(samples, index_from, limit);
            let ghost cr_g = child_result;
            let ghost e1 = self.amp_funct_array@[jpre];
            let ghost s1 = samples@;
            proof {
                assert forall|i: int| 0 <= i < count implies (
                #[trigger] self.amp_funct_array@[i]).wf() by {}
                assert(self.amp_funct_array@ =~= arr_pre.update(jpre, e1));
                assert(AmplitudeJoinable::spec_window_rel(
                    arr_pre[jpre],
                    e1,
                    s_pre,
                    s1,
                    from_pre,
                    glimit,
                    cr_g,
                ));
            }
            match child_result {
                Ok(()) => {
                    self.amplitude = clamp_amplitude(self.amp_funct_array[idx].get_amplitude());
                    proof {
                        assert(spec_sequence_run(
                            arr_pre,
                            self.amp_funct_array@,
                            s_pre,
                            s1,
                            jpre,
                            jpre,
                            from_pre,
                            glimit,
                            timer_result,
                            old(self).timer.timing,
                            amp_pre,
                            self.amplitude,
                            timer_result,
                        ));
                    }
                    match timer_result {
                        Ok(()) => {
                            return Ok(());
                        },
                        Err(Error::ItemsCompleted(completed)) => {
                            return Err(Error::ItemsCompleted(completed));
                        },
                        Err(e) => {
                            return Err(e);
                        },
                    }
                },
                Err(Error::ItemsCompleted(completed)) => {
                    index_from = completed;
                    let next_index = self.array_index + 1;
                    proof {
                        assert(((completed as int) as usize) == completed);
                        assert(from_pre <= completed < glimit) by {
                            let cw = choose|c: int|
                                from_pre <= c < glimit && cr_g === Err(
                                    Error::ItemsCompleted(#[trigger] (c as usize)),
                                );
                            assert((cw as usize) as int == cw);
                        };
                        assert forall|c: int|
                            from_pre <= c < glimit && cr_g === Err(
                                Error::ItemsCompleted(#[trigger] (c as usize)),
                            ) implies c == completed as int by {
                            assert((c as usize) as int == c);
                        }
                    }
                    if next_index >= count {
                        proof {
                            assert(spec_sequence_run(
                                arr_pre,
                                self.amp_funct_array@,
                                s_pre,
                                s1,
                                jpre,
                                jpre,
                                from_pre,
                                glimit,
                                timer_result,
                                old(self).timer.timing,
                                amp_pre,
                                amp_pre,
                                Err(Error::ItemInvalid),
                            ));
                        }
                        return Err(Error::ItemInvalid);
                    }
                    self.array_index = next_index;
                    self.amplitude = clamp_amplitude(self.amp_funct_array[idx].get_amplitude());
                    let amp_now = self.amplitude;
                    proof {
                        assert(amp_now == spec_clamp_amplitude(e1.spec_amplitude()));
                    }
                    match self.amp_funct_array[next_index].set_amplitude_start(amp_now) {
                        Ok(()) => {},
                        Err(e) => {
                            return Err(e);
                        },
                    }
                    proof {
                        assert forall|i: int| 0 <= i < count implies (
                        #[trigger] self.amp_funct_array@[i]).wf() by {}
                    }
                    let ghost e2 = self.amp_funct_array@[next_index as int];
                    let timing_now = self.timer.get_timing();
                    let parent_result = self.amp_funct_array[next_index].apply_parent_timing(
                        timing_now,
                    );
                    let ghost e3 = self.amp_funct_array@[next_index as int];
                    proof {
                        assert forall|i: int| 0 <= i < count implies (
                        #[trigger] self.amp_funct_array@[i]).wf() by {}
                        assert(AmplitudeJoinable::spec_seed_rel(arr_pre[jpre + 1], e2, amp_now));
                        assert(AmplitudeJoinable::spec_parent_rel(
                            e2,
                            e3,
                            old(self).timer.timing,
                            parent_result,
                        ));
                        assert(self.amp_funct_array@ =~= arr_pre.update(jpre, e1).update(
                            jpre + 1,
                            e3,
                        ));
                    }
                    match parent_result {
                        Ok(()) => {},
                        Err(e) => {
                            proof {
                                assert(spec_sequence_run(
                                    arr_pre,
                                    self.amp_funct_array@,
                                    s_pre,
                                    s1,
                                    jpre,
                                    jpre + 1,
                                    from_pre,
                                    glimit,
                                    timer_result,
                                    old(self).timer.timing,
                                    amp_pre,
                                    self.amplitude,
                                    Err(e),
                                ));
                            }
                            return Err(e);
                        },
                    }
                    proof {
                        assert forall|arr_out: Seq<AmplitudeJoinable>, s_out: Seq<SampleCalc>,
                        j_out: int, amp_out: SampleCalc, rr: SoundResult<()>|
                            spec_sequence_run(
                                self.amp_funct_array@,
                                arr_out,
                                samples@,
                                s_out,
                                self.array_index as int,
                                j_out,
                                index_from as int,
                                glimit,
                                timer_result,
                                old(self).timer.timing,
                                self.amplitude,
                                amp_out,
                                rr,
                            ) implies spec_sequence_run(
                            old(self).amp_funct_array@,
                            arr_out,
                            old(samples)@,
                            s_out,
                            j0,
                            j_out,
                            0,
                            glimit,
                            timer_result,
                            old(self).timer.timing,
                            old(self).amplitude,
                            amp_out,
                            rr,
                        ) by {
                            assert(spec_sequence_run(
                                arr_pre,
                                arr_out,
                                s_pre,
                                s_out,
                                jpre,
                                j_out,
                                from_pre,
                                glimit,
                                timer_result,
                                old(self).timer.timing,
                                amp_pre,
                                amp_out,
                                rr,
                            ));
                        }
                    }
                },
                Err(e) => {
                    proof {
                        assert(cr_g === Err(Error::TimingInvalid) || cr_g === Err(
                            Error::ProgressInvalid,
                        ));
                        assert(spec_sequence_run(
                            arr_pre,
                            self.amp_funct_array@,
                            s_pre,
                            s1,
                            jpre,
                            jpre,
                            from_pre,
                            glimit,
                            timer_result,
                            old(self).timer.timing,
                            amp_pre,
                            amp_pre,
                            cr_g,
                        ));
                    }
                    return Err(e);
                },
            }
        }
    }

    /// Applies the sequence over already existing samples, with the
    /// elements' timing measured in beats of the given tempo. The
    /// sequence's own duration stays time based, as in the timed variant.
    /// A rhythmic splice can only hand over to the next element at the very
    /// first sample: a later hand-over would misalign the successor's
    /// window with the tempo buffer, which the length check refuses with
    /// `Error::BufferSize`. The whole splice chain is the run relation of
    /// the last clause.
    pub fn apply_rhythmic(&mut self, tempo: &Vec<SampleCalc>, samples: &mut Vec<SampleCalc>) -> (r:
        SoundResult<()>)
        requires
            old(self).wf(),
            forall|i: int| 0 <= i < tempo@.len() ==> 0 <= #[trigger] tempo@[i] <= TEMPO_LIMIT,
            forall|i: int|
                0 <= i < old(samples)@.len() ==> -FIXED_LIMIT <= #[trigger] old(samples)@[i]
                    <= FIXED_LIMIT,
        ensures
            final(samples)@.len() == old(samples)@.len(),
            tempo@.len() != old(samples)@.len() ==> (r === Err(Error::BufferSize) && *final(self)
                == *old(self) && final(samples)@ == old(samples)@),
            tempo@.len() == old(samples)@.len() ==> (old(self).amp_funct_array@.len() == 0 <==> r
                === Err(Error::SequenceEmpty)),
            r === Err(Error::SequenceEmpty) ==> (*final(self) == *old(self) && final(samples)@
                == old(samples)@),
            final(self).wf(),
            final(self).amp_funct_array@.len() == old(self).amp_funct_array@.len(),
            final(self).array_index >= old(self).array_index,
            tempo@.len() == old(samples)@.len() && old(self).amp_funct_array@.len() > 0 && old(self).timer.timing.is_tempo_kind() ==> (r === Err(Error::TimingInvalid) && *final(self)
                == *old(self) && final(samples)@ == old(samples)@),
            tempo@.len() == old(samples)@.len() && old(self).amp_funct_array@.len() > 0 && !old(self).timer.timing.is_tempo_kind() ==> ({
                let n = old(samples)@.len() as int;
                let count = old(self).amp_funct_array@.len() as int;
                let j0 = old(self).array_index as int;
                let limit = spec_time_budget(old(self).timer, n);
                let arr0 = old(self).amp_funct_array@;
                let arr1 = final(self).amp_funct_array@;
                &&& spec_jump_time_post(
                    old(self).timer,
                    final(self).timer,
                    n,
                    if limit == n {
                        Ok(())
                    } else {
                        Err(Error::ItemsCompleted(limit as usize))
                    },
                )
                &&& (forall|j: int|
                    limit <= j < n ==> #[trigger] final(samples)@[j] == old(samples)@[j])
                &&& (j0 >= count ==> (r === Err(Error::ItemInvalid) && arr1 == arr0 && final(samples)@ == old(samples)@ && final(self).array_index == j0 && final(self).amplitude == old(self).amplitude))
                &&& (j0 < count && limit < n ==> (r === Err(Error::BufferSize) && arr1 == arr0
                    && final(samples)@ == old(samples)@ && final(self).array_index == j0 && final(self).amplitude == old(self).amplitude))
                &&& (j0 < count && limit == n && !arr0[j0].spec_rhythmic_window_ok(n) && final(self).array_index == j0 ==> (r === Err(Error::Overflow) && arr1 == arr0 && final(samples)@ == old(samples)@ && final(self).amplitude == old(self).amplitude))
                &&& (r === Ok(()) ==> (final(self).array_index < count && final(self).amplitude
                    == spec_clamp_amplitude(
                    arr1[final(self).array_index as int].spec_amplitude(),
                )))
                &&& (j0 < count && final(self).array_index == j0 ==> {
                    let e0 = arr0[j0];
                    let e1 = arr1[j0];
                    &&& (forall|i: int| 0 <= i < count && i != j0 ==> #[trigger] arr1[i] == arr0[i])
                    &&& (r === Ok(()) ==> AmplitudeJoinable::spec_rhythmic_rel(
                        e0,
                        e1,
                        tempo@,
                        old(samples)@,
                        final(samples)@,
                        Ok(()),
                    ))
                    &&& (r === Err(Error::ItemInvalid) && limit == n ==> (j0 + 1 >= count && final(self).amplitude == old(self).amplitude && exists|c: int|
                        0 <= c < n && AmplitudeJoinable::spec_rhythmic_rel(
                            e0,
                            e1,
                            tempo@,
                            old(samples)@,
                            final(samples)@,
                            Err(Error::ItemsCompleted(#[trigger] (c as usize))),
                        )))
                    &&& ((r === Err(Error::TimingInvalid) || r === Err(Error::ProgressInvalid))
                        && limit == n ==> (final(self).amplitude == old(self).amplitude
                        && AmplitudeJoinable::spec_rhythmic_rel(
                        e0,
                        e1,
                        tempo@,
                        old(samples)@,
                        final(samples)@,
                        r,
                    )))
                })
                &&& (final(self).array_index > j0 ==> (forall|i: int|
                    final(self).array_index < i < count ==> #[trigger] arr1[i] == arr0[i]))
                &&& (r === Err(Error::BufferSize) ==> (limit < n || final(self).array_index > j0))
                &&& (limit == n ==> spec_sequence_rhythmic_run(
                    arr0,
                    arr1,
                    tempo@,
                    old(samples)@,
                    final(samples)@,
                    j0,
                    final(self).array_index as int,
                    0,
                    old(self).timer.timing,
                    old(self).amplitude,
                    final(self).amplitude,
                    r,
                ))
            }),
    {
        if tempo.len() != samples.len() {
            return Err(Error::BufferSize);
        }
        if self.amp_funct_array.len() == 0 {
            return Err(Error::SequenceEmpty);
        }
        let n = samples.len();
        let timer_result = self.timer.jump_by_time(n);
        let limit: usize = match timer_result {
            Ok(()) => n,
            Err(Error::ItemsCompleted(completed)) => {
                proof {
                    let rem = old(self).timer.remaining as int;
                    let st = old(self).timer.sample_time as int;
                    vstd::arithmetic::div_mod::lemma_div_pos_is_pos(rem, st);
                    assert(st * (n as int) == (n as int) * st) by (nonlinear_arith);
                    vstd::arithmetic::div_mod::lemma_multiply_divide_lt(rem, st, n as int);
                }
                completed
            },
            Err(e) => {
                return Err(e);
            },
        };
        let mut index_from: usize = 0;
        let count = self.amp_funct_array.len();
        let ghost j0 = old(self).array_index as int;
        let ghost glimit = spec_time_budget(old(self).timer, n as int);
        loop
            invariant
                0 <= index_from <= limit <= n,
                n == samples@.len(),
                n == old(samples)@.len(),
                n == tempo@.len(),
                count == self.amp_funct_array@.len(),
                count == old(self).amp_funct_array@.len(),
                count > 0,
                j0 == old(self).array_index as int,
                glimit == spec_time_budget(old(self).timer, n as int),
                limit as int == glimit,
                !old(self).timer.timing.is_tempo_kind(),
                spec_jump_time_post(old(self).timer, self.timer, n as int, timer_result),
                timer_result == (if glimit == n as int {
                    Ok::<(), Error>(())
                } else {
                    Err::<(), Error>(Error::ItemsCompleted(limit))
                }),
                self.array_index >= old(self).array_index,
                self.array_index == j0 ==> (self.amp_funct_array@ == old(self).amp_funct_array@
                    && index_from == 0 && samples@ == old(samples)@ && self.amplitude == old(self).amplitude),
                self.array_index > j0 ==> limit == n,
                forall|i: int|
                    self.array_index < i < count ==> #[trigger] self.amp_funct_array@[i] == old(self).amp_funct_array@[i],
                self.timer.wf(),
                self.array_index <= count,
                0 <= self.amplitude <= FIXED_ONE,
                forall|i: int|
                    0 <= i < self.amp_funct_array@.len() ==> (
                    #[trigger] self.amp_funct_array@[i]).wf(),
                forall|j: int| 0 <= j < tempo@.len() ==> 0 <= #[trigger] tempo@[j] <= TEMPO_LIMIT,
                forall|j: int|
                    index_from <= j < n ==> #[trigger] samples@[j] == old(samples)@[j],
                forall|j: int|
                    0 <= j < n ==> -FIXED_LIMIT <= #[trigger] old(samples)@[j] <= FIXED_LIMIT,
                !(timer_result === Err(Error::SequenceEmpty)),
                timer_result === Ok(()) || timer_result matches Err(Error::ItemsCompleted(_))
                    || timer_result === Err(Error::TimingInvalid),
                forall|arr_out: Seq<AmplitudeJoinable>, s_out: Seq<SampleCalc>, j_out: int,
                amp_out: SampleCalc, rr: SoundResult<()>|
                    #[trigger] spec_sequence_rhythmic_run(
                        self.amp_funct_array@,
                        arr_out,
                        tempo@,
                        samples@,
                        s_out,
                        self.array_index as int,
                        j_out,
                        index_from as int,
                        old(self).timer.timing,
                        self.amplitude,
                        amp_out,
                        rr,
                    ) ==> spec_sequence_rhythmic_run(
                        old(self).amp_funct_array@,
                        arr_out,
                        tempo@,
                        old(samples)@,
                        s_out,
                        j0,
                        j_out,
                        0,
                        old(self).timer.timing,
                        old(self).amplitude,
                        amp_out,
                        rr,
                    ),
            decreases count - self.array_index,
        {
            let ghost arr_pre = self.amp_funct_array@;
            let ghost s_pre = samples@;
            let ghost jpre = self.array_index as int;
            let ghost amp_pre = self.amplitude;
            let ghost from_pre = index_from as int;
            if self.array_index >= count {
                proof {
                    assert(spec_sequence_rhythmic_run(
                        arr_pre,
                        arr_pre,
                        tempo@,
                        s_pre,
                        s_pre,
                        jpre,
                        jpre,
                        from_pre,
                        old(self).timer.timing,
                        amp_pre,
                        amp_pre,
                        Err(Error::ItemInvalid),
                    ));
                }
                return Err(Error::ItemInvalid);
            }
            if index_from != 0 || limit != n {
                proof {
                    if index_from != 0 {
                        assert(spec_sequence_rhythmic_run(
                            arr_pre,
                            arr_pre,
                            tempo@,
                            s_pre,
                            s_pre,
                            jpre,
                            jpre,
                            from_pre,
                            old(self).timer.timing,
                            amp_pre,
                            amp_pre,
                            Err(Error::BufferSize),
                        ));
                    }
                }
                return Err(Error::BufferSize);
            }
            let idx = self.array_index;
            if !rhythmic_window_within_range(&self.amp_funct_array[idx], n) {
                proof {
                    assert(!arr_pre[jpre].spec_rhythmic_window_ok(n as int));
                    assert(spec_sequence_rhythmic_run(
                        arr_pre,
                        arr_pre,
                        tempo@,
                        s_pre,
                        s_pre,
                        jpre,
                        jpre,
                        from_pre,
                        old(self).timer.timing,
                        amp_pre,
                        amp_pre,
                        Err(Error::Overflow),
                    ));
                }
                return Err(Error::Overflow);
            }
            let child_result = self.amp_funct_array[idx].apply_rhythmic(tempo, samples);
            let ghost cr_g = child_result;
            let ghost e1 = self.amp_funct_array@[jpre];
            let ghost s1 = samples@;
            proof {
                assert forall|i: int| 0 <= i < count implies (
                #[trigger] self.amp_funct_array@[i]).wf() by {}
                assert(self.amp_funct_array@ =~= arr_pre.update(jpre, e1));
                assert(AmplitudeJoinable::spec_rhythmic_rel(
                    arr_pre[jpre],
                    e1,
                    tempo@,
                    s_pre,
                    s1,
                    cr_g,
                ));
            }
            match child_result {
                Ok(()) => {
                    self.amplitude = clamp_amplitude(self.amp_funct_array[idx].get_amplitude());
                    proof {
                        assert(spec_sequence_rhythmic_run(
                            arr_pre,
                            self.amp_funct_array@,
                            tempo@,
                            s_pre,
                            s1,
                            jpre,
                            jpre,
                            from_pre,
                            old(self).timer.timing,
                            amp_pre,
                            self.amplitude,
                            Ok(()),
                        ));
                    }
                    match timer_result {
                        Ok(()) => {
                            return Ok(());
                        },
                        Err(Error::ItemsCompleted(completed)) => {
                            return Err(Error::ItemsCompleted(completed));
                        },
                        Err(e) => {
                            return Err(e);
                        },
                    }
                },
                Err(Error::ItemsCompleted(completed)) => {
                    index_from = completed;
                    let next_index = self.array_index + 1;
                    proof {
                        assert(((completed as int) as usize) == completed);
                        assert(0 <= completed < n) by {
                            let cw = choose|c: int|
                                0 <= c < n as int && cr_g === Err(
                                    Error::ItemsCompleted(#[trigger] (c as usize)),
                                );
                            assert((cw as usize) as int == cw);
                        };
                        assert forall|c: int|
                            0 <= c < n as int && cr_g === Err(
                                Error::ItemsCompleted(#[trigger] (c as usize)),
                            ) implies c == completed as int by {
                            assert((c as usize) as int == c);
                        }
                    }
                    if next_index >= count {
                        proof {
                            assert(spec_sequence_rhythmic_run(
                                arr_pre,
                                self.amp_funct_array@,
                                tempo@,
                                s_pre,
                                s1,
                                jpre,
                                jpre,
                                from_pre,
                                old(self).timer.timing,
                                amp_pre,
                                amp_pre,
                                Err(Error::ItemInvalid),
                            ));
                        }
                        return Err(Error::ItemInvalid);
                    }
                    self.array_index = next_index;
                    self.amplitude = clamp_amplitude(self.amp_funct_array[idx].get_amplitude());
                    let amp_now = self.amplitude;
                    proof {
                        assert(amp_now == spec_clamp_amplitude(e1.spec_amplitude()));
                    }
                    match self.amp_funct_array[next_index].set_amplitude_start(amp_now) {
                        Ok(()) => {},
                        Err(e) => {
                            return Err(e);
                        },
                    }
                    proof {
                        assert forall|i: int| 0 <= i < count implies (
                        #[trigger] self.amp_funct_array@[i]).wf() by {}
                    }
                    let ghost e2 = self.amp_funct_array@[next_index as int];
                    let timing_now = self.timer.get_timing();
                    let parent_result = self.amp_funct_array[next_index].apply_parent_timing(
                        timing_now,
                    );
                    let ghost e3 = self.amp_funct_array@[next_index as int];
                    proof {
                        assert forall|i: int| 0 <= i < count implies (
                        #[trigger] self.amp_funct_array@[i]).wf() by {}
                        assert(AmplitudeJoinable::spec_seed_rel(arr_pre[jpre + 1], e2, amp_now));
                        assert(AmplitudeJoinable::spec_parent_rel(
                            e2,
                            e3,
                            old(self).timer.timing,
                            parent_result,
                        ));
                        assert(self.amp_funct_array@ =~= arr_pre.update(jpre, e1).update(
                            jpre + 1,
                            e3,
                        ));
                    }
                    match parent_result {
                        Ok(()) => {},
                        Err(e) => {
                            proof {
                                assert(spec_sequence_rhythmic_run(
                                    arr_pre,
                                    self.amp_funct_array@,
                                    tempo@,
                                    s_pre,
                                    s1,
                                    jpre,
                                    jpre + 1,
                                    from_pre,
                                    old(self).timer.timing,
                                    amp_pre,
                                    self.amplitude,
                                    Err(e),
                                ));
                            }
                            return Err(e);
                        },
                    }
                    proof {
                        assert forall|arr_out: Seq<AmplitudeJoinable>, s_out: Seq<SampleCalc>,
                        j_out: int, amp_out: SampleCalc, rr: SoundResult<()>|
                            spec_sequence_rhythmic_run(
                                self.amp_funct_array@,
                                arr_out,
                                tempo@,
                                samples@,
                                s_out,
                                self.array_index as int,
                                j_out,
                                index_from as int,
                                old(self).timer.timing,
                                self.amplitude,
                                amp_out,
                                rr,
                            ) implies spec_sequence_rhythmic_run(
                            old(self).amp_funct_array@,
                            arr_out,
                            tempo@,
                            old(samples)@,
                            s_out,
                            j0,
                            j_out,
                            0,
                            old(self).timer.timing,
                            old(self).amplitude,
                            amp_out,
                            rr,
                        ) by {
                            assert(spec_sequence_rhythmic_run(
                                arr_pre,
                                arr_out,
                                tempo@,
                                s_pre,
                                s_out,
                                jpre,
                                j_out,
                                from_pre,
                                old(self).timer.timing,
                                amp_pre,
                                amp_out,
                                rr,
                            ));
                        }
                    }
                },
                Err(e) => {
                    proof {
                        assert(cr_g === Err(Error::TimingInvalid) || cr_g === Err(
                            Error::ProgressInvalid,
                        ) || cr_g === Err(Error::BufferSize));
                        assert(spec_sequence_rhythmic_run(
                            arr_pre,
                            self.amp_funct_array@,
                            tempo@,
                            s_pre,
                            s1,
                            jpre,
                            jpre,
                            from_pre,
                            old(self).timer.timing,
                            amp_pre,
                            amp_pre,
                            cr_g,
                        ));
                    }
                    return Err(e);
                },
            }
        }
    }

    /// Sets the initial amplitude, and resets time: the sequence's own
    /// timer is refilled, while the elements and the active index stay as
    /// they are.
    pub fn set_amplitude_start(&mut self, amplitude: SampleCalc) -> (r: SoundResult<()>)
        requires
            old(self).wf(),
        ensures
            !(0 <= amplitude <= FIXED_ONE) ==> (r === Err(Error::AmplitudeInvalid) && *final(self)
                == *old(self)),
            (0 <= amplitude <= FIXED_ONE) ==> (r === Ok(()) && final(self).wf() && final(self).amplitude == amplitude && spec_restart_post(old(self).timer, final(self).timer)
                && final(self).amp_funct_array@ == old(self).amp_funct_array@ && final(self).array_index == old(self).array_index),
    {
        match is_valid_amplitude(amplitude) {
            Ok(()) => {},
            Err(e) => {
                return Err(e);
            },
        }
        self.amplitude = amplitude;
        self.timer.restart();
        Ok(())
    }

    /// Provides the actual amplitude value.
    pub fn get_amplitude(&self) -> (r: SampleCalc)
        ensures
            r == self.amplitude,
    {
        self.amplitude
    }

    /// Provides the maximal possible future amplitude over the elements
    /// (for normalization): the largest element maximum, and zero for an
    /// empty sequence.
    pub fn get_max(&self) -> (r: SampleCalc)
        requires
            self.wf(),
        ensures
            0 <= r <= FIXED_ONE,
            forall|i: int|
                0 <= i < self.amp_funct_array@.len() ==> #[trigger] self.amp_funct_array@[i].spec_max() <= r,
            r == 0 || exists|i: int|
                0 <= i < self.amp_funct_array@.len() && r == #[trigger] self.amp_funct_array@[i].spec_max(),
    {
        let mut amplitude_max: SampleCalc = 0;
        let mut i: usize = 0;
        let count = self.amp_funct_array.len();
        while i < count
            invariant
                0 <= i <= count,
                count == self.amp_funct_array@.len(),
                self.wf(),
                0 <= amplitude_max <= FIXED_ONE,
                forall|k: int|
                    0 <= k < i ==> #[trigger] self.amp_funct_array@[k].spec_max()
                        <= amplitude_max,
                amplitude_max == 0 || exists|k: int|
                    0 <= k < i && amplitude_max == #[trigger] self.amp_funct_array@[k].spec_max(),
            decreases count - i,
        {
            proof {
                assert(self.amp_funct_array@[i as int].wf());
            }
            let m = self.amp_funct_array[i].get_max();
            if m > amplitude_max {
                amplitude_max = m;
            }
            i = i + 1;
        }
        amplitude_max
    }

    /// Sets the timing (duration), and restarts the sequence.
    pub fn set_timing(&mut self, timing: TimingOption) -> (r: SoundResult<()>)
        requires
            old(self).wf(),
            match timing {
                TimingOption::Unlimited => true,
                TimingOption::TimeConst(d) => d <= FIXED_LIMIT,
                TimingOption::TimeRatio { ratio, duration } => duration <= FIXED_LIMIT && 0
                    <= ratio <= FIXED_LIMIT,
                TimingOption::TempoConst(nv) => nv.wf(),
                TimingOption::TempoRatio { ratio, duration } => ratio.wf() && duration.wf(),
            },
        ensures
            (match timing {
                TimingOption::TimeConst(d) => d > 0,
                TimingOption::TimeRatio { duration, .. } => duration > 0,
                _ => true,
            }) ==> (r === Ok(()) && final(self).wf() && final(self).timer.timing == timing
                && final(self).array_index == 0),
            (match timing {
                TimingOption::TimeConst(d) => d <= 0,
                TimingOption::TimeRatio { duration, .. } => duration <= 0,
                _ => false,
            }) ==> (r === Err(Error::DurationInvalid) && *final(self) == *old(self)),
    {
        match self.timer.set_timing(timing) {
            Ok(()) => {},
            Err(e) => {
                return Err(e);
            },
        }
        self.restart();
        Ok(())
    }

    /// Provides the timing.
    pub fn get_timing(&self) -> (r: TimingOption)
        ensures
            r == self.timer.timing,
    {
        self.timer.get_timing()
    }

    /// Restarts the sequence: the own timer is refilled, the first element
    /// becomes active again and is itself restarted; the other elements
    /// and the last amplitude stay as they are.
    pub fn restart(&mut self)
        requires
            old(self).wf(),
        ensures
            final(self).wf(),
            final(self).array_index == 0,
            final(self).amplitude == old(self).amplitude,
            spec_restart_post(old(self).timer, final(self).timer),
            final(self).timer.timing == old(self).timer.timing,
            final(self).amp_funct_array@.len() == old(self).amp_funct_array@.len(),
            forall|i: int|
                1 <= i < old(self).amp_funct_array@.len() ==> #[trigger] final(self).amp_funct_array@[i] == old(self).amp_funct_array@[i],
            old(self).amp_funct_array@.len() > 0 ==> AmplitudeJoinable::spec_restart_rel(
                old(self).amp_funct_array@[0],
                final(self).amp_funct_array@[0],
            ),
    {
        self.timer.restart();
        self.array_index = 0;
        if self.amp_funct_array.len() > 0 {
            self.amp_funct_array[0].restart();
        }
    }

    /// Applies the parent's timing to calculate its own relative timing,
    /// and restarts the sequence: the rescaled timer is refilled and the
    /// first element becomes active again.
    pub fn apply_parent_timing(&mut self, parent_timing: TimingOption) -> (r: SoundResult<()>)
        requires
            old(self).wf(),
            parent_timing.wf(),
        ensures
            !(r === Ok(())) ==> (*final(self) == *old(self) && spec_parent_timing_post(
                old(self).timer,
                final(self).timer,
                parent_timing,
                r,
            )),
            r === Ok(()) ==> (final(self).wf() && final(self).array_index == 0 && final(self).amplitude == old(self).amplitude && final(self).amp_funct_array@.len() == old(self).amp_funct_array@.len() && (forall|i: int|
                1 <= i < old(self).amp_funct_array@.len() ==> #[trigger] final(self).amp_funct_array@[i] == old(self).amp_funct_array@[i]) && (old(self).amp_funct_array@.len() > 0
                ==> AmplitudeJoinable::spec_restart_rel(
                old(self).amp_funct_array@[0],
                final(self).amp_funct_array@[0],
            )) && (exists|mid: Timer|
                #![trigger spec_restart_post(mid, final(self).timer)]
                spec_parent_timing_post(old(self).timer, mid, parent_timing, Ok(()))
                    && spec_restart_post(mid, final(self).timer))),
    {
        match self.timer.apply_parent_timing(parent_timing) {
            Ok(()) => {},
            Err(e) => {
                return Err(e);
            },
        }
        let ghost mid = self.timer;
        self.restart();
        proof {
            assert(spec_parent_timing_post(old(self).timer, mid, parent_timing, Ok(()))
                && spec_restart_post(mid, final(self).timer));
        }
        Ok(())
    }
}

/// An amplitude clamped into the valid range `[0, 1]`.
pub open spec fn spec_clamp_amplitude(amplitude: SampleCalc) -> SampleCalc {
    if amplitude < 0 {
        0
    } else if amplitude > FIXED_ONE {
        FIXED_ONE
    } else {
        amplitude
    }
}

/// Clamps an amplitude into the valid range `[0, 1]`; the stored last
/// amplitude of a sequence is always a weight.
fn clamp_amplitude(amplitude: SampleCalc) -> (r: SampleCalc)
    ensures
        0 <= r <= FIXED_ONE,
        r == spec_clamp_amplitude(amplitude),
        (0 <= amplitude <= FIXED_ONE) ==> r == amplitude,
{
    if amplitude < 0 {
        0
    } else if amplitude > FIXED_ONE {
        FIXED_ONE
    } else {
        amplitude
    }
}

/// Whether a fade element's phase track stays within the fixed-point
/// working range over a window of the given length; other elements have no
/// such constraint.
fn window_within_range(element: &AmplitudeJoinable, n: usize) -> (b: bool)
    requires
        element.wf(),
    ensures
        b == element.spec_window_ok(n as int),
{
    match element {
        AmplitudeJoinable::Fade(f) => match f.progress {
            ProgressOption::Time(p) => {
                proof {
                    assert(f.wf());
                    assert(p.wf());
                    assert(-0x10_0000_0000_0000 <= p.phase_change <= 0x10_0000_0000_0000);
                    assert(-0x100_0000_0000_0000_0000_0000_0000_0000 < (n as int) * (
                    p.phase_change as int) < 0x100_0000_0000_0000_0000_0000_0000_0000)
                        by (nonlinear_arith)
                        requires
                            0 <= n <= 0xffff_ffff_ffff_ffff,
                            -0x10_0000_0000_0000 <= p.phase_change <= 0x10_0000_0000_0000,
                    ;
                }
                proof {
                    assert((n as i128) as int == n as int);
                    assert((p.phase_change as i128) as int == p.phase_change as int);
                }
                let endpoint: i128 = (p.phase as i128) + (n as i128) * (p.phase_change as i128);
                let lo: i128 = -0x2_0000_0000i128;
                let hi: i128 = 0x2_0000_0000i128;
                lo <= (p.phase as i128) && (p.phase as i128) <= hi && lo <= endpoint && endpoint
                    <= hi
            },
            ProgressOption::Tempo(_) => true,
        },
        _ => true,
    }
}

/// Combination of several amplitude functions.
#[derive(Debug, Copy, Clone, PartialEq, Eq, Structural)]
pub struct AmplitudeCombination;

/// Equal-loudness contour data, as the human ear perceives loudness
/// differently over the spectrum.
#[derive(Debug, Copy, Clone, PartialEq, Eq, Structural)]
pub struct AmplitudeEqualLoudness;

} // verus!
