//! Time and tempo based progress measurement: phase accumulators for
//! periodic and fading functions.

use vstd::prelude::*;

use crate::errors::{Error, SoundResult};
use crate::math::{div_fix, mul_fix, spec_div_fix, spec_mul_fix};
use crate::rhythm::NoteValue;
use crate::timing::{Timer, TimingOption};
use crate::{FIXED_LIMIT, FIXED_ONE, PI2, SampleCalc};

verus! {

/// The largest period-unit magnitude: about sixteen full turns.
pub const PERIOD_UNIT_LIMIT: i64 = 0x10_0000_0000;

/// The largest phase magnitude a progress object accumulates before it
/// reports an overflow.
pub const PHASE_LIMIT: i64 = 0x80_0000_0000_0000;

/// The largest per-step phase change magnitude.
pub const PHASE_CHANGE_LIMIT: i64 = 0x10_0000_0000_0000;

/// The smallest accepted positive period: about fifteen microseconds.
pub const PERIOD_MIN: i64 = 0x1_0000;

/// The largest accepted tempo for phase stepping, in beats per second.
pub const TEMPO_LIMIT: i64 = 0x400_0000_0000;

/// The accumulated phase steps of a tempo driven progress: each sample
/// adds the per-sample phase change scaled by the momentary tempo.
pub open spec fn spec_phase_steps(
    phase_change: int,
    tempo: Seq<SampleCalc>,
    i: int,
) -> int
    decreases i,
{
    if i <= 0 {
        0
    } else {
        spec_phase_steps(phase_change, tempo, i - 1) + spec_mul_fix(
            phase_change,
            tempo[i - 1] as int,
        )
    }
}

/// The accumulated phase steps stay between zero and the count times the
/// largest single step, on either side of zero.
pub proof fn lemma_phase_steps_between(
    phase_change: int,
    tempo: Seq<SampleCalc>,
    tempo_max: int,
    i: int,
)
    requires
        0 <= i <= tempo.len(),
        forall|j: int| 0 <= j < tempo.len() ==> 0 <= #[trigger] tempo[j] <= tempo_max,
        -PHASE_CHANGE_LIMIT <= phase_change <= PHASE_CHANGE_LIMIT,
        0 <= tempo_max,
    ensures
        phase_change >= 0 ==> 0 <= spec_phase_steps(phase_change, tempo, i) <= i * spec_mul_fix(
            phase_change,
            tempo_max,
        ),
        phase_change < 0 ==> i * spec_mul_fix(phase_change, tempo_max) <= spec_phase_steps(
            phase_change,
            tempo,
            i,
        ) <= 0,
    decreases i,
{
    let m = spec_mul_fix(phase_change, tempo_max);
    if i <= 0 {
        assert(0 * m == 0) by (nonlinear_arith);
    } else {
        lemma_phase_steps_between(phase_change, tempo, tempo_max, i - 1);
        crate::math::lemma_mul_fix_signed_between(phase_change, tempo[i - 1] as int, tempo_max);
        assert((i - 1) * m + m == i * m) by (nonlinear_arith);
    }
}

/// The truncated remainder (the sign of the dividend is kept, as the
/// hardware remainder keeps it), taken against the magnitude of the unit.
pub open spec fn spec_phase_rem(phase: int, unit: int) -> int {
    let m = if unit >= 0 {
        unit
    } else {
        -unit
    };
    if m == 0 {
        phase
    } else if phase >= 0 {
        phase % m
    } else {
        -((-phase) % m)
    }
}

/// What one timed step does to a time based progress: the phase advances
/// by the per-sample phase change while the timer's budget lasts; a phase
/// beyond the working range is refused untouched.
pub open spec fn spec_next_time_post(
    p0: ProgressTime,
    p1: ProgressTime,
    r: SoundResult<SampleCalc>,
) -> bool {
    &&& p1.period == p0.period
    &&& p1.period_unit == p0.period_unit
    &&& p1.phase_init == p0.phase_init
    &&& p1.phase_change == p0.phase_change
    &&& p1.timer.timing == p0.timer.timing
    &&& p1.timer.sample_time == p0.timer.sample_time
    &&& (!(-PHASE_LIMIT <= p0.phase + p0.phase_change <= PHASE_LIMIT) ==> (r === Err(
        Error::Overflow,
    ) && p1 == p0))
    &&& ((-PHASE_LIMIT <= p0.phase + p0.phase_change <= PHASE_LIMIT) ==> {
        &&& (p0.timer.timing matches TimingOption::Unlimited ==> (r matches Ok(p) && p
            == p0.phase + p0.phase_change && p1 == (ProgressTime { phase: p, ..p0 })))
        &&& (p0.timer.timing.is_tempo_kind() ==> (r === Err(Error::TimingInvalid) && p1 == p0))
        &&& (p0.timer.timing.is_time_kind() ==> {
            if p0.timer.remaining >= p0.timer.sample_time {
                r matches Ok(p) && p == p0.phase + p0.phase_change && p1.phase == p
                    && p1.timer.remaining == p0.timer.remaining - p0.timer.sample_time
            } else {
                r === Err(Error::ProgressCompleted) && p1.phase == p0.phase
                    && p1.timer.remaining == 0
            }
        })
    })
}

/// What one tempo step does to a tempo based progress: the phase advances
/// by the phase change scaled by the momentary tempo while the beat budget
/// lasts.
pub open spec fn spec_next_tempo_post(
    p0: ProgressTempo,
    p1: ProgressTempo,
    tempo: SampleCalc,
    r: SoundResult<SampleCalc>,
) -> bool {
    &&& p1.period == p0.period
    &&& p1.period_unit == p0.period_unit
    &&& p1.phase_init == p0.phase_init
    &&& p1.phase_change == p0.phase_change
    &&& p1.timer.timing == p0.timer.timing
    &&& p1.timer.sample_time == p0.timer.sample_time
    &&& ({
        let step = spec_mul_fix(p0.phase_change as int, tempo as int);
        &&& (!(-PHASE_LIMIT <= p0.phase + step <= PHASE_LIMIT) ==> (r === Err(Error::Overflow)
            && p1 == p0))
        &&& ((-PHASE_LIMIT <= p0.phase + step <= PHASE_LIMIT) ==> {
            &&& (p0.timer.timing matches TimingOption::Unlimited ==> (r matches Ok(p) && p
                == p0.phase + step && p1.phase == p && p1.timer.remaining == p0.timer.remaining))
            &&& (p0.timer.timing.is_time_kind() ==> (r === Err(Error::TimingInvalid) && p1 == p0))
            &&& (p0.timer.timing.is_tempo_kind() ==> {
                let drain = spec_mul_fix(tempo as int, p0.timer.sample_time as int);
                if p0.timer.remaining - drain <= 0 {
                    r === Err(Error::ProgressCompleted) && p1.phase == p0.phase
                        && p1.timer.remaining == 0
                } else {
                    r matches Ok(p) && p == p0.phase + step && p1.phase == p
                        && p1.timer.remaining == p0.timer.remaining - drain
                }
            })
        })
    })
}

/// Time based progress measurement. It provides the sequence of phases (for
/// sound functions) by calling `next_by_time`. The whole duration can be
/// divided to periods, for periodic functions.
#[derive(Debug, Copy, Clone, PartialEq, Eq, Structural)]
pub struct ProgressTime {
    /// The internal timer: duration handling.
    pub timer: Timer,
    /// For periodic functions: the duration of one period.
    pub period: SampleCalc,
    /// The amount of phase change during one period.
    pub period_unit: SampleCalc,
    /// Initial value of `phase`.
    pub phase_init: SampleCalc,
    /// The amount of phase change during one sample.
    pub phase_change: SampleCalc,
    /// The phase of the progress.
    pub phase: SampleCalc,
}

impl ProgressTime {
    /// Validity: the timer is valid and every phase quantity is within its
    /// working range; the per-sample phase change is derived exactly from
    /// the sample time, the period and the period unit.
    pub open spec fn wf(&self) -> bool {
        &&& self.timer.wf()
        &&& PERIOD_MIN <= self.period <= FIXED_LIMIT
        &&& -PERIOD_UNIT_LIMIT <= self.period_unit <= PERIOD_UNIT_LIMIT
        &&& -PHASE_LIMIT <= self.phase_init <= PHASE_LIMIT
        &&& self.phase_change == spec_mul_fix(
            self.period_unit as int,
            spec_div_fix(self.timer.sample_time as int, self.period as int),
        )
        &&& -PHASE_CHANGE_LIMIT <= self.phase_change <= PHASE_CHANGE_LIMIT
        &&& -PHASE_LIMIT <= self.phase <= PHASE_LIMIT
    }

    /// Custom constructor with duration. The default duration is the period.
    /// The default period unit is two pi.
    pub fn new(sample_rate: SampleCalc, period: SampleCalc) -> (r: SoundResult<ProgressTime>)
        requires
            period <= FIXED_LIMIT,
            period > 0 ==> period >= PERIOD_MIN,
        ensures
            sample_rate < FIXED_ONE ==> r === Err(Error::SampleRateInvalid),
            sample_rate >= FIXED_ONE && period <= 0 ==> r === Err(Error::PeriodInvalid),
            sample_rate >= FIXED_ONE && period > 0 ==> (r matches Ok(p) && p.wf() && p.period
                == period && p.period_unit == PI2 && p.phase_init == 0 && p.phase == 0
                && p.timer.sample_time == spec_div_fix(FIXED_ONE as int, sample_rate as int)
                && p.timer.timing == TimingOption::TimeConst(period) && p.timer.remaining
                == period),
    {
        let mut timer = match Timer::new(sample_rate) {
            Ok(t) => t,
            Err(e) => {
                return Err(e);
            },
        };
        if period <= 0 {
            return Err(Error::PeriodInvalid);
        }
        match timer.set_timing(TimingOption::TimeConst(period)) {
            Ok(()) => {},
            Err(_) => {
                return Err(Error::PeriodInvalid);
            },
        }
        let phase_change = phase_change_per_sample(timer.get_sample_time(), period, PI2);
        Ok(
            ProgressTime {
                timer,
                period,
                period_unit: PI2,
                phase_init: 0,
                phase_change,
                phase: 0,
            },
        )
    }

    /// Sets a new period, and restarts the progress.
    pub fn set_period(&mut self, period: SampleCalc) -> (r: SoundResult<()>)
        requires
            old(self).wf(),
            period <= FIXED_LIMIT,
            period > 0 ==> period >= PERIOD_MIN,
        ensures
            period <= 0 ==> r === Err(Error::PeriodInvalid) && *final(self) == *old(self),
            period > 0 ==> (r === Ok(()) && final(self).wf() && final(self).period == period
                && final(self).restarted_from(*old(self))),
    {
        if period <= 0 {
            return Err(Error::PeriodInvalid);
        }
        self.period = period;
        self.restart();
        Ok(())
    }

    /// Sets a new period calculated from the given frequency, and restarts
    /// the progress.
    pub fn set_frequency(&mut self, frequency: SampleCalc) -> (r: SoundResult<()>)
        requires
            old(self).wf(),
            frequency <= FIXED_LIMIT,
            frequency > 0 ==> frequency >= PERIOD_MIN,
        ensures
            frequency <= 0 ==> r === Err(Error::FrequencyInvalid) && *final(self) == *old(self),
            frequency > 0 ==> (r === Ok(()) && final(self).wf() && final(self).period
                == spec_div_fix(FIXED_ONE as int, frequency as int) && final(self).restarted_from(
                *old(self),
            )),
    {
        if frequency <= 0 {
            return Err(Error::FrequencyInvalid);
        }
        proof {
            crate::math::lemma_div_fix_bounds(FIXED_ONE as int, frequency as int);
            vstd::arithmetic::div_mod::lemma_div_is_ordered_by_denominator(
                (FIXED_ONE as int) * (FIXED_ONE as int),
                PERIOD_MIN as int,
                frequency as int,
            );
            vstd::arithmetic::div_mod::lemma_div_non_zero(
                (FIXED_ONE as int) * (FIXED_ONE as int),
                FIXED_LIMIT as int,
            );
            vstd::arithmetic::div_mod::lemma_div_is_ordered_by_denominator(
                (FIXED_ONE as int) * (FIXED_ONE as int),
                frequency as int,
                FIXED_LIMIT as int,
            );
        }
        let period = div_fix(FIXED_ONE, frequency);
        self.period = period;
        self.restart();
        Ok(())
    }

    /// Whether this value is the restart of `prev`: same configuration, the
    /// phase back at its initial value, the timer refilled, the phase change
    /// freshly derived.
    pub open spec fn restarted_from(&self, prev: ProgressTime) -> bool {
        &&& self.timer.sample_time == prev.timer.sample_time
        &&& self.timer.timing == prev.timer.timing
        &&& self.period_unit == prev.period_unit
        &&& self.phase_init == prev.phase_init
        &&& self.phase == prev.phase_init
        &&& (prev.timer.timing matches TimingOption::Unlimited ==> self.timer.remaining
            == prev.timer.remaining)
        &&& (!(prev.timer.timing matches TimingOption::Unlimited) ==> self.timer.remaining
            == prev.timer.timing.spec_duration())
    }

    /// Restarts the progress: refills the timer, resets the phase and
    /// recomputes the per-sample phase change.
    pub fn restart(&mut self)
        requires
            old(self).timer.wf(),
            PERIOD_MIN <= old(self).period <= FIXED_LIMIT,
            -PERIOD_UNIT_LIMIT <= old(self).period_unit <= PERIOD_UNIT_LIMIT,
            -PHASE_LIMIT <= old(self).phase_init <= PHASE_LIMIT,
        ensures
            final(self).wf(),
            final(self).period == old(self).period,
            final(self).restarted_from(*old(self)),
    {
        self.timer.restart();
        self.phase = self.phase_init;
        self.phase_change = phase_change_per_sample(
            self.timer.get_sample_time(),
            self.period,
            self.period_unit,
        );
    }

    /// Sets a new period unit, and restarts the progress. Period unit is the
    /// amount of phase change during one period.
    pub fn set_period_unit(&mut self, period_unit: SampleCalc)
        requires
            old(self).wf(),
            -PERIOD_UNIT_LIMIT <= period_unit <= PERIOD_UNIT_LIMIT,
        ensures
            final(self).wf(),
            final(self).period == old(self).period,
            final(self).period_unit == period_unit,
            final(self).phase == old(self).phase_init,
            final(self).phase_init == old(self).phase_init,
    {
        self.period_unit = period_unit;
        self.restart();
    }

    /// Sets a new initial phase value, and restarts the progress.
    pub fn set_phase_init(&mut self, phase: SampleCalc)
        requires
            old(self).wf(),
            -PHASE_LIMIT <= phase <= PHASE_LIMIT,
        ensures
            final(self).wf(),
            final(self).period == old(self).period,
            final(self).phase_init == phase,
            final(self).phase == phase,
    {
        self.phase_init = phase;
        self.restart();
    }

    /// Simplifies the phase to achieve higher accuracy. It is only used for
    /// periodic functions.
    pub fn simplify(&mut self)
        requires
            old(self).wf(),
        ensures
            final(self).wf(),
            *final(self) == (ProgressTime {
                phase: spec_phase_rem(
                    old(self).phase as int,
                    old(self).period_unit as int,
                ) as i64,
                ..*old(self)
            }),
    {
        let m: i64 = if self.period_unit >= 0 {
            self.period_unit
        } else {
            -self.period_unit
        };
        if m != 0 {
            if self.phase >= 0 {
                self.phase = crate::math::mod_fix(self.phase, m);
            } else {
                self.phase = -crate::math::mod_fix(-self.phase, m);
            }
        }
    }

    /// Provides the next phase value, or `Error::ProgressCompleted` if the
    /// progress is finished. An `Error::Overflow` reports a phase beyond the
    /// working range; the state is then left unchanged.
    pub fn next_by_time(&mut self) -> (r: SoundResult<SampleCalc>)
        requires
            old(self).wf(),
        ensures
            final(self).wf(),
            spec_next_time_post(*old(self), *final(self), r),
            final(self).period == old(self).period,
            final(self).period_unit == old(self).period_unit,
            final(self).phase_init == old(self).phase_init,
            final(self).phase_change == old(self).phase_change,
            final(self).timer.timing == old(self).timer.timing,
            final(self).timer.sample_time == old(self).timer.sample_time,
            !(-PHASE_LIMIT <= old(self).phase + old(self).phase_change <= PHASE_LIMIT) ==> (r
                === Err(Error::Overflow) && *final(self) == *old(self)),
            (-PHASE_LIMIT <= old(self).phase + old(self).phase_change <= PHASE_LIMIT) ==> {
                &&& (old(self).timer.timing matches TimingOption::Unlimited ==> (r matches Ok(p)
                    && p == old(self).phase + old(self).phase_change && *final(self)
                    == (ProgressTime { phase: p, ..*old(self) })))
                &&& (old(self).timer.timing.is_tempo_kind() ==> (r === Err(Error::TimingInvalid)
                    && *final(self) == *old(self)))
                &&& (old(self).timer.timing.is_time_kind() ==> {
                    if old(self).timer.remaining >= old(self).timer.sample_time {
                        r matches Ok(p) && p == old(self).phase + old(self).phase_change && final(self).phase == p && final(self).timer.remaining == old(self).timer.remaining
                            - old(self).timer.sample_time
                    } else {
                        r === Err(Error::ProgressCompleted) && final(self).phase == old(self).phase && final(self).timer.remaining == 0
                    }
                })
            },
    {
        let next_phase: i64;
        if self.phase_change >= 0 {
            if self.phase > PHASE_LIMIT - self.phase_change {
                return Err(Error::Overflow);
            }
            next_phase = self.phase + self.phase_change;
        } else {
            if self.phase < -PHASE_LIMIT - self.phase_change {
                return Err(Error::Overflow);
            }
            next_phase = self.phase + self.phase_change;
        }
        match self.timer.next_by_time() {
            Ok(()) => {},
            Err(e) => {
                return Err(e);
            },
        }
        self.phase = next_phase;
        Ok(next_phase)
    }

    /// Provides the next phase value depending on the actual tempo, or
    /// `Error::ProgressCompleted` if progress is finished. The duration is
    /// tempo dependent, but the phase change is time dependent.
    pub fn next_by_tempo(&mut self, tempo: SampleCalc) -> (r: SoundResult<SampleCalc>)
        requires
            old(self).wf(),
            0 <= tempo <= TEMPO_LIMIT,
        ensures
            final(self).wf(),
            final(self).period == old(self).period,
            final(self).period_unit == old(self).period_unit,
            final(self).phase_init == old(self).phase_init,
            final(self).phase_change == old(self).phase_change,
            final(self).timer.timing == old(self).timer.timing,
            final(self).timer.sample_time == old(self).timer.sample_time,
            !(-PHASE_LIMIT <= old(self).phase + old(self).phase_change <= PHASE_LIMIT) ==> (r
                === Err(Error::Overflow) && *final(self) == *old(self)),
            (-PHASE_LIMIT <= old(self).phase + old(self).phase_change <= PHASE_LIMIT) ==> {
                &&& (old(self).timer.timing matches TimingOption::Unlimited ==> (r matches Ok(p)
                    && p == old(self).phase + old(self).phase_change && final(self).phase == p))
                &&& (old(self).timer.timing.is_time_kind() ==> (r === Err(Error::TimingInvalid)
                    && *final(self) == *old(self)))
                &&& (old(self).timer.timing.is_tempo_kind() ==> {
                    let step = spec_mul_fix(tempo as int, old(self).timer.sample_time as int);
                    if old(self).timer.remaining - step <= 0 {
                        r === Err(Error::ProgressCompleted) && final(self).phase == old(self).phase && final(self).timer.remaining == 0
                    } else {
                        r matches Ok(p) && p == old(self).phase + old(self).phase_change && final(self).phase == p && final(self).timer.remaining == old(self).timer.remaining
                            - step
                    }
                })
            },
    {
        let next_phase: i64;
        if self.phase_change >= 0 {
            if self.phase > PHASE_LIMIT - self.phase_change {
                return Err(Error::Overflow);
            }
            next_phase = self.phase + self.phase_change;
        } else {
            if self.phase < -PHASE_LIMIT - self.phase_change {
                return Err(Error::Overflow);
            }
            next_phase = self.phase + self.phase_change;
        }
        match self.timer.next_by_tempo(tempo) {
            Ok(()) => {},
            Err(e) => {
                return Err(e);
            },
        }
        self.phase = next_phase;
        Ok(next_phase)
    }

    /// Returns the actual phase value.
    pub fn get_phase(&self) -> (r: SampleCalc)
        ensures
            r == self.phase,
    {
        self.phase
    }

    /// Sets the timing of the internal timer and restarts the progress.
    pub fn set_timing(&mut self, timing: TimingOption) -> (r: SoundResult<()>)
        requires
            old(self).wf(),
            match timing {
                TimingOption::Unlimited => true,
                TimingOption::TimeConst(d) => d <= FIXED_LIMIT,
                TimingOption::TimeRatio { ratio, duration } => duration <= FIXED_LIMIT && 0
                    <= ratio <= FIXED_LIMIT,
                TimingOption::TempoConst(nv) => nv.wf(),
                TimingOption::TempoRatio { ratio, duration } => ratio.wf() && duration.wf(),
            },
        ensures
            (match timing {
                TimingOption::TimeConst(d) => d <= 0,
                TimingOption::TimeRatio { duration, .. } => duration <= 0,
                _ => false,
            }) ==> (r === Err(Error::DurationInvalid) && *final(self) == *old(self)),
            (match timing {
                TimingOption::TimeConst(d) => d > 0,
                TimingOption::TimeRatio { duration, .. } => duration > 0,
                _ => true,
            }) ==> (r === Ok(()) && final(self).wf() && final(self).timer.timing == timing
                && final(self).phase == old(self).phase_init && final(self).period == old(self).period
                && final(self).period_unit == old(self).period_unit && final(self).phase_init
                == old(self).phase_init && final(self).timer.sample_time == old(self).timer.sample_time),
    {
        match self.timer.set_timing(timing) {
            Ok(()) => {},
            Err(e) => {
                return Err(e);
            },
        }
        self.restart();
        Ok(())
    }

    /// Provides the timing of the internal timer.
    pub fn get_timing(&self) -> (r: TimingOption)
        ensures
            r == self.timer.timing,
    {
        self.timer.get_timing()
    }

    /// Applies the parent's timing to calculate its own relative timing.
    pub fn apply_parent_timing(&mut self, parent_timing: TimingOption) -> (r: SoundResult<()>)
        requires
            old(self).wf(),
            parent_timing.wf(),
        ensures
            final(self).wf(),
            final(self).period == old(self).period,
            final(self).period_unit == old(self).period_unit,
            final(self).phase_init == old(self).phase_init,
            final(self).phase == old(self).phase,
            final(self).phase_change == old(self).phase_change,
            crate::timing::spec_parent_timing_post(
                old(self).timer,
                final(self).timer,
                parent_timing,
                r,
            ),
    {
        match self.timer.apply_parent_timing(parent_timing) {
            Ok(()) => Ok(()),
            Err(e) => Err(e),
        }
    }
}

/// Tempo based progress measurement. It provides the sequence of phases
/// (for sound functions) by calling `next_by_tempo`. The whole duration can
/// be divided to periods, for periodic functions.
#[derive(Debug, Copy, Clone, PartialEq, Eq, Structural)]
pub struct ProgressTempo {
    /// The internal timer: duration handling.
    pub timer: Timer,
    /// For periodic functions: the duration of one period in beats.
    pub period: NoteValue,
    /// The amount of phase change during one period.
    pub period_unit: SampleCalc,
    /// Initial value of `phase`.
    pub phase_init: SampleCalc,
    /// The amount of phase change during one sample at unit tempo.
    pub phase_change: SampleCalc,
    /// The phase of the progress.
    pub phase: SampleCalc,
}

impl ProgressTempo {
    /// Validity: the timer and the period are valid and every phase quantity
    /// is within its working range; the per-sample phase change is derived
    /// exactly from the sample time, the period and the period unit.
    pub open spec fn wf(&self) -> bool {
        &&& self.timer.wf()
        &&& self.period.wf()
        &&& -PERIOD_UNIT_LIMIT <= self.period_unit <= PERIOD_UNIT_LIMIT
        &&& -PHASE_LIMIT <= self.phase_init <= PHASE_LIMIT
        &&& self.phase_change == spec_mul_fix(
            self.period_unit as int,
            spec_mul_fix(self.timer.sample_time as int, self.period.notes_per_beat as int),
        )
        &&& -PHASE_CHANGE_LIMIT <= self.phase_change <= PHASE_CHANGE_LIMIT
        &&& -PHASE_LIMIT <= self.phase <= PHASE_LIMIT
    }

    /// Custom constructor. The default period is the whole duration.
    /// The default period unit is two pi.
    pub fn new(sample_rate: SampleCalc, period: NoteValue) -> (r: SoundResult<ProgressTempo>)
        requires
            period.wf(),
        ensures
            sample_rate < FIXED_ONE ==> r === Err(Error::SampleRateInvalid),
            sample_rate >= FIXED_ONE ==> (r matches Ok(p) && p.wf() && p.period == period
                && p.period_unit == PI2 && p.phase_init == 0 && p.phase == 0
                && p.timer.sample_time == spec_div_fix(FIXED_ONE as int, sample_rate as int)
                && p.timer.timing == TimingOption::TempoConst(period) && p.timer.remaining
                == period.duration_in_beats),
    {
        let mut timer = match Timer::new(sample_rate) {
            Ok(t) => t,
            Err(e) => {
                return Err(e);
            },
        };
        match timer.set_timing(TimingOption::TempoConst(period)) {
            Ok(()) => {},
            Err(e) => {
                return Err(e);
            },
        }
        let phase_change = phase_change_per_beat(
            timer.get_sample_time(),
            period.get_notes_per_beat(),
            PI2,
        );
        Ok(
            ProgressTempo {
                timer,
                period,
                period_unit: PI2,
                phase_init: 0,
                phase_change,
                phase: 0,
            },
        )
    }

    /// Whether this value is the restart of `prev`.
    pub open spec fn restarted_from(&self, prev: ProgressTempo) -> bool {
        &&& self.timer.sample_time == prev.timer.sample_time
        &&& self.timer.timing == prev.timer.timing
        &&& self.period_unit == prev.period_unit
        &&& self.phase_init == prev.phase_init
        &&& self.phase == prev.phase_init
        &&& (prev.timer.timing matches TimingOption::Unlimited ==> self.timer.remaining
            == prev.timer.remaining)
        &&& (!(prev.timer.timing matches TimingOption::Unlimited) ==> self.timer.remaining
            == prev.timer.timing.spec_duration())
    }

    /// Sets a new period in tempo beats, and restarts the progress.
    pub fn set_period(&mut self, period: NoteValue)
        requires
            old(self).wf(),
            period.wf(),
        ensures
            final(self).wf(),
            final(self).period == period,
            final(self).restarted_from(*old(self)),
    {
        self.period = period;
        self.restart();
    }

    /// Restarts the progress: refills the timer, resets the phase and
    /// recomputes the per-sample phase change.
    pub fn restart(&mut self)
        requires
            old(self).timer.wf(),
            old(self).period.wf(),
            -PERIOD_UNIT_LIMIT <= old(self).period_unit <= PERIOD_UNIT_LIMIT,
            -PHASE_LIMIT <= old(self).phase_init <= PHASE_LIMIT,
        ensures
            final(self).wf(),
            final(self).period == old(self).period,
            final(self).restarted_from(*old(self)),
    {
        self.timer.restart();
        self.phase = self.phase_init;
        self.phase_change = phase_change_per_beat(
            self.timer.get_sample_time(),
            self.period.get_notes_per_beat(),
            self.period_unit,
        );
    }

    /// Sets a new period unit, and restarts the progress.
    pub fn set_period_unit(&mut self, period_unit: SampleCalc)
        requires
            old(self).wf(),
            -PERIOD_UNIT_LIMIT <= period_unit <= PERIOD_UNIT_LIMIT,
        ensures
            final(self).wf(),
            final(self).period == old(self).period,
            final(self).period_unit == period_unit,
            final(self).phase == old(self).phase_init,
            final(self).phase_init == old(self).phase_init,
    {
        self.period_unit = period_unit;
        self.restart();
    }

    /// Sets a new initial phase value, and restarts the progress.
    pub fn set_phase_init(&mut self, phase: SampleCalc)
        requires
            old(self).wf(),
            -PHASE_LIMIT <= phase <= PHASE_LIMIT,
        ensures
            final(self).wf(),
            final(self).period == old(self).period,
            final(self).phase_init == phase,
            final(self).phase == phase,
    {
        self.phase_init = phase;
        self.restart();
    }

    /// Simplifies the phase to achieve higher accuracy. It is only used for
    /// periodic functions.
    pub fn simplify(&mut self)
        requires
            old(self).wf(),
        ensures
            final(self).wf(),
            *final(self) == (ProgressTempo {
                phase: spec_phase_rem(
                    old(self).phase as int,
                    old(self).period_unit as int,
                ) as i64,
                ..*old(self)
            }),
    {
        let m: i64 = if self.period_unit >= 0 {
            self.period_unit
        } else {
            -self.period_unit
        };
        if m != 0 {
            if self.phase >= 0 {
                self.phase = crate::math::mod_fix(self.phase, m);
            } else {
                self.phase = -crate::math::mod_fix(-self.phase, m);
            }
        }
    }

    /// A tempo based progress cannot step by plain time.
    pub fn next_by_time(&mut self) -> (r: SoundResult<SampleCalc>)
        ensures
            r === Err(Error::ProgressInvalid),
            *final(self) == *old(self),
    {
        Err(Error::ProgressInvalid)
    }

    /// Provides the next phase value depending on the actual tempo, or
    /// `Error::ProgressCompleted` if progress is finished. Tempo value is
    /// given in beats per second.
    pub fn next_by_tempo(&mut self, tempo: SampleCalc) -> (r: SoundResult<SampleCalc>)
        requires
            old(self).wf(),
            0 <= tempo <= TEMPO_LIMIT,
        ensures
            final(self).wf(),
            spec_next_tempo_post(*old(self), *final(self), tempo, r),
            final(self).period == old(self).period,
            final(self).period_unit == old(self).period_unit,
            final(self).phase_init == old(self).phase_init,
            final(self).phase_change == old(self).phase_change,
            final(self).timer.timing == old(self).timer.timing,
            final(self).timer.sample_time == old(self).timer.sample_time,
            ({
                let step = spec_mul_fix(old(self).phase_change as int, tempo as int);
                &&& (!(-PHASE_LIMIT <= old(self).phase + step <= PHASE_LIMIT) ==> (r === Err(
                    Error::Overflow,
                ) && *final(self) == *old(self)))
                &&& ((-PHASE_LIMIT <= old(self).phase + step <= PHASE_LIMIT) ==> {
                    &&& (old(self).timer.timing matches TimingOption::Unlimited ==> (r matches Ok(
                        p,
                    ) && p == old(self).phase + step && final(self).phase == p && final(self).timer.remaining == old(self).timer.remaining))
                    &&& (old(self).timer.timing.is_time_kind() ==> (r === Err(
                        Error::TimingInvalid,
                    ) && *final(self) == *old(self)))
                    &&& (old(self).timer.timing.is_tempo_kind() ==> {
                        let drain = spec_mul_fix(tempo as int, old(self).timer.sample_time as int);
                        if old(self).timer.remaining - drain <= 0 {
                            r === Err(Error::ProgressCompleted) && final(self).phase == old(self).phase && final(self).timer.remaining == 0
                        } else {
                            r matches Ok(p) && p == old(self).phase + step && final(self).phase
                                == p && final(self).timer.remaining == old(self).timer.remaining
                                - drain
                        }
                    })
                })
            }),
    {
        proof {
            let pc = self.phase_change as int;
            let t = tempo as int;
            assert((if pc >= 0 {
                pc
            } else {
                -pc
            }) * t <= 0x7fff_ffff_ffff_ffff * (FIXED_ONE as int)) by (nonlinear_arith)
                requires
                    -PHASE_CHANGE_LIMIT <= pc <= PHASE_CHANGE_LIMIT,
                    0 <= t <= TEMPO_LIMIT,
            ;
            crate::math::lemma_mul_fix_abs_bounds(
                pc,
                t,
                PHASE_CHANGE_LIMIT as int,
                TEMPO_LIMIT as int,
            );
        }
        let step = mul_fix(self.phase_change, tempo);
        let next_phase: i64;
        if step >= 0 {
            if self.phase > PHASE_LIMIT - step {
                return Err(Error::Overflow);
            }
            next_phase = self.phase + step;
        } else {
            if self.phase < -PHASE_LIMIT - step {
                return Err(Error::Overflow);
            }
            next_phase = self.phase + step;
        }
        match self.timer.next_by_tempo(tempo) {
            Ok(()) => {},
            Err(e) => {
                return Err(e);
            },
        }
        self.phase = next_phase;
        Ok(next_phase)
    }

    /// Returns the actual phase value.
    pub fn get_phase(&self) -> (r: SampleCalc)
        ensures
            r == self.phase,
    {
        self.phase
    }

    /// Sets the timing of the internal timer and restarts the progress.
    pub fn set_timing(&mut self, timing: TimingOption) -> (r: SoundResult<()>)
        requires
            old(self).wf(),
            match timing {
                TimingOption::Unlimited => true,
                TimingOption::TimeConst(d) => d <= FIXED_LIMIT,
                TimingOption::TimeRatio { ratio, duration } => duration <= FIXED_LIMIT && 0
                    <= ratio <= FIXED_LIMIT,
                TimingOption::TempoConst(nv) => nv.wf(),
                TimingOption::TempoRatio { ratio, duration } => ratio.wf() && duration.wf(),
            },
        ensures
            (match timing {
                TimingOption::TimeConst(d) => d <= 0,
                TimingOption::TimeRatio { duration, .. } => duration <= 0,
                _ => false,
            }) ==> (r === Err(Error::DurationInvalid) && *final(self) == *old(self)),
            (match timing {
                TimingOption::TimeConst(d) => d > 0,
                TimingOption::TimeRatio { duration, .. } => duration > 0,
                _ => true,
            }) ==> (r === Ok(()) && final(self).wf() && final(self).timer.timing == timing
                && final(self).phase == old(self).phase_init && final(self).period == old(self).period && final(self).period_unit == old(self).period_unit && final(self).phase_init == old(self).phase_init && final(self).timer.sample_time == old(self).timer.sample_time),
    {
        match self.timer.set_timing(timing) {
            Ok(()) => {},
            Err(e) => {
                return Err(e);
            },
        }
        self.restart();
        Ok(())
    }

    /// Provides the timing of the internal timer.
    pub fn get_timing(&self) -> (r: TimingOption)
        ensures
            r == self.timer.timing,
    {
        self.timer.get_timing()
    }

    /// Applies the parent's timing to calculate its own relative timing.
    pub fn apply_parent_timing(&mut self, parent_timing: TimingOption) -> (r: SoundResult<()>)
        requires
            old(self).wf(),
            parent_timing.wf(),
        ensures
            final(self).wf(),
            final(self).period == old(self).period,
            final(self).period_unit == old(self).period_unit,
            final(self).phase_init == old(self).phase_init,
            final(self).phase == old(self).phase,
            final(self).phase_change == old(self).phase_change,
            crate::timing::spec_parent_timing_post(
                old(self).timer,
                final(self).timer,
                parent_timing,
                r,
            ),
    {
        match self.timer.apply_parent_timing(parent_timing) {
            Ok(()) => Ok(()),
            Err(e) => Err(e),
        }
    }
}

/// Time or tempo based progress.
#[derive(Debug, Copy, Clone, PartialEq, Eq, Structural)]
pub enum ProgressOption {
    /// Time based progress.
    Time(ProgressTime),
    /// Rhythmic, tempo synchronized progress.
    Tempo(ProgressTempo),
}

impl ProgressOption {
    /// Validity of the inner progress.
    pub open spec fn wf(&self) -> bool {
        match *self {
            ProgressOption::Time(p) => p.wf(),
            ProgressOption::Tempo(p) => p.wf(),
        }
    }

    /// The current phase of the inner progress.
    pub open spec fn spec_phase(&self) -> SampleCalc {
        match *self {
            ProgressOption::Time(p) => p.phase,
            ProgressOption::Tempo(p) => p.phase,
        }
    }

    /// The timing of the inner timer.
    pub open spec fn spec_timing(&self) -> TimingOption {
        match *self {
            ProgressOption::Time(p) => p.timer.timing,
            ProgressOption::Tempo(p) => p.timer.timing,
        }
    }

    /// The inner timer.
    pub open spec fn spec_timer(&self) -> Timer {
        match *self {
            ProgressOption::Time(p) => p.timer,
            ProgressOption::Tempo(p) => p.timer,
        }
    }

    /// The initial phase of the inner progress.
    pub open spec fn spec_phase_init(&self) -> SampleCalc {
        match *self {
            ProgressOption::Time(p) => p.phase_init,
            ProgressOption::Tempo(p) => p.phase_init,
        }
    }

    /// Sets a new period unit, and restarts the progress.
    pub fn set_period_unit(&mut self, period_unit: SampleCalc)
        requires
            old(self).wf(),
            -PERIOD_UNIT_LIMIT <= period_unit <= PERIOD_UNIT_LIMIT,
        ensures
            final(self).wf(),
            (*final(self)) is Time == (*old(self)) is Time,
            final(self).spec_phase() == old(self).spec_phase_init(),
            final(self).spec_phase_init() == old(self).spec_phase_init(),
    {
        match self {
            ProgressOption::Time(p) => p.set_period_unit(period_unit),
            ProgressOption::Tempo(p) => p.set_period_unit(period_unit),
        }
    }

    /// Sets a new initial phase value, and restarts the progress.
    pub fn set_phase_init(&mut self, phase: SampleCalc)
        requires
            old(self).wf(),
            -PHASE_LIMIT <= phase <= PHASE_LIMIT,
        ensures
            final(self).wf(),
            (*final(self)) is Time == (*old(self)) is Time,
            final(self).spec_phase() == phase,
            final(self).spec_phase_init() == phase,
    {
        match self {
            ProgressOption::Time(p) => p.set_phase_init(phase),
            ProgressOption::Tempo(p) => p.set_phase_init(phase),
        }
    }

    /// Simplifies the phase to achieve higher accuracy.
    pub fn simplify(&mut self)
        requires
            old(self).wf(),
        ensures
            final(self).wf(),
            (*final(self)) is Time == (*old(self)) is Time,
    {
        match self {
            ProgressOption::Time(p) => p.simplify(),
            ProgressOption::Tempo(p) => p.simplify(),
        }
    }

    /// Returns the actual phase value.
    pub fn get_phase(&self) -> (r: SampleCalc)
        ensures
            r == self.spec_phase(),
    {
        match self {
            ProgressOption::Time(p) => p.get_phase(),
            ProgressOption::Tempo(p) => p.get_phase(),
        }
    }

    /// Sets the timing of the internal timer and restarts the progress.
    pub fn set_timing(&mut self, timing: TimingOption) -> (r: SoundResult<()>)
        requires
            old(self).wf(),
            match timing {
                TimingOption::Unlimited => true,
                TimingOption::TimeConst(d) => d <= FIXED_LIMIT,
                TimingOption::TimeRatio { ratio, duration } => duration <= FIXED_LIMIT && 0
                    <= ratio <= FIXED_LIMIT,
                TimingOption::TempoConst(nv) => nv.wf(),
                TimingOption::TempoRatio { ratio, duration } => ratio.wf() && duration.wf(),
            },
        ensures
            final(self).wf(),
            (*final(self)) is Time == (*old(self)) is Time,
            (match timing {
                TimingOption::TimeConst(d) => d > 0,
                TimingOption::TimeRatio { duration, .. } => duration > 0,
                _ => true,
            }) ==> (r === Ok(()) && final(self).spec_timing() == timing),
            (match timing {
                TimingOption::TimeConst(d) => d <= 0,
                TimingOption::TimeRatio { duration, .. } => duration <= 0,
                _ => false,
            }) ==> (r === Err(Error::DurationInvalid) && *final(self) == *old(self)),
    {
        match self {
            ProgressOption::Time(p) => p.set_timing(timing),
            ProgressOption::Tempo(p) => p.set_timing(timing),
        }
    }

    /// Provides the timing of the internal timer.
    pub fn get_timing(&self) -> (r: TimingOption)
        ensures
            r == self.spec_timing(),
    {
        match self {
            ProgressOption::Time(p) => p.get_timing(),
            ProgressOption::Tempo(p) => p.get_timing(),
        }
    }

    /// Restarts the inner progress.
    pub fn restart(&mut self)
        requires
            old(self).wf(),
        ensures
            final(self).wf(),
            (*final(self)) is Time == (*old(self)) is Time,
            final(self).spec_timing() == old(self).spec_timing(),
            final(self).spec_phase() == old(self).spec_phase_init(),
            final(self).spec_phase_init() == old(self).spec_phase_init(),
            crate::timing::spec_restart_post(old(self).spec_timer(), final(self).spec_timer()),
    {
        match self {
            ProgressOption::Time(p) => p.restart(),
            ProgressOption::Tempo(p) => p.restart(),
        }
    }

    /// Applies the parent's timing to calculate its own relative timing.
    pub fn apply_parent_timing(&mut self, parent_timing: TimingOption) -> (r: SoundResult<()>)
        requires
            old(self).wf(),
            parent_timing.wf(),
        ensures
            final(self).wf(),
            (*final(self)) is Time == (*old(self)) is Time,
            final(self).spec_phase() == old(self).spec_phase(),
            final(self).spec_phase_init() == old(self).spec_phase_init(),
            crate::timing::spec_parent_timing_post(
                old(self).spec_timer(),
                final(self).spec_timer(),
                parent_timing,
                r,
            ),
    {
        match self {
            ProgressOption::Time(p) => p.apply_parent_timing(parent_timing),
            ProgressOption::Tempo(p) => p.apply_parent_timing(parent_timing),
        }
    }

    /// Provides the next phase value, or `Error::ProgressCompleted` if the
    /// progress is finished. A tempo based progress cannot step by plain
    /// time.
    pub fn next_by_time(&mut self) -> (r: SoundResult<SampleCalc>)
        requires
            old(self).wf(),
        ensures
            final(self).wf(),
            (*final(self)) is Time == (*old(self)) is Time,
            (*old(self)) matches ProgressOption::Time(p0) ==> ((*final(self)) matches
                ProgressOption::Time(p1) && spec_next_time_post(p0, p1, r)),
            (*old(self)) matches ProgressOption::Tempo(_) ==> (r === Err(Error::ProgressInvalid)
                && *final(self) == *old(self)),
    {
        match self {
            ProgressOption::Time(p) => p.next_by_time(),
            ProgressOption::Tempo(p) => p.next_by_time(),
        }
    }

    /// Provides the next phase value depending on the actual tempo, or
    /// `Error::ProgressCompleted` if progress is finished. Tempo value is
    /// given in beats per second. A time based progress keeps its duration
    /// tempo dependent while the phase change stays time dependent.
    pub fn next_by_tempo(&mut self, tempo: SampleCalc) -> (r: SoundResult<SampleCalc>)
        requires
            old(self).wf(),
            0 <= tempo <= TEMPO_LIMIT,
        ensures
            final(self).wf(),
            (*final(self)) is Time == (*old(self)) is Time,
            (*old(self)) matches ProgressOption::Tempo(p0) ==> ((*final(self)) matches
                ProgressOption::Tempo(p1) && spec_next_tempo_post(p0, p1, tempo, r)),
    {
        match self {
            ProgressOption::Time(p) => p.next_by_tempo(tempo),
            ProgressOption::Tempo(p) => p.next_by_tempo(tempo),
        }
    }
}

/// The per-sample phase change at unit tempo,
/// `sample_time * notes_per_beat * period_unit`, derived exactly in fixed
/// point.
fn phase_change_per_beat(
    sample_time: SampleCalc,
    notes_per_beat: SampleCalc,
    period_unit: SampleCalc,
) -> (r: SampleCalc)
    requires
        1 <= sample_time <= FIXED_ONE,
        1 <= notes_per_beat <= 0xffff * FIXED_ONE,
        -PERIOD_UNIT_LIMIT <= period_unit <= PERIOD_UNIT_LIMIT,
    ensures
        r == spec_mul_fix(
            period_unit as int,
            spec_mul_fix(sample_time as int, notes_per_beat as int),
        ),
        -PHASE_CHANGE_LIMIT <= r <= PHASE_CHANGE_LIMIT,
{
    proof {
        assert((sample_time as int) * (notes_per_beat as int) <= 0x7fff_ffff_ffff_ffff * (
        FIXED_ONE as int)) by (nonlinear_arith)
            requires
                1 <= sample_time <= FIXED_ONE,
                1 <= notes_per_beat <= 0xffff * FIXED_ONE,
        ;
        crate::math::lemma_mul_fix_bounds(
            sample_time as int,
            notes_per_beat as int,
            FIXED_ONE as int,
            0xffff * FIXED_ONE,
        );
    }
    let q: i64 = mul_fix(sample_time, notes_per_beat);
    proof {
        let pu = period_unit as int;
        assert((if pu >= 0 {
            pu
        } else {
            -pu
        }) * (q as int) <= 0x7fff_ffff_ffff_ffff * (FIXED_ONE as int)) by (nonlinear_arith)
            requires
                -PERIOD_UNIT_LIMIT <= pu <= PERIOD_UNIT_LIMIT,
                0 <= q <= 0x1_0000_0000_0000,
        ;
        crate::math::lemma_mul_fix_abs_bounds(
            pu,
            q as int,
            PERIOD_UNIT_LIMIT as int,
            0x1_0000_0000_0000,
        );
    }
    mul_fix(period_unit, q)
}

/// The per-sample phase change `(sample_time / period) * period_unit`,
/// derived exactly in fixed point.
fn phase_change_per_sample(sample_time: SampleCalc, period: SampleCalc, period_unit: SampleCalc) -> (r:
    SampleCalc)
    requires
        1 <= sample_time <= FIXED_ONE,
        PERIOD_MIN <= period <= FIXED_LIMIT,
        -PERIOD_UNIT_LIMIT <= period_unit <= PERIOD_UNIT_LIMIT,
    ensures
        r == spec_mul_fix(
            period_unit as int,
            spec_div_fix(sample_time as int, period as int),
        ),
        -PHASE_CHANGE_LIMIT <= r <= PHASE_CHANGE_LIMIT,
{
    proof {
        vstd::arithmetic::div_mod::lemma_div_pos_is_pos(
            (sample_time as int) * (FIXED_ONE as int),
            period as int,
        );
        vstd::arithmetic::div_mod::lemma_div_is_ordered_by_denominator(
            (sample_time as int) * (FIXED_ONE as int),
            PERIOD_MIN as int,
            period as int,
        );
        vstd::arithmetic::div_mod::lemma_div_is_ordered(
            (sample_time as int) * (FIXED_ONE as int),
            (FIXED_ONE as int) * (FIXED_ONE as int),
            PERIOD_MIN as int,
        );
        assert((sample_time as int) * (FIXED_ONE as int) <= (FIXED_ONE as int) * (
        FIXED_ONE as int)) by (nonlinear_arith)
            requires
                1 <= sample_time <= FIXED_ONE,
        ;
    }
    let q: i64 = div_fix(sample_time, period);
    proof {
        assert((if period_unit >= 0 { period_unit as int } else { -(period_unit as int) }) * (
        q as int) <= 0x7fff_ffff_ffff_ffff * (FIXED_ONE as int)) by (nonlinear_arith)
            requires
                -PERIOD_UNIT_LIMIT <= period_unit <= PERIOD_UNIT_LIMIT,
                0 <= q <= 0x1_0000_0000_0000,
        ;
        crate::math::lemma_mul_fix_abs_bounds(
            period_unit as int,
            q as int,
            PERIOD_UNIT_LIMIT as int,
            0x1_0000_0000_0000,
        );
    }
    mul_fix(period_unit, q)
}

} // verus!
