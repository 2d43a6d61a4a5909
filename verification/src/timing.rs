//! Timing for the duration of sound components.

use vstd::prelude::*;

use crate::errors::{Error, SoundResult};
use crate::math::{mul_fix, spec_div_fix, spec_mul_fix};
use crate::rhythm::NoteValue;
use crate::{FIXED_LIMIT, FIXED_ONE, SampleCalc};

verus! {

/// Optional duration type, for timings in sequences.
#[derive(Debug, Copy, Clone, PartialEq, Eq, Structural)]
pub enum TimingOption {
    /// Timing is turned off (= unlimited duration).
    Unlimited,
    /// Constant amount of time independent of rhythm.
    /// For a sequence item, it is independent of the sequence's whole duration.
    TimeConst(SampleCalc),
    /// Proportion relative to a sequence's whole duration (in time).
    /// The sequence's timing must be time based!
    TimeRatio {
        /// Proportion.
        ratio: SampleCalc,
        /// The calculated duration value (from the ratio).
        duration: SampleCalc,
    },
    /// Duration relative to the beat duration.
    /// For a sequence item, it is independent of the sequence's whole duration.
    TempoConst(NoteValue),
    /// Proportion relative to a sequence's whole duration.
    /// The sequence's timing must be tempo based!
    TempoRatio {
        /// Proportion.
        ratio: NoteValue,
        /// The calculated duration in beats.
        duration: NoteValue,
    },
}

impl TimingOption {
    /// Validity of the stored durations: positive and within the fixed-point
    /// working range.
    pub open spec fn wf(&self) -> bool {
        match *self {
            TimingOption::Unlimited => true,
            TimingOption::TimeConst(d) => 0 < d <= FIXED_LIMIT,
            TimingOption::TimeRatio { ratio, duration } => 0 < duration <= FIXED_LIMIT && 0
                <= ratio <= FIXED_LIMIT,
            TimingOption::TempoConst(nv) => nv.wf(),
            TimingOption::TempoRatio { ratio, duration } => ratio.wf() && duration.wf(),
        }
    }

    /// Whether the timing is measured in seconds.
    pub open spec fn is_time_kind(&self) -> bool {
        self matches TimingOption::TimeConst(_) || self matches TimingOption::TimeRatio { .. }
    }

    /// Whether the timing is measured in beats.
    pub open spec fn is_tempo_kind(&self) -> bool {
        self matches TimingOption::TempoConst(_) || self matches TimingOption::TempoRatio { .. }
    }

    /// The proportion field of a time-ratio timing; zero for every other
    /// variant.
    pub open spec fn spec_time_ratio(&self) -> SampleCalc {
        match *self {
            TimingOption::TimeRatio { ratio, .. } => ratio,
            _ => 0,
        }
    }

    /// The proportion field of a tempo-ratio timing; the default note value
    /// for every other variant.
    pub open spec fn spec_tempo_ratio(&self) -> NoteValue {
        match *self {
            TimingOption::TempoRatio { ratio, .. } => ratio,
            _ => arbitrary(),
        }
    }

    /// The duration field of a tempo timing; arbitrary for other variants.
    pub open spec fn spec_tempo_duration(&self) -> NoteValue {
        match *self {
            TimingOption::TempoConst(nv) => nv,
            TimingOption::TempoRatio { duration, .. } => duration,
            _ => arbitrary(),
        }
    }

    /// The stored duration: seconds for time-based timings, beats for
    /// tempo-based ones, zero for the unlimited one.
    pub open spec fn spec_duration(&self) -> int {
        match *self {
            TimingOption::Unlimited => 0,
            TimingOption::TimeConst(d) => d as int,
            TimingOption::TimeRatio { duration, .. } => duration as int,
            TimingOption::TempoConst(nv) => nv.duration_in_beats as int,
            TimingOption::TempoRatio { duration, .. } => duration.duration_in_beats as int,
        }
    }
}

/// The remaining budget after draining one beat-step per tempo sample:
/// each sample subtracts `tempo[i] * sample_time` from the budget.
pub open spec fn spec_tempo_drain(rem: int, tempo: Seq<SampleCalc>, sample_time: int, i: int) -> int
    decreases i,
{
    if i <= 0 {
        rem
    } else {
        spec_tempo_drain(rem, tempo, sample_time, i - 1) - spec_mul_fix(
            tempo[i - 1] as int,
            sample_time,
        )
    }
}

/// What one timed jump does to a timer: nothing when unlimited, a refusal
/// for a beat-based timing, and otherwise either the budgeted decrement or
/// the count of samples that still fit, with the budget clamped at zero.
pub open spec fn spec_jump_time_post(t0: Timer, t1: Timer, n: int, r: SoundResult<()>) -> bool {
    &&& t1.timing == t0.timing
    &&& t1.sample_time == t0.sample_time
    &&& (t0.timing matches TimingOption::Unlimited ==> (r === Ok(()) && t1 == t0))
    &&& (t0.timing.is_tempo_kind() ==> (r === Err(Error::TimingInvalid) && t1 == t0))
    &&& (t0.timing.is_time_kind() ==> {
        let time_change = n * (t0.sample_time as int);
        if t0.remaining >= time_change {
            r === Ok(()) && t1.remaining == t0.remaining - time_change
        } else {
            r === Err(
                Error::ItemsCompleted(((t0.remaining as int) / (t0.sample_time as int)) as usize),
            ) && t1.remaining == 0
        }
    })
}

/// What a restart does to a timer: the budget returns to the configured
/// duration, and an unlimited timer stays as it is.
pub open spec fn spec_restart_post(t0: Timer, t1: Timer) -> bool {
    &&& t1.timing == t0.timing
    &&& t1.sample_time == t0.sample_time
    &&& (t0.timing matches TimingOption::Unlimited ==> t1.remaining == t0.remaining)
    &&& (!(t0.timing matches TimingOption::Unlimited) ==> t1.remaining
        == t0.timing.spec_duration())
}

/// What applying a parent timing does to a timer: only the ratio variants
/// are rescaled, only by a parent of the same kind, and the remaining
/// budget is untouched.
pub open spec fn spec_parent_timing_post(
    t0: Timer,
    t1: Timer,
    parent_timing: TimingOption,
    r: SoundResult<()>,
) -> bool {
    &&& t1.sample_time == t0.sample_time
    &&& t1.remaining == t0.remaining
    &&& !(r === Err(Error::SequenceEmpty))
    &&& (!(t0.timing.is_time_kind() || t0.timing.is_tempo_kind()) ==> (r === Ok(()) && t1 == t0))
    &&& (t0.timing matches TimingOption::TimeConst(_) ==> (r === Ok(()) && t1 == t0))
    &&& (t0.timing matches TimingOption::TempoConst(_) ==> (r === Ok(()) && t1 == t0))
    &&& ((t0.timing matches TimingOption::TimeRatio { .. } && !(parent_timing.is_time_kind()))
        ==> (r === Err(Error::TimingInvalid) && t1 == t0))
    &&& ((t0.timing matches TimingOption::TempoRatio { .. } && !(parent_timing.is_tempo_kind()))
        ==> (r === Err(Error::TimingInvalid) && t1 == t0))
    &&& ((t0.timing matches TimingOption::TimeRatio { .. } && parent_timing.is_time_kind())
        ==> {
        let scaled = spec_mul_fix(t0.timing.spec_duration(), parent_timing.spec_duration());
        if scaled > crate::FIXED_LIMIT {
            r === Err(Error::Overflow) && t1 == t0
        } else if scaled == 0 {
            r === Err(Error::DurationInvalid) && t1 == t0
        } else {
            r === Ok(()) && t1.timing == (TimingOption::TimeRatio {
                ratio: t0.timing.spec_time_ratio(),
                duration: scaled as i64,
            })
        }
    })
    &&& ((t0.timing matches TimingOption::TempoRatio { .. } && parent_timing.is_tempo_kind())
        ==> {
        let pd = parent_timing.spec_tempo_duration();
        let sd = t0.timing.spec_tempo_duration();
        let dp = (sd.denominator as int) * (pd.denominator as int);
        let np = (sd.numerator as int) * (pd.numerator as int);
        if dp <= 0xffff && np <= 0xffff {
            &&& r === Ok(())
            &&& t1.timing is TempoRatio
            &&& t1.timing.spec_tempo_ratio() == t0.timing.spec_tempo_ratio()
            &&& t1.timing.spec_tempo_duration().wf()
            &&& t1.timing.spec_tempo_duration().numerator == np as nat / crate::math::spec_gcd(
                np as nat,
                dp as nat,
            )
            &&& t1.timing.spec_tempo_duration().denominator == dp as nat / crate::math::spec_gcd(
                np as nat,
                dp as nat,
            )
        } else {
            r === Err(Error::Overflow) && t1 == t0
        }
    })
}

/// Timer for sequence items, based on optional duration unit types.
#[derive(Debug, Copy, Clone, PartialEq, Eq, Structural)]
pub struct Timer {
    /// Duration of one sample, fixed at construction.
    pub sample_time: SampleCalc,
    /// The configured timing.
    pub timing: TimingOption,
    /// The remaining time (seconds) or beat budget (beats); never negative.
    pub remaining: SampleCalc,
}

impl Timer {
    /// Validity: the sample time is one of a sample rate of at least one
    /// sample per second, the timing is valid and the remaining budget is
    /// clamped into the working range.
    pub open spec fn wf(&self) -> bool {
        &&& 1 <= self.sample_time <= FIXED_ONE
        &&& self.timing.wf()
        &&& 0 <= self.remaining <= FIXED_LIMIT
    }

    /// Custom constructor. The timer starts without timing: unlimited.
    pub fn new(sample_rate: SampleCalc) -> (r: SoundResult<Timer>)
        ensures
            sample_rate < FIXED_ONE ==> r === Err(Error::SampleRateInvalid),
            sample_rate >= FIXED_ONE ==> (r matches Ok(t) && t.wf() && t.sample_time
                == spec_div_fix(FIXED_ONE as int, sample_rate as int) && t.timing
                == TimingOption::Unlimited && t.remaining == 0),
    {
        let sample_time = match crate::get_sample_time(sample_rate) {
            Ok(st) => st,
            Err(e) => {
                return Err(e);
            },
        };
        Ok(Timer { sample_time, timing: TimingOption::Unlimited, remaining: 0 })
    }

    /// Provides the sample time value.
    pub fn get_sample_time(&self) -> (r: SampleCalc)
        ensures
            r == self.sample_time,
    {
        self.sample_time
    }

    /// Sets the timing (duration) of the sequence item, and restarts the
    /// internal timer.
    pub fn set_timing(&mut self, timing: TimingOption) -> (r: SoundResult<()>)
        requires
            old(self).wf(),
            match timing {
                TimingOption::Unlimited => true,
                TimingOption::TimeConst(d) => d <= FIXED_LIMIT,
                TimingOption::TimeRatio { ratio, duration } => duration <= FIXED_LIMIT && 0
                    <= ratio <= FIXED_LIMIT,
                TimingOption::TempoConst(nv) => nv.wf(),
                TimingOption::TempoRatio { ratio, duration } => ratio.wf() && duration.wf(),
            },
        ensures
            (match timing {
                TimingOption::TimeConst(d) => d <= 0,
                TimingOption::TimeRatio { duration, .. } => duration <= 0,
                _ => false,
            }) ==> (r === Err(Error::DurationInvalid) && *final(self) == *old(self)),
            (match timing {
                TimingOption::TimeConst(d) => d > 0,
                TimingOption::TimeRatio { duration, .. } => duration > 0,
                _ => true,
            }) ==> (r === Ok(()) && final(self).wf() && final(self).timing == timing && final(self).sample_time == old(self).sample_time && final(self).remaining
                == timing.spec_duration()),
    {
        match timing {
            TimingOption::Unlimited => {
                self.remaining = 0;
            },
            TimingOption::TimeConst(duration) => {
                if duration <= 0 {
                    return Err(Error::DurationInvalid);
                }
                self.remaining = duration;
            },
            TimingOption::TimeRatio { duration, .. } => {
                if duration <= 0 {
                    return Err(Error::DurationInvalid);
                }
                self.remaining = duration;
            },
            TimingOption::TempoConst(note_value) => {
                self.remaining = note_value.get_duration_in_beats();
            },
            TimingOption::TempoRatio { duration, .. } => {
                self.remaining = duration.get_duration_in_beats();
            },
        }
        self.timing = timing;
        Ok(())
    }

    /// Provides the `TimingOption`.
    pub fn get_timing(&self) -> (r: TimingOption)
        ensures
            r == self.timing,
    {
        self.timing
    }

    /// Restarts the internal timer: the remaining budget becomes the whole
    /// configured duration again.
    pub fn restart(&mut self)
        requires
            old(self).wf(),
        ensures
            final(self).wf(),
            spec_restart_post(*old(self), *final(self)),
            final(self).timing == old(self).timing,
            final(self).sample_time == old(self).sample_time,
            old(self).timing matches TimingOption::Unlimited ==> final(self).remaining == old(self).remaining,
            !(old(self).timing matches TimingOption::Unlimited) ==> final(self).remaining == old(self).timing.spec_duration(),
    {
        match self.timing {
            TimingOption::Unlimited => {},
            TimingOption::TimeConst(duration) => {
                self.remaining = duration;
            },
            TimingOption::TimeRatio { duration, .. } => {
                self.remaining = duration;
            },
            TimingOption::TempoConst(note_value) => {
                self.remaining = note_value.get_duration_in_beats();
            },
            TimingOption::TempoRatio { duration, .. } => {
                self.remaining = duration.get_duration_in_beats();
            },
        }
    }

    /// Moves forward `sample_count` steps in time. If the elapsed time
    /// reaches the timing duration, it returns the count of samples that
    /// still fit, wrapped in `Error::ItemsCompleted`.
    pub fn jump_by_time(&mut self, sample_count: usize) -> (r: SoundResult<()>)
        requires
            old(self).wf(),
        ensures
            final(self).wf(),
            spec_jump_time_post(*old(self), *final(self), sample_count as int, r),
            final(self).timing == old(self).timing,
            final(self).sample_time == old(self).sample_time,
            old(self).timing matches TimingOption::Unlimited ==> (r === Ok(()) && *final(self)
                == *old(self)),
            old(self).timing.is_tempo_kind() ==> (r === Err(Error::TimingInvalid) && *final(self)
                == *old(self)),
            old(self).timing.is_time_kind() ==> {
                let time_change = (sample_count as int) * (old(self).sample_time as int);
                if old(self).remaining >= time_change {
                    r === Ok(()) && final(self).remaining == old(self).remaining - time_change
                } else {
                    r === Err(
                        Error::ItemsCompleted(
                            ((old(self).remaining as int) / (old(self).sample_time as int)) as usize,
                        ),
                    ) && final(self).remaining == 0
                }
            },
    {
        match self.timing {
            TimingOption::Unlimited => Ok(()),
            TimingOption::TimeConst(_) | TimingOption::TimeRatio { .. } => {
                proof {
                    assert((sample_count as int) * (self.sample_time as int) <= 0xffff_ffff_ffff_ffff * (FIXED_ONE as int)) by (nonlinear_arith)
                        requires
                            0 <= sample_count <= 0xffff_ffff_ffff_ffff,
                            0 <= self.sample_time <= FIXED_ONE,
                    ;
                }
                let time_change: u128 = (sample_count as u128) * (self.sample_time as u128);
                if (self.remaining as u128) >= time_change {
                    self.remaining = self.remaining - (time_change as i64);
                    return Ok(());
                }
                let samples_left: u64 = (self.remaining as u64) / (self.sample_time as u64);
                proof {
                    let st = self.sample_time as int;
                    let sc = sample_count as int;
                    assert(st * sc == sc * st) by (nonlinear_arith);
                    vstd::arithmetic::div_mod::lemma_multiply_divide_lt(
                        self.remaining as int,
                        st,
                        sc,
                    );
                }
                self.remaining = 0;
                Err(Error::ItemsCompleted(samples_left as usize))
            },
            TimingOption::TempoConst(_) | TimingOption::TempoRatio { .. } => Err(
                Error::TimingInvalid,
            ),
        }
    }

    /// Moves forward `tempo.len()` steps. If the duration (in beats) is
    /// reached, it returns the count of samples that still fit, wrapped in
    /// `Error::ItemsCompleted`. Tempo values are given in beats per second.
    pub fn jump_by_tempo(&mut self, tempo: &Vec<SampleCalc>) -> (r: SoundResult<()>)
        requires
            old(self).wf(),
            forall|i: int| 0 <= i < tempo@.len() ==> 0 <= #[trigger] tempo@[i] <= FIXED_LIMIT,
        ensures
            final(self).wf(),
            final(self).timing == old(self).timing,
            final(self).sample_time == old(self).sample_time,
            old(self).timing matches TimingOption::Unlimited ==> (r === Ok(()) && *final(self)
                == *old(self)),
            old(self).timing.is_time_kind() ==> (r === Err(Error::TimingInvalid) && *final(self)
                == *old(self)),
            old(self).timing.is_tempo_kind() ==> {
                let st = old(self).sample_time as int;
                let rem0 = old(self).remaining as int;
                let n = tempo@.len() as int;
                if forall|i: int|
                    0 < i <= n ==> #[trigger] spec_tempo_drain(rem0, tempo@, st, i) > 0 {
                    r === Ok(()) && final(self).remaining == spec_tempo_drain(rem0, tempo@, st, n)
                } else {
                    exists|k: int|
                        #![trigger spec_tempo_drain(rem0, tempo@, st, k)]
                        {
                            &&& 0 <= k < n
                            &&& spec_tempo_drain(rem0, tempo@, st, k + 1) <= 0
                            &&& (forall|i: int|
                                0 < i <= k ==> #[trigger] spec_tempo_drain(rem0, tempo@, st, i)
                                    > 0)
                            &&& r === Err(Error::ItemsCompleted(k as usize))
                            &&& final(self).remaining == 0
                        }
                }
            },
    {
        match self.timing {
            TimingOption::Unlimited => Ok(()),
            TimingOption::TimeConst(_) | TimingOption::TimeRatio { .. } => Err(
                Error::TimingInvalid,
            ),
            TimingOption::TempoConst(_) | TimingOption::TempoRatio { .. } => {
                let ghost st = self.sample_time as int;
                let ghost rem0 = self.remaining as int;
                let n = tempo.len();
                let mut index: usize = 0;
                while index < n
                    invariant
                        0 <= index <= n,
                        n == tempo@.len(),
                        self.sample_time == old(self).sample_time,
                        self.timing == old(self).timing,
                        old(self).timing.is_tempo_kind(),
                        st == old(self).sample_time as int,
                        rem0 == old(self).remaining as int,
                        1 <= self.sample_time <= FIXED_ONE,
                        self.timing.wf(),
                        forall|i: int|
                            0 <= i < tempo@.len() ==> 0 <= #[trigger] tempo@[i] <= FIXED_LIMIT,
                        self.remaining as int == spec_tempo_drain(rem0, tempo@, st, index as int),
                        self.remaining > 0 || index == 0,
                        0 <= rem0 <= FIXED_LIMIT,
                        0 <= self.remaining <= FIXED_LIMIT,
                        forall|i: int|
                            0 < i <= index ==> #[trigger] spec_tempo_drain(rem0, tempo@, st, i)
                                > 0,
                    decreases n - index,
                {
                    proof {
                        crate::math::lemma_mul_fix_bounds(
                            tempo@[index as int] as int,
                            st,
                            FIXED_LIMIT as int,
                            FIXED_ONE as int,
                        );
                    }
                    let step = mul_fix(tempo[index], self.sample_time);
                    proof {
                        assert(spec_tempo_drain(rem0, tempo@, st, index as int + 1)
                            == spec_tempo_drain(rem0, tempo@, st, index as int) - spec_mul_fix(
                            tempo@[index as int] as int,
                            st,
                        ));
                    }
                    self.remaining = self.remaining - step;
                    if self.remaining <= 0 {
                        self.remaining = 0;
                        return Err(Error::ItemsCompleted(index));
                    }
                    index = index + 1;
                }
                Ok(())
            },
        }
    }

    /// Moves forward one sample step in time. If the elapsed time reaches
    /// the timing duration, it returns `Error::ProgressCompleted`.
    pub fn next_by_time(&mut self) -> (r: SoundResult<()>)
        requires
            old(self).wf(),
        ensures
            final(self).wf(),
            final(self).timing == old(self).timing,
            final(self).sample_time == old(self).sample_time,
            old(self).timing matches TimingOption::Unlimited ==> (r === Ok(()) && *final(self)
                == *old(self)),
            old(self).timing.is_tempo_kind() ==> (r === Err(Error::TimingInvalid) && *final(self)
                == *old(self)),
            old(self).timing.is_time_kind() ==> {
                if old(self).remaining >= old(self).sample_time {
                    r === Ok(()) && final(self).remaining == old(self).remaining - old(self).sample_time
                } else {
                    r === Err(Error::ProgressCompleted) && final(self).remaining == 0
                }
            },
    {
        match self.timing {
            TimingOption::Unlimited => Ok(()),
            TimingOption::TimeConst(_) | TimingOption::TimeRatio { .. } => {
                if self.remaining >= self.sample_time {
                    self.remaining = self.remaining - self.sample_time;
                    return Ok(());
                }
                self.remaining = 0;
                Err(Error::ProgressCompleted)
            },
            TimingOption::TempoConst(_) | TimingOption::TempoRatio { .. } => Err(
                Error::TimingInvalid,
            ),
        }
    }

    /// Moves forward one step. If the duration (in beats) is reached, it
    /// returns `Error::ProgressCompleted`. The tempo value is given in beats
    /// per second.
    pub fn next_by_tempo(&mut self, tempo: SampleCalc) -> (r: SoundResult<()>)
        requires
            old(self).wf(),
            0 <= tempo <= FIXED_LIMIT,
        ensures
            final(self).wf(),
            final(self).timing == old(self).timing,
            final(self).sample_time == old(self).sample_time,
            old(self).timing matches TimingOption::Unlimited ==> (r === Ok(()) && *final(self)
                == *old(self)),
            old(self).timing.is_time_kind() ==> (r === Err(Error::TimingInvalid) && *final(self)
                == *old(self)),
            old(self).timing.is_tempo_kind() ==> {
                let step = spec_mul_fix(tempo as int, old(self).sample_time as int);
                if old(self).remaining - step <= 0 {
                    r === Err(Error::ProgressCompleted) && final(self).remaining == 0
                } else {
                    r === Ok(()) && final(self).remaining == old(self).remaining - step
                }
            },
    {
        match self.timing {
            TimingOption::Unlimited => Ok(()),
            TimingOption::TimeConst(_) | TimingOption::TimeRatio { .. } => Err(
                Error::TimingInvalid,
            ),
            TimingOption::TempoConst(_) | TimingOption::TempoRatio { .. } => {
                proof {
                    crate::math::lemma_mul_fix_bounds(
                        tempo as int,
                        old(self).sample_time as int,
                        FIXED_LIMIT as int,
                        FIXED_ONE as int,
                    );
                }
                let step = mul_fix(tempo, self.sample_time);
                self.remaining = self.remaining - step;
                if self.remaining <= 0 {
                    self.remaining = 0;
                    return Err(Error::ProgressCompleted);
                }
                Ok(())
            },
        }
    }

    /// Applies the parent's timing to calculate its own relative timing.
    /// It is used for sequence items: only the ratio variants are rescaled,
    /// and only by a parent of the same kind.
    pub fn apply_parent_timing(&mut self, parent_timing: TimingOption) -> (r: SoundResult<()>)
        requires
            old(self).wf(),
            parent_timing.wf(),
        ensures
            final(self).wf(),
            spec_parent_timing_post(*old(self), *final(self), parent_timing, r),
            final(self).sample_time == old(self).sample_time,
            final(self).remaining == old(self).remaining,
            !(r === Err(Error::SequenceEmpty)),
            !(old(self).timing.is_time_kind() || old(self).timing.is_tempo_kind()) ==> (r === Ok(
                (),
            ) && *final(self) == *old(self)),
            old(self).timing matches TimingOption::TimeConst(_) ==> (r === Ok(()) && *final(self)
                == *old(self)),
            old(self).timing matches TimingOption::TempoConst(_) ==> (r === Ok(()) && *final(self)
                == *old(self)),
            (old(self).timing matches TimingOption::TimeRatio { .. } && !(
            parent_timing.is_time_kind())) ==> (r === Err(Error::TimingInvalid) && *final(self)
                == *old(self)),
            (old(self).timing matches TimingOption::TempoRatio { .. } && !(
            parent_timing.is_tempo_kind())) ==> (r === Err(Error::TimingInvalid) && *final(self)
                == *old(self)),
            (old(self).timing matches TimingOption::TimeRatio { .. }
                && parent_timing.is_time_kind()) ==> {
                let scaled = spec_mul_fix(
                    old(self).timing.spec_duration(),
                    parent_timing.spec_duration(),
                );
                if scaled > FIXED_LIMIT {
                    r === Err(Error::Overflow) && *final(self) == *old(self)
                } else if scaled == 0 {
                    r === Err(Error::DurationInvalid) && *final(self) == *old(self)
                } else {
                    r === Ok(()) && final(self).timing == (TimingOption::TimeRatio {
                        ratio: old(self).timing.spec_time_ratio(),
                        duration: scaled as i64,
                    })
                }
            },
            (old(self).timing matches TimingOption::TempoRatio { .. }
                && parent_timing.is_tempo_kind()) ==> {
                let pd = parent_timing.spec_tempo_duration();
                let sd = old(self).timing.spec_tempo_duration();
                let dp = (sd.denominator as int) * (pd.denominator as int);
                let np = (sd.numerator as int) * (pd.numerator as int);
                if dp <= 0xffff && np <= 0xffff {
                    &&& r === Ok(())
                    &&& final(self).timing is TempoRatio
                    &&& final(self).timing.spec_tempo_ratio() == old(
                        self,
                    ).timing.spec_tempo_ratio()
                    &&& final(self).timing.spec_tempo_duration().wf()
                    &&& final(self).timing.spec_tempo_duration().numerator == np as nat
                        / crate::math::spec_gcd(np as nat, dp as nat)
                    &&& final(self).timing.spec_tempo_duration().denominator == dp as nat
                        / crate::math::spec_gcd(np as nat, dp as nat)
                } else {
                    r === Err(Error::Overflow) && *final(self) == *old(self)
                }
            },
    {
        match self.timing {
            TimingOption::Unlimited
            | TimingOption::TimeConst(_)
            | TimingOption::TempoConst(_) => Ok(()),
            TimingOption::TimeRatio { ratio, duration } => {
                let parent_duration = match parent_timing {
                    TimingOption::TimeConst(d) => d,
                    TimingOption::TimeRatio { duration: d, .. } => d,
                    _ => {
                        return Err(Error::TimingInvalid);
                    },
                };
                let scaled = match crate::math::mul_fix_checked(duration, parent_duration) {
                    Some(s) => s,
                    Option::None => {
                        return Err(Error::Overflow);
                    },
                };
                if scaled == 0 {
                    return Err(Error::DurationInvalid);
                }
                self.timing = TimingOption::TimeRatio { ratio, duration: scaled };
                Ok(())
            },
            TimingOption::TempoRatio { ratio, duration } => {
                let parent_duration = match parent_timing {
                    TimingOption::TempoConst(nv) => nv,
                    TimingOption::TempoRatio { duration: d, .. } => d,
                    _ => {
                        return Err(Error::TimingInvalid);
                    },
                };
                let new_duration = match duration.checked_mul(&parent_duration) {
                    Some(nv) => nv,
                    Option::None => {
                        return Err(Error::Overflow);
                    },
                };
                self.timing = TimingOption::TempoRatio { ratio, duration: new_duration };
                Ok(())
            },
        }
    }
}

} // verus!
