//! Functions which provide amplitude changes for overtones also.

use vstd::prelude::*;

use crate::errors::{Error, SoundResult};
use crate::math::{
    decay_multiplier, div_fix, lemma_mul_fix_le_one, lemma_sum_fix_element_le, mul_fix,
    spec_decay_multiplier, spec_div_fix, spec_mul_fix, spec_sum_fix,
};
use crate::timing::{spec_jump_time_post, spec_parent_timing_post, spec_restart_post, Timer, TimingOption};
use crate::{FIXED_LIMIT, FIXED_ONE, SampleCalc};

verus! {

/// The largest accepted amplitude input weight, about two hundred and fifty
/// six in fixed point.
pub const AMPLITUDE_INPUT_LIMIT: i64 = 0x100_0000_0000;

/// The largest accepted overtone count.
pub const OVERTONE_COUNT_LIMIT: usize = 0xffff;

/// A normalized per-overtone amplitude vector is valid when every entry
/// lies between zero and one.
pub open spec fn spec_amplitudes_wf(s: Seq<SampleCalc>) -> bool {
    &&& 1 <= s.len() <= OVERTONE_COUNT_LIMIT + 1
    &&& forall|i: int| 0 <= i < s.len() ==> 0 <= #[trigger] s[i] <= FIXED_ONE
}

/// The running amplitude of an exponentially decaying overtone after `k`
/// samples: the starting amplitude multiplied `k` times by the per-sample
/// multiplier, with fixed-point rounding at every step.
pub open spec fn spec_decay_amp(a0: int, multiplier: int, k: int) -> int
    decreases k,
{
    if k <= 0 {
        a0
    } else {
        spec_mul_fix(spec_decay_amp(a0, multiplier, k - 1), multiplier)
    }
}

/// A decaying amplitude never grows and never leaves `[0, 1]`: every step
/// multiplies by a factor of at most one. This is the exactly provable part
/// of exponential decay; how closely `k` halvings reach one half is a
/// numeric property checked by tests.
pub proof fn lemma_decay_amp_monotone(a0: int, multiplier: int, k: int)
    requires
        0 <= a0 <= FIXED_ONE as int,
        0 <= multiplier <= FIXED_ONE as int,
        0 <= k,
    ensures
        0 <= spec_decay_amp(a0, multiplier, k) <= a0,
        forall|j: int|
            0 <= j <= k ==> #[trigger] spec_decay_amp(a0, multiplier, j) <= FIXED_ONE as int
                && spec_decay_amp(a0, multiplier, j) >= spec_decay_amp(a0, multiplier, k),
    decreases k,
{
    if k <= 0 {
    } else {
        lemma_decay_amp_monotone(a0, multiplier, k - 1);
        lemma_mul_fix_le_one(spec_decay_amp(a0, multiplier, k - 1), multiplier);
    }
}

/// The sum of a freshly normalized amplitude vector: the stored weights of
/// a provider built from non-negative inputs with a positive sum add up to
/// one, up to one rounding step per considered input. The entries beyond
/// the considered prefix are zero and add nothing.
pub proof fn lemma_normalized_amplitudes_sum(
    stored: Seq<SampleCalc>,
    source: Seq<SampleCalc>,
    m: int,
)
    requires
        0 < m <= stored.len(),
        m <= source.len(),
        forall|i: int| 0 <= i < m ==> 0 <= #[trigger] source[i],
        spec_sum_fix(source, m) > 0,
        forall|i: int|
            0 <= i < m ==> #[trigger] stored[i] == spec_div_fix(
                source[i] as int,
                spec_sum_fix(source, m),
            ),
        forall|i: int| m <= i < stored.len() ==> #[trigger] stored[i] == 0,
    ensures
        (FIXED_ONE as int) - m < spec_sum_fix(stored, stored.len() as int) <= FIXED_ONE as int,
{
    let total = spec_sum_fix(source, m);
    crate::math::lemma_norm_sum_close_to_one(source, m);
    lemma_stored_sum_is_norm_sum(stored, source, total, m, stored.len() as int);
}

/// The sum of the stored weights equals the normalized sum of the
/// considered source prefix: prefix entries match one by one, and the tail
/// holds zeroes.
proof fn lemma_stored_sum_is_norm_sum(
    stored: Seq<SampleCalc>,
    source: Seq<SampleCalc>,
    total: int,
    m: int,
    k: int,
)
    requires
        0 <= m <= stored.len(),
        m <= k <= stored.len(),
        forall|i: int|
            0 <= i < m ==> #[trigger] stored[i] == spec_div_fix(source[i] as int, total),
        forall|i: int| m <= i < stored.len() ==> #[trigger] stored[i] == 0,
    ensures
        spec_sum_fix(stored, k) == crate::math::spec_norm_sum(source, total, m),
    decreases k,
{
    if k == m {
        lemma_stored_prefix_sum(stored, source, total, m);
    } else {
        lemma_stored_sum_is_norm_sum(stored, source, total, m, k - 1);
    }
}

/// The prefix sums match element by element.
proof fn lemma_stored_prefix_sum(
    stored: Seq<SampleCalc>,
    source: Seq<SampleCalc>,
    total: int,
    k: int,
)
    requires
        0 <= k <= stored.len(),
        forall|i: int|
            0 <= i < k ==> #[trigger] stored[i] == spec_div_fix(source[i] as int, total),
    ensures
        spec_sum_fix(stored, k) == crate::math::spec_norm_sum(source, total, k),
    decreases k,
{
    if k <= 0 {
    } else {
        lemma_stored_prefix_sum(stored, source, total, k - 1);
    }
}

/// Decaying with a unit multiplier leaves the amplitude unchanged.
pub proof fn lemma_decay_amp_one(a0: int, k: int)
    requires
        0 <= a0,
    ensures
        spec_decay_amp(a0, FIXED_ONE as int, k) == a0,
    decreases k,
{
    if k <= 0 {
    } else {
        lemma_decay_amp_one(a0, k - 1);
        vstd::arithmetic::div_mod::lemma_div_multiples_vanish(a0, FIXED_ONE as int);
    }
}

/// Checks the raw amplitude inputs and produces the normalized vector of
/// `overtone_count + 1` entries whose considered prefix sums to one, up to
/// rounding.
fn normalize_amplitudes(overtone_count: usize, amplitude: &Vec<SampleCalc>) -> (r: SoundResult<
    Vec<SampleCalc>,
>)
    requires
        overtone_count <= OVERTONE_COUNT_LIMIT,
        forall|i: int|
            0 <= i < amplitude@.len() ==> #[trigger] amplitude@[i] <= AMPLITUDE_INPUT_LIMIT,
    ensures
        ({
            let m = if amplitude@.len() <= overtone_count + 1 {
                amplitude@.len() as int
            } else {
                overtone_count + 1
            };
            &&& ((exists|i: int| 0 <= i < m && #[trigger] amplitude@[i] < 0) ==> r === Err(
                Error::AmplitudeInvalid,
            ))
            &&& ((forall|i: int| 0 <= i < m ==> #[trigger] amplitude@[i] >= 0) && spec_sum_fix(
                amplitude@,
                m,
            ) == 0 ==> r === Err(Error::AmplitudeInvalid))
            &&& ((forall|i: int| 0 <= i < m ==> #[trigger] amplitude@[i] >= 0) && spec_sum_fix(
                amplitude@,
                m,
            ) > 0 ==> (r matches Ok(v) && v@.len() == overtone_count + 1 && spec_amplitudes_wf(v@)
                && (forall|i: int|
                0 <= i < m ==> #[trigger] v@[i] == spec_div_fix(
                    amplitude@[i] as int,
                    spec_sum_fix(amplitude@, m),
                )) && (forall|i: int| m <= i < v@.len() ==> #[trigger] v@[i] == 0)))
            &&& (r is Ok ==> (forall|i: int| 0 <= i < m ==> #[trigger] amplitude@[i] >= 0)
                && spec_sum_fix(amplitude@, m) > 0)
        }),
{
    let len = amplitude.len();
    let m: usize = if len <= overtone_count + 1 {
        len
    } else {
        overtone_count + 1
    };
    let mut amplitude_sum: i64 = 0;
    let mut i: usize = 0;
    while i < m
        invariant
            0 <= i <= m <= amplitude@.len(),
            m <= overtone_count + 1,
            overtone_count <= OVERTONE_COUNT_LIMIT,
            forall|j: int|
                0 <= j < amplitude@.len() ==> #[trigger] amplitude@[j] <= AMPLITUDE_INPUT_LIMIT,
            forall|j: int| 0 <= j < i ==> #[trigger] amplitude@[j] >= 0,
            amplitude_sum == spec_sum_fix(amplitude@, i as int),
            0 <= amplitude_sum <= (i as int) * (AMPLITUDE_INPUT_LIMIT as int),
        decreases m - i,
    {
        if amplitude[i] < 0 {
            return Err(Error::AmplitudeInvalid);
        }
        proof {
            assert((i as int) * (AMPLITUDE_INPUT_LIMIT as int) + AMPLITUDE_INPUT_LIMIT == (i as int
                + 1) * (AMPLITUDE_INPUT_LIMIT as int)) by (nonlinear_arith);
        }
        amplitude_sum = amplitude_sum + amplitude[i];
        i = i + 1;
    }
    if amplitude_sum == 0 {
        return Err(Error::AmplitudeInvalid);
    }
    let mut normalized: Vec<SampleCalc> = Vec::new();
    let mut j: usize = 0;
    while j < m
        invariant
            0 <= j <= m <= amplitude@.len(),
            m <= overtone_count + 1,
            amplitude_sum == spec_sum_fix(amplitude@, m as int),
            amplitude_sum > 0,
            forall|p: int| 0 <= p < m ==> #[trigger] amplitude@[p] >= 0,
            normalized@.len() == j,
            forall|p: int|
                0 <= p < j ==> #[trigger] normalized@[p] == spec_div_fix(
                    amplitude@[p] as int,
                    amplitude_sum as int,
                ),
            forall|p: int| 0 <= p < j ==> 0 <= #[trigger] normalized@[p] <= FIXED_ONE,
        decreases m - j,
    {
        proof {
            lemma_sum_fix_element_le(amplitude@, m as int, j as int);
            vstd::arithmetic::div_mod::lemma_div_is_ordered(
                (amplitude@[j as int] as int) * (FIXED_ONE as int),
                (amplitude_sum as int) * (FIXED_ONE as int),
                amplitude_sum as int,
            );
            vstd::arithmetic::div_mod::lemma_div_multiples_vanish(
                FIXED_ONE as int,
                amplitude_sum as int,
            );
            assert((amplitude@[j as int] as int) * (FIXED_ONE as int) <= (amplitude_sum as int) * (
            FIXED_ONE as int)) by (nonlinear_arith)
                requires
                    0 <= amplitude@[j as int] <= amplitude_sum,
            ;
        }
        let value = div_fix(amplitude[j], amplitude_sum);
        normalized.push(value);
        j = j + 1;
    }
    while j < overtone_count + 1
        invariant
            m <= j <= overtone_count + 1,
            overtone_count <= OVERTONE_COUNT_LIMIT,
            m <= amplitude@.len(),
            amplitude_sum == spec_sum_fix(amplitude@, m as int),
            amplitude_sum > 0,
            forall|p: int| 0 <= p < m ==> #[trigger] amplitude@[p] >= 0,
            normalized@.len() == j,
            forall|p: int|
                0 <= p < m ==> #[trigger] normalized@[p] == spec_div_fix(
                    amplitude@[p] as int,
                    amplitude_sum as int,
                ),
            forall|p: int| m <= p < j ==> #[trigger] normalized@[p] == 0,
            forall|p: int| 0 <= p < j ==> 0 <= #[trigger] normalized@[p] <= FIXED_ONE,
        decreases overtone_count + 1 - j,
    {
        normalized.push(0);
        j = j + 1;
    }
    Ok(normalized)
}

/// Amplitude is not changing by time; this function gives the overtone
/// amplitudes too.
#[derive(Debug, Clone, PartialEq, Eq)]
pub struct AmplitudeConstOvertones {
    /// The timer for sequence use.
    pub timer: Timer,
    /// The normalized per-overtone amplitudes.
    pub amplitude: Vec<SampleCalc>,
}

impl AmplitudeConstOvertones {
    /// Validity: the timer is valid and the stored amplitudes are
    /// normalized weights.
    pub open spec fn wf(&self) -> bool {
        &&& self.timer.wf()
        &&& spec_amplitudes_wf(self.amplitude@)
    }

    /// Custom constructor. It normalizes the amplitudes, so the sum of them
    /// will be one. `overtone_count` is independent of the size of
    /// `amplitude`.
    pub fn new(
        sample_rate: SampleCalc,
        overtone_count: usize,
        amplitude: &Vec<SampleCalc>,
    ) -> (r: SoundResult<AmplitudeConstOvertones>)
        requires
            overtone_count <= OVERTONE_COUNT_LIMIT,
            forall|i: int|
                0 <= i < amplitude@.len() ==> #[trigger] amplitude@[i] <= AMPLITUDE_INPUT_LIMIT,
        ensures
            ({
                let m = if amplitude@.len() <= overtone_count + 1 {
                    amplitude@.len() as int
                } else {
                    overtone_count + 1
                };
                &&& ((exists|i: int| 0 <= i < m && #[trigger] amplitude@[i] < 0) ==> r === Err(
                    Error::AmplitudeInvalid,
                ))
                &&& ((forall|i: int| 0 <= i < m ==> #[trigger] amplitude@[i] >= 0)
                    && spec_sum_fix(amplitude@, m) == 0 ==> r === Err(Error::AmplitudeInvalid))
                &&& ((forall|i: int| 0 <= i < m ==> #[trigger] amplitude@[i] >= 0)
                    && spec_sum_fix(amplitude@, m) > 0 && sample_rate < FIXED_ONE ==> r === Err(
                    Error::SampleRateInvalid,
                ))
                &&& ((forall|i: int| 0 <= i < m ==> #[trigger] amplitude@[i] >= 0)
                    && spec_sum_fix(amplitude@, m) > 0 && sample_rate >= FIXED_ONE ==> (r matches
                    Ok(a) && a.wf() && a.amplitude@.len() == overtone_count + 1 && (forall|i: int|
                    0 <= i < m ==> #[trigger] a.amplitude@[i] == spec_div_fix(
                        amplitude@[i] as int,
                        spec_sum_fix(amplitude@, m),
                    )) && (forall|i: int|
                    m <= i < a.amplitude@.len() ==> #[trigger] a.amplitude@[i] == 0)
                    && a.timer.timing == TimingOption::Unlimited))
            }),
    {
        let normalized = match normalize_amplitudes(overtone_count, amplitude) {
            Ok(v) => v,
            Err(e) => {
                return Err(e);
            },
        };
        let timer = match Timer::new(sample_rate) {
            Ok(t) => t,
            Err(e) => {
                return Err(e);
            },
        };
        Ok(AmplitudeConstOvertones { timer, amplitude: normalized })
    }

    /// It is only for measuring time lapse. Does nothing else.
    pub fn next_chunk(&mut self, samples: usize) -> (r: SoundResult<()>)
        requires
            old(self).wf(),
        ensures
            final(self).wf(),
            final(self).amplitude == old(self).amplitude,
            spec_jump_time_post(old(self).timer, final(self).timer, samples as int, r),
    {
        self.timer.jump_by_time(samples)
    }

    /// Applies the amplitude function over existing samples for a given
    /// overtone. For the fundamental tone `overtone = 0`. It multiplies
    /// each sample with its amplitude. Overtones above the configured count
    /// are silent.
    pub fn apply(&self, overtone: usize, samples: &mut Vec<SampleCalc>) -> (r: SoundResult<()>)
        requires
            self.wf(),
            forall|i: int|
                0 <= i < old(samples)@.len() ==> -FIXED_LIMIT <= #[trigger] old(samples)@[i]
                    <= FIXED_LIMIT,
        ensures
            r === Ok(()),
            final(samples)@.len() == old(samples)@.len(),
            overtone >= self.amplitude@.len() ==> forall|i: int|
                0 <= i < final(samples)@.len() ==> #[trigger] final(samples)@[i] == 0,
            overtone < self.amplitude@.len() ==> forall|i: int|
                0 <= i < final(samples)@.len() ==> #[trigger] final(samples)@[i] == spec_mul_fix(
                    old(samples)@[i] as int,
                    self.amplitude@[overtone as int] as int,
                ),
    {
        let n = samples.len();
        if overtone >= self.amplitude.len() {
            let mut i: usize = 0;
            while i < n
                invariant
                    n == samples@.len(),
                    0 <= i <= n,
                    forall|j: int| 0 <= j < i ==> #[trigger] samples@[j] == 0,
                decreases n - i,
            {
                samples[i] = 0;
                i = i + 1;
            }
        } else {
            let amp = self.amplitude[overtone];
            let mut i: usize = 0;
            while i < n
                invariant
                    n == samples@.len(),
                    n == old(samples)@.len(),
                    0 <= i <= n,
                    0 <= amp <= FIXED_ONE,
                    amp == self.amplitude@[overtone as int],
                    overtone < self.amplitude@.len(),
                    forall|j: int|
                        0 <= j < old(samples)@.len() ==> -FIXED_LIMIT <= #[trigger] old(samples)@[j] <= FIXED_LIMIT,
                    forall|j: int| i <= j < n ==> samples@[j] == old(samples)@[j],
                    forall|j: int|
                        0 <= j < i ==> #[trigger] samples@[j] == spec_mul_fix(
                            old(samples)@[j] as int,
                            amp as int,
                        ),
                decreases n - i,
            {
                proof {
                    crate::math::lemma_mul_fix_abs_bounds(
                        samples@[i as int] as int,
                        amp as int,
                        FIXED_LIMIT as int,
                        FIXED_ONE as int,
                    );
                }
                let value = mul_fix(samples[i], amp);
                samples[i] = value;
                i = i + 1;
            }
        }
        Ok(())
    }

    /// Sets the initial amplitudes, and resets time. The input may not hold
    /// more entries than the configured count; its values must be weights
    /// in `[0, 1]` with a positive sum of at most one.
    pub fn set_amplitude_start(&mut self, amplitude: &Vec<SampleCalc>) -> (r: SoundResult<()>)
        requires
            old(self).wf(),
        ensures
            final(self).timer == old(self).timer,
            amplitude@.len() > old(self).amplitude@.len() ==> r === Err(
                Error::OvertoneCountInvalid,
            ) && *final(self) == *old(self),
            amplitude@.len() <= old(self).amplitude@.len() ==> {
                let n = amplitude@.len() as int;
                &&& ((exists|i: int|
                    0 <= i < n && !(0 <= #[trigger] amplitude@[i] <= FIXED_ONE)) ==> (r === Err(
                    Error::AmplitudeInvalid,
                ) && *final(self) == *old(self)))
                &&& ((forall|i: int| 0 <= i < n ==> 0 <= #[trigger] amplitude@[i] <= FIXED_ONE)
                    && !(0 < spec_sum_fix(amplitude@, n) <= FIXED_ONE) ==> (r === Err(
                    Error::AmplitudeInvalid,
                ) && *final(self) == *old(self)))
                &&& ((forall|i: int| 0 <= i < n ==> 0 <= #[trigger] amplitude@[i] <= FIXED_ONE)
                    && 0 < spec_sum_fix(amplitude@, n) <= FIXED_ONE ==> (r === Ok(()) && final(self).wf() && final(self).amplitude@.len() == old(self).amplitude@.len() && (forall|
                    i: int,
                |
                    0 <= i < n ==> #[trigger] final(self).amplitude@[i] == amplitude@[i]) && (
                forall|i: int|
                    n <= i < final(self).amplitude@.len() ==> #[trigger] final(self).amplitude@[i]
                        == 0)))
            },
    {
        if amplitude.len() > self.amplitude.len() {
            return Err(Error::OvertoneCountInvalid);
        }
        let n = amplitude.len();
        let mut amplitude_sum: i64 = 0;
        let mut i: usize = 0;
        while i < n
            invariant
                0 <= i <= n,
                n == amplitude@.len(),
                n <= self.amplitude@.len() <= OVERTONE_COUNT_LIMIT + 1,
                forall|j: int| 0 <= j < i ==> 0 <= #[trigger] amplitude@[j] <= FIXED_ONE,
                amplitude_sum == spec_sum_fix(amplitude@, i as int),
                0 <= amplitude_sum <= (i as int) * (FIXED_ONE as int),
            decreases n - i,
        {
            if amplitude[i] < 0 || amplitude[i] > FIXED_ONE {
                return Err(Error::AmplitudeInvalid);
            }
            proof {
                assert((i as int) * (FIXED_ONE as int) + FIXED_ONE == (i as int + 1) * (
                FIXED_ONE as int)) by (nonlinear_arith);
            }
            amplitude_sum = amplitude_sum + amplitude[i];
            i = i + 1;
        }
        if amplitude_sum == 0 || amplitude_sum > FIXED_ONE {
            return Err(Error::AmplitudeInvalid);
        }
        let total = self.amplitude.len();
        let mut j: usize = 0;
        while j < n
            invariant
                0 <= j <= n,
                n == amplitude@.len(),
                n <= total == self.amplitude@.len(),
                self.timer == old(self).timer,
                old(self).wf(),
                self.timer.wf(),
                forall|p: int| 0 <= p < n ==> 0 <= #[trigger] amplitude@[p] <= FIXED_ONE,
                forall|p: int| 0 <= p < j ==> #[trigger] self.amplitude@[p] == amplitude@[p],
                forall|p: int|
                    j <= p < total ==> #[trigger] self.amplitude@[p] == old(self).amplitude@[p],
                spec_amplitudes_wf(self.amplitude@),
            decreases n - j,
        {
            let value = amplitude[j];
            self.amplitude[j] = value;
            j = j + 1;
        }
        while j < total
            invariant
                n <= j <= total,
                n == amplitude@.len(),
                total == self.amplitude@.len(),
                self.timer == old(self).timer,
                old(self).wf(),
                self.timer.wf(),
                forall|p: int| 0 <= p < n ==> #[trigger] self.amplitude@[p] == amplitude@[p],
                forall|p: int| n <= p < j ==> #[trigger] self.amplitude@[p] == 0,
                spec_amplitudes_wf(self.amplitude@),
            decreases total - j,
        {
            self.amplitude[j] = 0;
            j = j + 1;
        }
        Ok(())
    }

    /// Provides the actual amplitude values: the stored amplitudes, the
    /// rest of the buffer zero filled.
    pub fn get_amplitudes(&self, result: &mut Vec<SampleCalc>) -> (r: SoundResult<()>)
        requires
            self.wf(),
        ensures
            old(result)@.len() < self.amplitude@.len() ==> r === Err(Error::OvertoneCountInvalid)
                && final(result)@ == old(result)@,
            old(result)@.len() >= self.amplitude@.len() ==> (r === Ok(()) && final(result)@.len()
                == old(result)@.len() && (forall|i: int|
                0 <= i < self.amplitude@.len() ==> #[trigger] final(result)@[i]
                    == self.amplitude@[i]) && (forall|i: int|
                self.amplitude@.len() <= i < final(result)@.len() ==> #[trigger] final(result)@[i] == 0)),
    {
        if result.len() < self.amplitude.len() {
            return Err(Error::OvertoneCountInvalid);
        }
        let n = self.amplitude.len();
        let total = result.len();
        let mut i: usize = 0;
        while i < n
            invariant
                0 <= i <= n,
                n == self.amplitude@.len(),
                n <= total == result@.len(),
                forall|j: int| 0 <= j < i ==> #[trigger] result@[j] == self.amplitude@[j],
            decreases n - i,
        {
            let value = self.amplitude[i];
            result[i] = value;
            i = i + 1;
        }
        while i < total
            invariant
                n <= i <= total,
                n == self.amplitude@.len(),
                total == result@.len(),
                forall|j: int| 0 <= j < n ==> #[trigger] result@[j] == self.amplitude@[j],
                forall|j: int| n <= j < i ==> #[trigger] result@[j] == 0,
            decreases total - i,
        {
            result[i] = 0;
            i = i + 1;
        }
        Ok(())
    }

    /// Sets the timing (duration), and restarts the internal timer.
    pub fn set_timing(&mut self, timing: TimingOption) -> (r: SoundResult<()>)
        requires
            old(self).wf(),
            match timing {
                TimingOption::Unlimited => true,
                TimingOption::TimeConst(d) => d <= FIXED_LIMIT,
                TimingOption::TimeRatio { ratio, duration } => duration <= FIXED_LIMIT && 0
                    <= ratio <= FIXED_LIMIT,
                TimingOption::TempoConst(nv) => nv.wf(),
                TimingOption::TempoRatio { ratio, duration } => ratio.wf() && duration.wf(),
            },
        ensures
            final(self).wf() || *final(self) == *old(self),
            final(self).amplitude == old(self).amplitude,
            (match timing {
                TimingOption::TimeConst(d) => d > 0,
                TimingOption::TimeRatio { duration, .. } => duration > 0,
                _ => true,
            }) ==> (r === Ok(()) && final(self).wf() && final(self).timer.timing == timing),
            (match timing {
                TimingOption::TimeConst(d) => d <= 0,
                TimingOption::TimeRatio { duration, .. } => duration <= 0,
                _ => false,
            }) ==> (r === Err(Error::DurationInvalid) && *final(self) == *old(self)),
    {
        match self.timer.set_timing(timing) {
            Ok(()) => {},
            Err(e) => {
                return Err(e);
            },
        }
        self.timer.restart();
        Ok(())
    }

    /// Provides the timing.
    pub fn get_timing(&self) -> (r: TimingOption)
        ensures
            r == self.timer.timing,
    {
        self.timer.get_timing()
    }

    /// Restarts the internal timer.
    pub fn restart(&mut self)
        requires
            old(self).wf(),
        ensures
            final(self).wf(),
            final(self).amplitude == old(self).amplitude,
            spec_restart_post(old(self).timer, final(self).timer),
    {
        self.timer.restart();
    }

    /// Applies the parent's timing to calculate its own relative timing.
    pub fn apply_parent_timing(&mut self, parent_timing: TimingOption) -> (r: SoundResult<()>)
        requires
            old(self).wf(),
            parent_timing.wf(),
        ensures
            final(self).wf(),
            final(self).amplitude == old(self).amplitude,
            spec_parent_timing_post(old(self).timer, final(self).timer, parent_timing, r),
    {
        self.timer.apply_parent_timing(parent_timing)
    }
}

/// The considered prefix length of an amplitude input: the input length,
/// capped at one entry per overtone and one for the fundamental.
pub open spec fn spec_considered(len: int, overtone_count: int) -> int {
    if len <= overtone_count + 1 {
        len
    } else {
        overtone_count + 1
    }
}

/// What a freshly constructed decaying-amplitude provider holds: the
/// normalized weights of the considered input prefix, and one decay
/// multiplier per overtone, derived from its half-life where one is given
/// and zero beyond the half-life list.
pub open spec fn spec_decay_new_ok(
    a: AmplitudeDecayExpOvertones,
    sample_rate: int,
    overtone_count: int,
    amplitude: Seq<SampleCalc>,
    half_life: Seq<SampleCalc>,
) -> bool {
    let m = spec_considered(amplitude.len() as int, overtone_count);
    &&& a.wf()
    &&& a.amplitude@.len() == overtone_count + 1
    &&& a.amplitude@ == a.amplitude_init@
    &&& a.sample_time == spec_div_fix(FIXED_ONE as int, sample_rate)
    &&& forall|i: int|
        0 <= i < m ==> #[trigger] a.amplitude@[i] == spec_div_fix(
            amplitude[i] as int,
            spec_sum_fix(amplitude, m),
        )
    &&& forall|i: int| m <= i < a.amplitude@.len() ==> #[trigger] a.amplitude@[i] == 0
    &&& forall|i: int|
        0 <= i < a.multiplier@.len() ==> #[trigger] a.multiplier@[i] == (if i < half_life.len() {
            spec_decay_multiplier(a.sample_time as int, half_life[i] as int)
        } else {
            0
        })
}

/// Amplitude is decaying exponentially, also for overtones.
/// Index 0 is the fundamental tone, higher indices the overtones.
#[derive(Debug, Clone, PartialEq, Eq)]
pub struct AmplitudeDecayExpOvertones {
    /// The timer for sequence use.
    pub timer: Timer,
    /// Duration of one sample.
    pub sample_time: SampleCalc,
    /// The initial normalized per-overtone amplitudes.
    pub amplitude_init: Vec<SampleCalc>,
    /// The per-sample decay multiplier of each overtone.
    pub multiplier: Vec<SampleCalc>,
    /// The running per-overtone amplitudes.
    pub amplitude: Vec<SampleCalc>,
}

impl AmplitudeDecayExpOvertones {
    /// Validity: the timer is valid, the vectors agree in length, the
    /// amplitudes are weights and the multipliers never exceed one.
    pub open spec fn wf(&self) -> bool {
        &&& self.timer.wf()
        &&& 1 <= self.sample_time <= FIXED_ONE
        &&& spec_amplitudes_wf(self.amplitude_init@)
        &&& spec_amplitudes_wf(self.amplitude@)
        &&& self.multiplier@.len() == self.amplitude@.len()
        &&& self.amplitude_init@.len() == self.amplitude@.len()
        &&& forall|i: int|
            0 <= i < self.multiplier@.len() ==> 0 <= #[trigger] self.multiplier@[i] <= FIXED_ONE
    }

    /// Custom constructor. It normalizes the amplitudes, so the sum of the
    /// starting amplitudes will be one. `half_life` is the time required to
    /// reduce an amplitude to its half; `overtone_count` is independent of
    /// the sizes of `amplitude` and `half_life`.
    pub fn new(
        sample_rate: SampleCalc,
        overtone_count: usize,
        amplitude: &Vec<SampleCalc>,
        half_life: &Vec<SampleCalc>,
    ) -> (r: SoundResult<AmplitudeDecayExpOvertones>)
        requires
            overtone_count <= OVERTONE_COUNT_LIMIT,
            forall|i: int|
                0 <= i < amplitude@.len() ==> #[trigger] amplitude@[i] <= AMPLITUDE_INPUT_LIMIT,
        ensures
            sample_rate < FIXED_ONE ==> r === Err(Error::SampleRateInvalid),
            sample_rate >= FIXED_ONE ==> ({
                let m = spec_considered(amplitude@.len() as int, overtone_count as int);
                &&& ((exists|i: int| 0 <= i < m && #[trigger] amplitude@[i] < 0) ==> r === Err(
                    Error::AmplitudeInvalid,
                ))
                &&& ((forall|i: int| 0 <= i < m ==> #[trigger] amplitude@[i] >= 0)
                    && spec_sum_fix(amplitude@, m) == 0 ==> r === Err(Error::AmplitudeInvalid))
                &&& ((forall|i: int| 0 <= i < m ==> #[trigger] amplitude@[i] >= 0)
                    && spec_sum_fix(amplitude@, m) > 0 && (exists|i: int|
                    0 <= i < half_life@.len() && #[trigger] half_life@[i] <= 0) ==> r === Err(
                    Error::AmplitudeRateInvalid,
                ))
                &&& ((forall|i: int| 0 <= i < m ==> #[trigger] amplitude@[i] >= 0)
                    && spec_sum_fix(amplitude@, m) > 0 && (forall|i: int|
                    0 <= i < half_life@.len() ==> #[trigger] half_life@[i] > 0) ==> (r matches Ok(
                    a,
                ) && a.amplitude@.len() == overtone_count + 1 && spec_decay_new_ok(
                    a,
                    sample_rate as int,
                    overtone_count as int,
                    amplitude@,
                    half_life@,
                )))
            }),
    {
        let sample_time = match crate::get_sample_time(sample_rate) {
            Ok(st) => st,
            Err(e) => {
                return Err(e);
            },
        };
        let normalized = match normalize_amplitudes(overtone_count, amplitude) {
            Ok(v) => v,
            Err(e) => {
                return Err(e);
            },
        };
        proof {
            let m = spec_considered(amplitude@.len() as int, overtone_count as int);
            assert(m == (if amplitude@.len() <= overtone_count + 1 {
                amplitude@.len() as int
            } else {
                overtone_count + 1
            }));
        }
        let mut i: usize = 0;
        let hl_len = half_life.len();
        while i < hl_len
            invariant
                0 <= i <= hl_len,
                hl_len == half_life@.len(),
                sample_rate >= FIXED_ONE,
                forall|j: int|
                    0 <= j < spec_considered(amplitude@.len() as int, overtone_count as int)
                        ==> #[trigger] amplitude@[j] >= 0,
                spec_sum_fix(
                    amplitude@,
                    spec_considered(amplitude@.len() as int, overtone_count as int),
                ) > 0,
                forall|j: int| 0 <= j < i ==> #[trigger] half_life@[j] > 0,
            decreases hl_len - i,
        {
            if half_life[i] <= 0 {
                return Err(Error::AmplitudeRateInvalid);
            }
            i = i + 1;
        }
        let count = overtone_count + 1;
        let mut multiplier: Vec<SampleCalc> = Vec::new();
        let mut j: usize = 0;
        while j < count
            invariant
                0 <= j <= count,
                count == overtone_count + 1,
                overtone_count <= OVERTONE_COUNT_LIMIT,
                hl_len == half_life@.len(),
                1 <= sample_time <= FIXED_ONE,
                forall|p: int| 0 <= p < hl_len ==> #[trigger] half_life@[p] > 0,
                multiplier@.len() == j,
                forall|p: int|
                    0 <= p < j ==> #[trigger] multiplier@[p] == (if p < half_life@.len() {
                        spec_decay_multiplier(sample_time as int, half_life@[p] as int)
                    } else {
                        0
                    }),
                forall|p: int| 0 <= p < j ==> 0 <= #[trigger] multiplier@[p] <= FIXED_ONE,
            decreases count - j,
        {
            if j < hl_len {
                let mult = decay_multiplier(sample_time, half_life[j]);
                multiplier.push(mult);
            } else {
                multiplier.push(0);
            }
            j = j + 1;
        }
        let timer = match Timer::new(sample_rate) {
            Ok(t) => t,
            Err(e) => {
                return Err(e);
            },
        };
        Ok(
            AmplitudeDecayExpOvertones {
                timer,
                sample_time,
                amplitude_init: normalized.clone(),
                multiplier,
                amplitude: normalized,
            },
        )
    }

    /// It is only for measuring time lapse. Does nothing else.
    pub fn next_chunk(&mut self, samples: usize) -> (r: SoundResult<()>)
        requires
            old(self).wf(),
        ensures
            final(self).wf(),
            final(self).amplitude == old(self).amplitude,
            final(self).amplitude_init == old(self).amplitude_init,
            final(self).multiplier == old(self).multiplier,
            final(self).sample_time == old(self).sample_time,
            spec_jump_time_post(old(self).timer, final(self).timer, samples as int, r),
    {
        self.timer.jump_by_time(samples)
    }

    /// Applies the decaying amplitude over existing samples for a given
    /// overtone: each sample first advances the decay one step, then is
    /// scaled by the running amplitude. Overtones above the configured
    /// count are silent.
    pub fn apply(&mut self, overtone: usize, samples: &mut Vec<SampleCalc>) -> (r: SoundResult<()>)
        requires
            old(self).wf(),
            forall|i: int|
                0 <= i < old(samples)@.len() ==> -FIXED_LIMIT <= #[trigger] old(samples)@[i]
                    <= FIXED_LIMIT,
        ensures
            r === Ok(()),
            final(self).wf(),
            final(samples)@.len() == old(samples)@.len(),
            overtone >= old(self).amplitude@.len() ==> (*final(self) == *old(self) && forall|
                i: int,
            | 0 <= i < final(samples)@.len() ==> #[trigger] final(samples)@[i] == 0),
            overtone < old(self).amplitude@.len() ==> {
                let a0 = old(self).amplitude@[overtone as int] as int;
                let m = old(self).multiplier@[overtone as int] as int;
                let n = old(samples)@.len() as int;
                &&& final(self).amplitude@ == old(self).amplitude@.update(
                    overtone as int,
                    spec_decay_amp(a0, m, n) as i64,
                )
                &&& *final(self) == (AmplitudeDecayExpOvertones {
                    amplitude: final(self).amplitude,
                    ..*old(self)
                })
                &&& forall|i: int|
                    0 <= i < n ==> #[trigger] final(samples)@[i] == spec_mul_fix(
                        old(samples)@[i] as int,
                        spec_decay_amp(a0, m, i + 1),
                    )
            },
    {
        let n = samples.len();
        if overtone >= self.amplitude.len() {
            let mut i: usize = 0;
            while i < n
                invariant
                    n == samples@.len(),
                    0 <= i <= n,
                    forall|j: int| 0 <= j < i ==> #[trigger] samples@[j] == 0,
                decreases n - i,
            {
                samples[i] = 0;
                i = i + 1;
            }
            return Ok(());
        }
        let mult = self.multiplier[overtone];
        let mut amp = self.amplitude[overtone];
        let ghost a0 = amp as int;
        let mut i: usize = 0;
        while i < n
            invariant
                n == samples@.len(),
                n == old(samples)@.len(),
                0 <= i <= n,
                0 <= mult <= FIXED_ONE,
                0 <= amp <= FIXED_ONE,
                0 <= a0 <= FIXED_ONE,
                amp == spec_decay_amp(a0, mult as int, i as int),
                forall|j: int|
                    0 <= j < old(samples)@.len() ==> -FIXED_LIMIT <= #[trigger] old(samples)@[j]
                        <= FIXED_LIMIT,
                forall|j: int| i <= j < n ==> samples@[j] == old(samples)@[j],
                forall|j: int|
                    0 <= j < i ==> #[trigger] samples@[j] == spec_mul_fix(
                        old(samples)@[j] as int,
                        spec_decay_amp(a0, mult as int, j + 1),
                    ),
            decreases n - i,
        {
            proof {
                lemma_mul_fix_le_one(amp as int, mult as int);
            }
            amp = mul_fix(amp, mult);
            proof {
                crate::math::lemma_mul_fix_abs_bounds(
                    samples@[i as int] as int,
                    amp as int,
                    FIXED_LIMIT as int,
                    FIXED_ONE as int,
                );
            }
            let value = mul_fix(samples[i], amp);
            samples[i] = value;
            i = i + 1;
        }
        self.amplitude[overtone] = amp;
        Ok(())
    }

    /// Sets the initial amplitudes, and resets time. The input may not hold
    /// more entries than the configured count; its values must be weights
    /// in `[0, 1]` with a positive sum of at most one.
    pub fn set_amplitude_start(&mut self, amplitude: &Vec<SampleCalc>) -> (r: SoundResult<()>)
        requires
            old(self).wf(),
        ensures
            final(self).timer == old(self).timer,
            final(self).multiplier == old(self).multiplier,
            final(self).amplitude_init == old(self).amplitude_init,
            amplitude@.len() > old(self).amplitude@.len() ==> r === Err(
                Error::OvertoneCountInvalid,
            ) && *final(self) == *old(self),
            amplitude@.len() <= old(self).amplitude@.len() ==> {
                let n = amplitude@.len() as int;
                &&& ((exists|i: int|
                    0 <= i < n && !(0 <= #[trigger] amplitude@[i] <= FIXED_ONE)) ==> (r === Err(
                    Error::AmplitudeInvalid,
                ) && *final(self) == *old(self)))
                &&& ((forall|i: int| 0 <= i < n ==> 0 <= #[trigger] amplitude@[i] <= FIXED_ONE)
                    && !(0 < spec_sum_fix(amplitude@, n) <= FIXED_ONE) ==> (r === Err(
                    Error::AmplitudeInvalid,
                ) && *final(self) == *old(self)))
                &&& ((forall|i: int| 0 <= i < n ==> 0 <= #[trigger] amplitude@[i] <= FIXED_ONE)
                    && 0 < spec_sum_fix(amplitude@, n) <= FIXED_ONE ==> (r === Ok(()) && final(self).wf() && final(self).amplitude@.len() == old(self).amplitude@.len() && (forall|
                    i: int,
                |
                    0 <= i < n ==> #[trigger] final(self).amplitude@[i] == amplitude@[i]) && (
                forall|i: int|
                    n <= i < final(self).amplitude@.len() ==> #[trigger] final(self).amplitude@[i]
                        == 0)))
            },
    {
        if amplitude.len() > self.amplitude.len() {
            return Err(Error::OvertoneCountInvalid);
        }
        let n = amplitude.len();
        let mut amplitude_sum: i64 = 0;
        let mut i: usize = 0;
        while i < n
            invariant
                0 <= i <= n,
                n == amplitude@.len(),
                n <= self.amplitude@.len() <= OVERTONE_COUNT_LIMIT + 1,
                forall|j: int| 0 <= j < i ==> 0 <= #[trigger] amplitude@[j] <= FIXED_ONE,
                amplitude_sum == spec_sum_fix(amplitude@, i as int),
                0 <= amplitude_sum <= (i as int) * (FIXED_ONE as int),
            decreases n - i,
        {
            if amplitude[i] < 0 || amplitude[i] > FIXED_ONE {
                return Err(Error::AmplitudeInvalid);
            }
            proof {
                assert((i as int) * (FIXED_ONE as int) + FIXED_ONE == (i as int + 1) * (
                FIXED_ONE as int)) by (nonlinear_arith);
            }
            amplitude_sum = amplitude_sum + amplitude[i];
            i = i + 1;
        }
        if amplitude_sum == 0 || amplitude_sum > FIXED_ONE {
            return Err(Error::AmplitudeInvalid);
        }
        let total = self.amplitude.len();
        let mut j: usize = 0;
        while j < n
            invariant
                0 <= j <= n,
                n == amplitude@.len(),
                n <= total == self.amplitude@.len(),
                self.timer == old(self).timer,
                self.multiplier == old(self).multiplier,
                self.amplitude_init == old(self).amplitude_init,
                self.sample_time == old(self).sample_time,
                old(self).wf(),
                forall|p: int| 0 <= p < n ==> 0 <= #[trigger] amplitude@[p] <= FIXED_ONE,
                forall|p: int| 0 <= p < j ==> #[trigger] self.amplitude@[p] == amplitude@[p],
                forall|p: int|
                    j <= p < total ==> #[trigger] self.amplitude@[p] == old(self).amplitude@[p],
                spec_amplitudes_wf(self.amplitude@),
            decreases n - j,
        {
            let value = amplitude[j];
            self.amplitude[j] = value;
            j = j + 1;
        }
        while j < total
            invariant
                n <= j <= total,
                n == amplitude@.len(),
                total == self.amplitude@.len(),
                self.timer == old(self).timer,
                self.multiplier == old(self).multiplier,
                self.amplitude_init == old(self).amplitude_init,
                self.sample_time == old(self).sample_time,
                old(self).wf(),
                forall|p: int| 0 <= p < n ==> #[trigger] self.amplitude@[p] == amplitude@[p],
                forall|p: int| n <= p < j ==> #[trigger] self.amplitude@[p] == 0,
                spec_amplitudes_wf(self.amplitude@),
            decreases total - j,
        {
            self.amplitude[j] = 0;
            j = j + 1;
        }
        Ok(())
    }

    /// Provides the actual amplitude values: the stored amplitudes, the
    /// rest of the buffer zero filled.
    pub fn get_amplitudes(&self, result: &mut Vec<SampleCalc>) -> (r: SoundResult<()>)
        requires
            self.wf(),
        ensures
            old(result)@.len() < self.amplitude@.len() ==> r === Err(Error::OvertoneCountInvalid)
                && final(result)@ == old(result)@,
            old(result)@.len() >= self.amplitude@.len() ==> (r === Ok(()) && final(result)@.len()
                == old(result)@.len() && (forall|i: int|
                0 <= i < self.amplitude@.len() ==> #[trigger] final(result)@[i]
                    == self.amplitude@[i]) && (forall|i: int|
                self.amplitude@.len() <= i < final(result)@.len() ==> #[trigger] final(result)@[i] == 0)),
    {
        if result.len() < self.amplitude.len() {
            return Err(Error::OvertoneCountInvalid);
        }
        let n = self.amplitude.len();
        let total = result.len();
        let mut i: usize = 0;
        while i < n
            invariant
                0 <= i <= n,
                n == self.amplitude@.len(),
                n <= total == result@.len(),
                forall|j: int| 0 <= j < i ==> #[trigger] result@[j] == self.amplitude@[j],
            decreases n - i,
        {
            let value = self.amplitude[i];
            result[i] = value;
            i = i + 1;
        }
        while i < total
            invariant
                n <= i <= total,
                n == self.amplitude@.len(),
                total == result@.len(),
                forall|j: int| 0 <= j < n ==> #[trigger] result@[j] == self.amplitude@[j],
                forall|j: int| n <= j < i ==> #[trigger] result@[j] == 0,
            decreases total - i,
        {
            result[i] = 0;
            i = i + 1;
        }
        Ok(())
    }

    /// Sets the timing (duration), and restarts: the timer is refilled and
    /// the amplitudes return to their initial values.
    pub fn set_timing(&mut self, timing: TimingOption) -> (r: SoundResult<()>)
        requires
            old(self).wf(),
            match timing {
                TimingOption::Unlimited => true,
                TimingOption::TimeConst(d) => d <= FIXED_LIMIT,
                TimingOption::TimeRatio { ratio, duration } => duration <= FIXED_LIMIT && 0
                    <= ratio <= FIXED_LIMIT,
                TimingOption::TempoConst(nv) => nv.wf(),
                TimingOption::TempoRatio { ratio, duration } => ratio.wf() && duration.wf(),
            },
        ensures
            (match timing {
                TimingOption::TimeConst(d) => d > 0,
                TimingOption::TimeRatio { duration, .. } => duration > 0,
                _ => true,
            }) ==> (r === Ok(()) && final(self).wf() && final(self).timer.timing == timing
                && final(self).amplitude@ == final(self).amplitude_init@),
            (match timing {
                TimingOption::TimeConst(d) => d <= 0,
                TimingOption::TimeRatio { duration, .. } => duration <= 0,
                _ => false,
            }) ==> (r === Err(Error::DurationInvalid) && *final(self) == *old(self)),
    {
        match self.timer.set_timing(timing) {
            Ok(()) => {},
            Err(e) => {
                return Err(e);
            },
        }
        self.restart();
        Ok(())
    }

    /// Provides the timing.
    pub fn get_timing(&self) -> (r: TimingOption)
        ensures
            r == self.timer.timing,
    {
        self.timer.get_timing()
    }

    /// Restarts the internal timer and resets the running amplitudes to
    /// their initial values.
    pub fn restart(&mut self)
        requires
            old(self).wf(),
        ensures
            final(self).wf(),
            final(self).amplitude@ == final(self).amplitude_init@,
            final(self).amplitude_init == old(self).amplitude_init,
            final(self).multiplier == old(self).multiplier,
            final(self).sample_time == old(self).sample_time,
            spec_restart_post(old(self).timer, final(self).timer),
            final(self).timer.timing == old(self).timer.timing,
            final(self).timer.sample_time == old(self).timer.sample_time,
    {
        self.timer.restart();
        let n = self.amplitude.len();
        let mut i: usize = 0;
        while i < n
            invariant
                0 <= i <= n,
                n == self.amplitude@.len(),
                n == self.amplitude_init@.len(),
                self.amplitude_init == old(self).amplitude_init,
                self.multiplier == old(self).multiplier,
                self.sample_time == old(self).sample_time,
                spec_restart_post(old(self).timer, self.timer),
                self.timer.timing == old(self).timer.timing,
                self.timer.sample_time == old(self).timer.sample_time,
                old(self).wf(),
                self.timer.wf(),
                spec_amplitudes_wf(self.amplitude@),
                spec_amplitudes_wf(self.amplitude_init@),
                forall|j: int|
                    0 <= j < i ==> #[trigger] self.amplitude@[j] == self.amplitude_init@[j],
            decreases n - i,
        {
            let value = self.amplitude_init[i];
            self.amplitude[i] = value;
            i = i + 1;
        }
        proof {
            assert(self.amplitude@ =~= self.amplitude_init@);
        }
    }

    /// Applies the parent's timing to calculate its own relative timing.
    pub fn apply_parent_timing(&mut self, parent_timing: TimingOption) -> (r: SoundResult<()>)
        requires
            old(self).wf(),
            parent_timing.wf(),
        ensures
            final(self).wf(),
            final(self).amplitude == old(self).amplitude,
            final(self).amplitude_init == old(self).amplitude_init,
            final(self).multiplier == old(self).multiplier,
            final(self).sample_time == old(self).sample_time,
            spec_parent_timing_post(old(self).timer, final(self).timer, parent_timing, r),
    {
        self.timer.apply_parent_timing(parent_timing)
    }
}

/// The closed set of per-overtone amplitude providers: constant weights, or
/// exponentially decaying weights.
#[derive(Debug, Clone, PartialEq, Eq)]
pub enum AmplitudeOvertonesProvider {
    /// Constant per-overtone amplitudes.
    Const(AmplitudeConstOvertones),
    /// Exponentially decaying per-overtone amplitudes.
    DecayExp(AmplitudeDecayExpOvertones),
}

impl AmplitudeOvertonesProvider {
    /// Validity of the inner provider.
    pub open spec fn wf(&self) -> bool {
        match *self {
            AmplitudeOvertonesProvider::Const(a) => a.wf(),
            AmplitudeOvertonesProvider::DecayExp(a) => a.wf(),
        }
    }

    /// The running per-overtone amplitudes of the provider.
    pub open spec fn spec_amp_view(&self) -> Seq<SampleCalc> {
        match *self {
            AmplitudeOvertonesProvider::Const(a) => a.amplitude@,
            AmplitudeOvertonesProvider::DecayExp(a) => a.amplitude@,
        }
    }

    /// The per-overtone decay multipliers: one for the decaying provider,
    /// and exactly one (no decay) for the constant provider.
    pub open spec fn spec_mult_view(&self) -> Seq<SampleCalc> {
        match *self {
            AmplitudeOvertonesProvider::Const(a) => Seq::new(a.amplitude@.len(), |i: int| FIXED_ONE),
            AmplitudeOvertonesProvider::DecayExp(a) => a.multiplier@,
        }
    }

    /// The factor applied to the sample at index `k` of a buffer, for the
    /// given overtone: the overtone's weight, decayed `k + 1` steps; zero
    /// above the configured overtone count.
    pub open spec fn spec_apply_factor(&self, overtone: int, k: int) -> int {
        if 0 <= overtone < self.spec_amp_view().len() {
            spec_decay_amp(
                self.spec_amp_view()[overtone] as int,
                self.spec_mult_view()[overtone] as int,
                k + 1,
            )
        } else {
            0
        }
    }

    /// The running amplitudes after one `apply` call for the given overtone
    /// over a buffer of `n` samples.
    pub open spec fn spec_amp_after(&self, overtone: int, n: int) -> Seq<SampleCalc> {
        match *self {
            AmplitudeOvertonesProvider::Const(a) => a.amplitude@,
            AmplitudeOvertonesProvider::DecayExp(a) => if 0 <= overtone < a.amplitude@.len() {
                a.amplitude@.update(
                    overtone,
                    spec_decay_amp(
                        a.amplitude@[overtone] as int,
                        a.multiplier@[overtone] as int,
                        n,
                    ) as i64,
                )
            } else {
                a.amplitude@
            },
        }
    }

    /// Whether two provider values agree on everything but the running
    /// amplitudes: the variant, the timer, the sample time, the initial
    /// amplitudes and the multipliers.
    pub open spec fn spec_same_but_amplitude(&self, other: &AmplitudeOvertonesProvider) -> bool {
        match (self, other) {
            (AmplitudeOvertonesProvider::Const(a), AmplitudeOvertonesProvider::Const(b)) => a == b,
            (
                AmplitudeOvertonesProvider::DecayExp(a),
                AmplitudeOvertonesProvider::DecayExp(b),
            ) => a.timer == b.timer && a.sample_time == b.sample_time && a.amplitude_init
                == b.amplitude_init && a.multiplier == b.multiplier && a.amplitude@.len()
                == b.amplitude@.len(),
            _ => false,
        }
    }

    /// Applies the amplitude function over existing samples for a given
    /// overtone: each sample is multiplied by the overtone's momentary
    /// weight.
    pub fn apply(&mut self, overtone: usize, samples: &mut Vec<SampleCalc>) -> (r: SoundResult<()>)
        requires
            old(self).wf(),
            forall|i: int|
                0 <= i < old(samples)@.len() ==> -FIXED_LIMIT <= #[trigger] old(samples)@[i]
                    <= FIXED_LIMIT,
        ensures
            r === Ok(()),
            final(self).wf(),
            final(samples)@.len() == old(samples)@.len(),
            final(self).spec_amp_view() == old(self).spec_amp_after(
                overtone as int,
                old(samples)@.len() as int,
            ),
            final(self).spec_amp_view().len() == old(self).spec_amp_view().len(),
            final(self).spec_mult_view() == old(self).spec_mult_view(),
            old(self).spec_same_but_amplitude(final(self)),
            forall|i: int|
                0 <= i < final(samples)@.len() ==> #[trigger] final(samples)@[i] == spec_mul_fix(
                    old(samples)@[i] as int,
                    old(self).spec_apply_factor(overtone as int, i),
                ),
    {
        match self {
            AmplitudeOvertonesProvider::Const(a) => {
                let r = a.apply(overtone, samples);
                proof {
                    if (overtone as int) < a.amplitude@.len() {
                        assert forall|i: int| 0 <= i implies #[trigger] spec_decay_amp(
                            a.amplitude@[overtone as int] as int,
                            FIXED_ONE as int,
                            i + 1,
                        ) == a.amplitude@[overtone as int] as int by {
                            lemma_decay_amp_one(a.amplitude@[overtone as int] as int, i + 1);
                        }
                    }
                }
                r
            },
            AmplitudeOvertonesProvider::DecayExp(a) => a.apply(overtone, samples),
        }
    }

    /// The internal timer of the provider.
    pub open spec fn spec_timer(&self) -> Timer {
        match *self {
            AmplitudeOvertonesProvider::Const(a) => a.timer,
            AmplitudeOvertonesProvider::DecayExp(a) => a.timer,
        }
    }

    /// The initial per-overtone amplitudes a restart returns to: the fixed
    /// weights of the constant provider, the normalized starting weights of
    /// the decaying one.
    pub open spec fn spec_init_view(&self) -> Seq<SampleCalc> {
        match *self {
            AmplitudeOvertonesProvider::Const(a) => a.amplitude@,
            AmplitudeOvertonesProvider::DecayExp(a) => a.amplitude_init@,
        }
    }

    /// It is only for measuring time lapse: the internal timer is drained
    /// by the sample count; the amplitudes are untouched.
    pub fn next_chunk(&mut self, samples: usize) -> (r: SoundResult<()>)
        requires
            old(self).wf(),
        ensures
            final(self).wf(),
            (*final(self)) is Const == (*old(self)) is Const,
            final(self).spec_amp_view() == old(self).spec_amp_view(),
            final(self).spec_init_view() == old(self).spec_init_view(),
            final(self).spec_mult_view() == old(self).spec_mult_view(),
            spec_jump_time_post(old(self).spec_timer(), final(self).spec_timer(), samples as int, r),
    {
        match self {
            AmplitudeOvertonesProvider::Const(a) => a.next_chunk(samples),
            AmplitudeOvertonesProvider::DecayExp(a) => a.next_chunk(samples),
        }
    }

    /// Restarts the provider: the running amplitudes return to the initial
    /// weights and the internal timer is refilled.
    pub fn restart(&mut self)
        requires
            old(self).wf(),
        ensures
            final(self).wf(),
            final(self).spec_amp_view() == old(self).spec_init_view(),
            final(self).spec_init_view() == old(self).spec_init_view(),
            final(self).spec_mult_view() == old(self).spec_mult_view(),
            spec_restart_post(old(self).spec_timer(), final(self).spec_timer()),
    {
        match self {
            AmplitudeOvertonesProvider::Const(a) => a.restart(),
            AmplitudeOvertonesProvider::DecayExp(a) => a.restart(),
        }
    }

    /// Applies the parent's timing to calculate its own relative timing;
    /// the amplitudes are untouched.
    pub fn apply_parent_timing(&mut self, parent_timing: TimingOption) -> (r: SoundResult<()>)
        requires
            old(self).wf(),
            parent_timing.wf(),
        ensures
            final(self).wf(),
            final(self).spec_amp_view() == old(self).spec_amp_view(),
            final(self).spec_init_view() == old(self).spec_init_view(),
            spec_parent_timing_post(
                old(self).spec_timer(),
                final(self).spec_timer(),
                parent_timing,
                r,
            ),
    {
        match self {
            AmplitudeOvertonesProvider::Const(a) => a.apply_parent_timing(parent_timing),
            AmplitudeOvertonesProvider::DecayExp(a) => a.apply_parent_timing(parent_timing),
        }
    }
}

} // verus!
