//! Additive sound synthesis with rational frequency intervals.
//!
//! The engine composes frequency providers, amplitude providers and sinusoidal
//! wave generators into complete timbres, mixes them, and tracks musical time.
//! All per-sample arithmetic is carried out in signed 32.32 fixed point, so the
//! numeric behaviour of every component is stated exactly in its contract.

use vstd::prelude::*;

pub mod amplitude;
pub mod amplitude_overtones;
pub mod errors;
pub mod frequency;
pub mod interval;
pub mod math;
pub mod progress;
pub mod rhythm;
pub mod timing;
pub mod wave;

verus! {

/// Precision of calculations: a signed fixed-point number with 32 fractional
/// bits. The value `x` stands for the real number `x / 2^32`.
pub type SampleCalc = i64;

/// The fixed-point representation of `1.0`: one whole unit, `2^32`.
pub const FIXED_ONE: i64 = 0x1_0000_0000;

/// The fixed-point representation of 2 x pi, the full circle in radians.
pub const PI2: i64 = 26986075410;

/// The fixed-point representation of pi. `PI2 == 2 * PI_FIX` exactly, which
/// keeps phase folding consistent between half-turn and full-turn reductions.
pub const PI_FIX: i64 = 13493037705;

/// = 3 Hz in fixed point, the lowest perceivable tone frequency.
/// Tones below it are not calculated.
pub const TONE_FREQUENCY_MIN: i64 = 12884901888;

/// = 28 kHz in fixed point, the highest perceivable tone frequency.
/// Overtones above it are filtered out from calculations.
pub const TONE_FREQUENCY_MAX: i64 = 120259084288000;

/// Sample count for calculations. It affects both latency and computation
/// performance.
pub const BUFFER_SIZE_DEFAULT: usize = 512;

/// = 192 kHz, a sample rate high enough for the time resolution human
/// listeners can discern.
pub const SAMPLE_RATE_DEFAULT: u32 = 192_000;

/// A bound on the magnitude of every stored fixed-point value of the library.
/// It leaves room for products of two stored values to be computed in 128 bits
/// and scaled back without overflow.
pub const FIXED_LIMIT: i64 = 0x1_0000_0000_0000;

/// Sound sample generator for output (playback). It can also take real-time
/// input (commands), thus musical instruments can be realized with it.
pub trait SoundGenerator {
    /// Message type.
    type Command;

    /// Get the next `sample_count` amount of samples, put them in `result`.
    fn get_samples(&mut self, sample_count: usize, result: &mut Vec<SampleCalc>);

    /// Send a message to the `SoundGenerator`.
    fn process_command(&mut self, command: Self::Command);
}

/// Calculates the period of one sample for the given sample rate.
/// Sample rates below `1.0` are considered to be invalid.
pub fn get_sample_time(sample_rate: SampleCalc) -> (r: Result<SampleCalc, crate::errors::Error>)
    ensures
        sample_rate >= FIXED_ONE ==> (r matches Ok(st) && st == crate::math::spec_div_fix(
            FIXED_ONE as int,
            sample_rate as int,
        ) && 0 < st <= FIXED_ONE),
        sample_rate < FIXED_ONE ==> r === Err(crate::errors::Error::SampleRateInvalid),
{
    if sample_rate < FIXED_ONE {
        Err(crate::errors::Error::SampleRateInvalid)
    } else {
        proof {
            vstd::arithmetic::div_mod::lemma_div_is_ordered_by_denominator(
                (FIXED_ONE as int) * (FIXED_ONE as int),
                FIXED_ONE as int,
                sample_rate as int,
            );
            vstd::arithmetic::div_mod::lemma_div_multiples_vanish(FIXED_ONE as int, FIXED_ONE as int);
            vstd::arithmetic::div_mod::lemma_div_is_ordered_by_denominator(
                (FIXED_ONE as int) * (FIXED_ONE as int),
                sample_rate as int,
                (FIXED_ONE as int) * (FIXED_ONE as int),
            );
            vstd::arithmetic::div_mod::lemma_div_by_self((FIXED_ONE as int) * (FIXED_ONE as int));
        }
        Ok(crate::math::div_fix(FIXED_ONE, sample_rate))
    }
}

} // verus!
