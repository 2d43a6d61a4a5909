//! Error values of the sound module.

use vstd::prelude::*;

verus! {

/// Return type for the sound module functions.
pub type SoundResult<T> = Result<T, Error>;

/// Error types of the sound module.
#[derive(Debug, Clone, Copy, PartialEq, Eq, Structural)]
pub enum Error {
    /// Invalid sample rate.
    SampleRateInvalid,
    /// Invalid buffer size for the given sample count.
    BufferSize,
    /// Overtone count does not match the reserved array size.
    OvertoneCountInvalid,
    /// Numerator cannot be 0, because frequencies can not be 0.
    NumeratorInvalid,
    /// Denominator cannot be 0 (division by zero error).
    DenominatorInvalid,
    /// The frequency is below the hearing range.
    FrequencyTooLow,
    /// The frequency exceeds the hearing range.
    FrequencyTooHigh,
    /// Frequency can not be zero or negative.
    FrequencyInvalid,
    /// This frequency function is a source, it can not use an input frequency
    /// buffer.
    FrequencySource,
    /// A rate must be positive.
    RateInvalid,
    /// Amplitude cannot be negative.
    AmplitudeInvalid,
    /// Amplitude change time is not positive.
    AmplitudeTimeInvalid,
    /// Amplitude change rate is out of the range allowed for the given
    /// function.
    AmplitudeRateInvalid,
    /// A time period must be positive.
    PeriodInvalid,
    /// A time duration must be positive.
    DurationInvalid,
    /// Channel of the given number does not exist.
    ChannelInvalid,
    /// Beats per minute must be positive.
    TempoInvalid,
    /// Timing option does not match the method.
    TimingInvalid,
    /// The selected progress option is invalid for this case.
    ProgressInvalid,
    /// Progress is finished.
    ProgressCompleted,
    /// The number of items completed in an unfinished buffer operation.
    ItemsCompleted(usize),
    /// The Sequence has no items.
    SequenceEmpty,
    /// Item at the given index does not exist.
    ItemInvalid,
    /// Overflow occured during calculations.
    Overflow,
}

} // verus!
