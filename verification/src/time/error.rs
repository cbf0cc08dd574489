//! Errors produced when constructing musical time values from untrusted input.

use vstd::prelude::*;

use crate::text::{decimal, push_decimal, push_str};

verus! {

/// Why a musical time value could not be built.
///
/// Every variant names the offending value, so that a diagnostic can explain
/// the problem rather than report a bare failure. A tempo is named by its exact
/// representation, microseconds per beat; beats per minute is a display value
/// derived from it at the edge.
#[derive(Debug, Clone, Copy, PartialEq, Eq, Structural)]
pub enum TimeError {
    /// A sample rate outside 8 kHz to 768 kHz, zero included.
    UnsupportedSampleRate {
        /// The rejected value, in hertz.
        hz: u32,
    },
    /// A tempo outside 20 to 999 beats per minute.
    TempoOutOfRange {
        /// The rejected value, in microseconds per beat (zero is an infinite tempo).
        micros_per_beat: u64,
    },
    /// A tempo that is not a finite number.
    TempoNotFinite,
    /// A time signature numerator of zero.
    InvalidSignatureNumerator {
        /// The rejected numerator.
        numerator: u8,
    },
    /// A time signature denominator that is not a power of two between 1 and 32.
    InvalidSignatureDenominator {
        /// The rejected denominator.
        denominator: u8,
    },
    /// A conversion whose result does not fit the target representation.
    ConversionOverflow,
}

/// How a time error reads.
pub open spec fn time_error_text(error: TimeError) -> Seq<char> {
    match error {
        TimeError::UnsupportedSampleRate { hz } => "unsupported sample rate: "@ + decimal(hz as int)
            + " Hz"@,
        TimeError::TempoOutOfRange { micros_per_beat } => "tempo out of range: "@ + decimal(
            micros_per_beat as int,
        ) + " microseconds per beat"@,
        TimeError::TempoNotFinite => "tempo is not a finite number"@,
        TimeError::InvalidSignatureNumerator { numerator } => "invalid time signature numerator: "@
            + decimal(numerator as int),
        TimeError::InvalidSignatureDenominator { denominator } =>
            "invalid time signature denominator: "@ + decimal(denominator as int)
            + " (must be a power of two, 1 to 32)"@,
        TimeError::ConversionOverflow => "time conversion overflowed"@,
    }
}

impl TimeError {
    /// The error as a person reads it.
    pub fn to_text(self) -> (text: String)
        ensures
            text@ == time_error_text(self),
    {
        let mut text = String::new();
        match self {
            TimeError::UnsupportedSampleRate { hz } => {
                push_str(&mut text, "unsupported sample rate: ");
                push_decimal(&mut text, hz as i128);
                push_str(&mut text, " Hz");
            },
            TimeError::TempoOutOfRange { micros_per_beat } => {
                push_str(&mut text, "tempo out of range: ");
                push_decimal(&mut text, micros_per_beat as i128);
                push_str(&mut text, " microseconds per beat");
            },
            TimeError::TempoNotFinite => {
                push_str(&mut text, "tempo is not a finite number");
            },
            TimeError::InvalidSignatureNumerator { numerator } => {
                push_str(&mut text, "invalid time signature numerator: ");
                push_decimal(&mut text, numerator as i128);
            },
            TimeError::InvalidSignatureDenominator { denominator } => {
                push_str(&mut text, "invalid time signature denominator: ");
                push_decimal(&mut text, denominator as i128);
                push_str(&mut text, " (must be a power of two, 1 to 32)");
            },
            TimeError::ConversionOverflow => {
                push_str(&mut text, "time conversion overflowed");
            },
        }
        assert(text@ =~= time_error_text(self));
        text
    }
}

} // verus!
