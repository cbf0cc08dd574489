//! A validated audio sample rate.

use vstd::prelude::*;

use crate::text::{decimal, push_decimal, push_str};
use crate::time::error::TimeError;

verus! {

/// The lowest sample rate the engine accepts, in hertz.
pub const MIN_HZ: u32 = 8_000;

/// The highest sample rate the engine accepts, in hertz.
pub const MAX_HZ: u32 = 768_000;

/// A validated audio sample rate in hertz.
///
/// The value is always within 8 kHz to 768 kHz, so no conversion has to guard
/// against a rate of zero.
#[derive(Debug, Clone, Copy, PartialEq, Eq, PartialOrd, Ord, Hash, Structural)]
pub struct SampleRate {
    hz: u32,
}

/// Whether a rate is one the engine accepts.
pub open spec fn is_supported_rate(hz: int) -> bool {
    MIN_HZ <= hz <= MAX_HZ
}

impl SampleRate {
    #[verifier::type_invariant]
    spec fn supported(self) -> bool {
        is_supported_rate(self.hz as int)
    }

    /// The rate, in hertz.
    pub closed spec fn spec_hz(self) -> u32 {
        self.hz
    }

    /// Two rates are the same value exactly when their frequencies are.
    pub proof fn lemma_same_rate(self, other: SampleRate)
        ensures
            self == other <==> self.spec_hz() == other.spec_hz(),
    {
    }

    fn known(hz: u32) -> (rate: SampleRate)
        requires
            is_supported_rate(hz as int),
        ensures
            rate.spec_hz() == hz,
    {
        SampleRate { hz }
    }

    /// 44.1 kHz.
    pub fn hz_44100() -> (rate: SampleRate)
        ensures
            rate.spec_hz() == 44_100,
    {
        Self::known(44_100)
    }

    /// 48 kHz.
    pub fn hz_48000() -> (rate: SampleRate)
        ensures
            rate.spec_hz() == 48_000,
    {
        Self::known(48_000)
    }

    /// 88.2 kHz.
    pub fn hz_88200() -> (rate: SampleRate)
        ensures
            rate.spec_hz() == 88_200,
    {
        Self::known(88_200)
    }

    /// 96 kHz.
    pub fn hz_96000() -> (rate: SampleRate)
        ensures
            rate.spec_hz() == 96_000,
    {
        Self::known(96_000)
    }

    /// 176.4 kHz.
    pub fn hz_176400() -> (rate: SampleRate)
        ensures
            rate.spec_hz() == 176_400,
    {
        Self::known(176_400)
    }

    /// 192 kHz.
    pub fn hz_192000() -> (rate: SampleRate)
        ensures
            rate.spec_hz() == 192_000,
    {
        Self::known(192_000)
    }

    /// Creates a sample rate, validating that it is supported.
    ///
    /// Fails with `UnsupportedSampleRate` exactly when `hz` lies outside
    /// 8 kHz to 768 kHz.
    pub fn new(hz: u32) -> (result: Result<SampleRate, TimeError>)
        ensures
            is_supported_rate(hz as int) ==> (result matches Ok(rate) && rate.spec_hz() == hz),
            !is_supported_rate(hz as int) ==> result == Err::<SampleRate, TimeError>(
                TimeError::UnsupportedSampleRate { hz },
            ),
    {
        if hz < MIN_HZ || hz > MAX_HZ {
            return Err(TimeError::UnsupportedSampleRate { hz });
        }
        Ok(SampleRate { hz })
    }

    /// Returns the rate in hertz.
    pub fn hz(self) -> (hz: u32)
        ensures
            hz == self.spec_hz(),
            is_supported_rate(hz as int),
    {
        proof {
            use_type_invariant(self);
        }
        self.hz
    }

    /// Returns the rate in hertz as a 64-bit integer, for use in conversions.
    pub fn hz_u64(self) -> (hz: u64)
        ensures
            hz == self.spec_hz(),
            is_supported_rate(hz as int),
    {
        proof {
            use_type_invariant(self);
        }
        self.hz as u64
    }

    /// The rate as a person reads it: `<hz> Hz`.
    pub fn to_text(self) -> (text: String)
        ensures
            text@ == decimal(self.spec_hz() as int) + " Hz"@,
    {
        let mut text = String::new();
        push_decimal(&mut text, self.hz as i128);
        push_str(&mut text, " Hz");
        text
    }
}

impl TryFrom<u32> for SampleRate {
    type Error = TimeError;

    /// A supported rate, or why not: as [`SampleRate::new`].
    fn try_from(hz: u32) -> (result: Result<SampleRate, TimeError>) {
        SampleRate::new(hz)
    }
}

impl vstd::std_specs::convert::TryFromSpecImpl<u32> for SampleRate {
    open spec fn obeys_try_from_spec() -> bool {
        true
    }

    closed spec fn try_from_spec(hz: u32) -> Result<SampleRate, TimeError> {
        if is_supported_rate(hz as int) {
            Ok(SampleRate { hz })
        } else {
            Err(TimeError::UnsupportedSampleRate { hz })
        }
    }
}

} // verus!
