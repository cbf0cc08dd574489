//! A musical tempo, stored exactly as microseconds per beat.

use vstd::prelude::*;

use crate::time::error::TimeError;

verus! {

/// The shortest beat accepted as a beat length, in microseconds: 999 beats
/// per minute.
pub const MIN_MICROS_PER_BEAT: u64 = 60_061;

/// The longest beat accepted, in microseconds: 20 beats per minute.
pub const MAX_MICROS_PER_BEAT: u64 = 3_000_000;

/// The shortest beat a tempo holds, in microseconds: 999 beats per minute
/// rounded to the nearest microsecond, one shorter than the shortest beat
/// length accepted as such.
pub const SHORTEST_ROUNDED_BEAT: u64 = 60_060;

/// Whether a beat length, given in microseconds, lies within 20 to 999 beats
/// per minute.
///
/// 60 000 000 / micros lies between 20 and 999 exactly when micros lies
/// between 60 061 and 3 000 000.
pub open spec fn is_accepted_beat_length(micros: int) -> bool {
    MIN_MICROS_PER_BEAT <= micros <= MAX_MICROS_PER_BEAT
}

/// Whether a beat length is one a tempo can hold: a tempo of 20 to 999 beats
/// per minute, given either exactly or rounded to the nearest microsecond.
pub open spec fn is_supported_tempo(micros: int) -> bool {
    SHORTEST_ROUNDED_BEAT <= micros <= MAX_MICROS_PER_BEAT
}

/// A musical tempo, stored exactly as microseconds per beat.
///
/// Every conversion between tempo, frames and musical position is therefore
/// exact integer arithmetic. A beat is a quarter note.
#[derive(Debug, Clone, Copy, PartialEq, Eq, PartialOrd, Ord, Hash, Structural)]
pub struct Tempo {
    micros: u64,
}

impl Tempo {
    #[verifier::type_invariant]
    spec fn supported(self) -> bool {
        is_supported_tempo(self.micros as int)
    }

    /// The exact representation: microseconds per beat.
    pub closed spec fn spec_micros(self) -> u64 {
        self.micros
    }

    /// Two tempi are the same value exactly when their beat lengths are.
    pub proof fn lemma_same_tempo(self, other: Tempo)
        ensures
            self == other <==> self.spec_micros() == other.spec_micros(),
    {
    }

    fn known(micros: u64) -> (tempo: Tempo)
        requires
            is_supported_tempo(micros as int),
        ensures
            tempo.spec_micros() == micros,
    {
        Tempo { micros }
    }

    /// 120 beats per minute: 500 000 microseconds per beat, exactly.
    pub fn bpm_120() -> (tempo: Tempo)
        ensures
            tempo.spec_micros() == 500_000,
    {
        Self::known(500_000)
    }

    /// 128 beats per minute: 468 750 microseconds per beat, exactly.
    pub fn bpm_128() -> (tempo: Tempo)
        ensures
            tempo.spec_micros() == 468_750,
    {
        Self::known(468_750)
    }

    /// 174 beats per minute, to the nearest microsecond.
    pub fn bpm_174() -> (tempo: Tempo)
        ensures
            tempo.spec_micros() == 344_827,
    {
        Self::known(344_827)
    }

    /// Creates a tempo directly from microseconds per beat.
    ///
    /// Fails with `TempoOutOfRange` exactly when the value is zero or implies a
    /// tempo outside 20 to 999 beats per minute.
    pub fn from_micros_per_beat(micros: u64) -> (result: Result<Tempo, TimeError>)
        ensures
            is_accepted_beat_length(micros as int) ==> (result matches Ok(tempo)
                && tempo.spec_micros() == micros),
            !is_accepted_beat_length(micros as int) ==> result == Err::<Tempo, TimeError>(
                TimeError::TempoOutOfRange { micros_per_beat: micros },
            ),
    {
        if micros < MIN_MICROS_PER_BEAT || micros > MAX_MICROS_PER_BEAT {
            return Err(TimeError::TempoOutOfRange { micros_per_beat: micros });
        }
        Ok(Tempo { micros })
    }

    /// Creates a tempo from a beat length that a tempo of 20 to 999 beats per
    /// minute was rounded to, to the nearest microsecond: anything from the
    /// rounded length of 999 beats per minute to that of 20.
    ///
    /// Fails with `TempoOutOfRange` exactly when the length lies outside
    /// that range.
    pub fn from_rounded_beat_length(micros: u64) -> (result: Result<Tempo, TimeError>)
        ensures
            is_supported_tempo(micros as int) ==> (result matches Ok(tempo)
                && tempo.spec_micros() == micros),
            !is_supported_tempo(micros as int) ==> result == Err::<Tempo, TimeError>(
                TimeError::TempoOutOfRange { micros_per_beat: micros },
            ),
    {
        if micros < SHORTEST_ROUNDED_BEAT || micros > MAX_MICROS_PER_BEAT {
            return Err(TimeError::TempoOutOfRange { micros_per_beat: micros });
        }
        Ok(Tempo { micros })
    }

    /// Returns the exact internal representation: microseconds per beat.
    pub fn micros_per_beat(self) -> (micros: u64)
        ensures
            micros == self.spec_micros(),
            is_supported_tempo(micros as int),
    {
        proof {
            use_type_invariant(self);
        }
        self.micros
    }

    /// This tempo halved, as half-time detection produces: the beat is twice
    /// as long. Fails when that falls below 20 beats per minute.
    pub fn halved(self) -> (result: Result<Tempo, TimeError>)
        ensures
            is_accepted_beat_length(self.spec_micros() * 2) ==> (result matches Ok(tempo)
                && tempo.spec_micros() == self.spec_micros() * 2),
            !is_accepted_beat_length(self.spec_micros() * 2) ==> result == Err::<Tempo, TimeError>(
                TimeError::TempoOutOfRange { micros_per_beat: (self.spec_micros() * 2) as u64 },
            ),
    {
        let micros = self.micros_per_beat();
        Self::from_micros_per_beat(micros * 2)
    }

    /// This tempo doubled, as double-time detection produces: the beat is half
    /// as long, the odd half-microsecond dropped. Fails above 999 beats per
    /// minute.
    pub fn doubled(self) -> (result: Result<Tempo, TimeError>)
        ensures
            is_accepted_beat_length((self.spec_micros() / 2) as int) ==> (result matches Ok(tempo)
                && tempo.spec_micros() == self.spec_micros() / 2),
            !is_accepted_beat_length((self.spec_micros() / 2) as int) ==> result == Err::<Tempo, TimeError>(
                TimeError::TempoOutOfRange { micros_per_beat: self.spec_micros() / 2 },
            ),
    {
        let micros = self.micros_per_beat();
        Self::from_micros_per_beat(micros / 2)
    }
}

} // verus!
