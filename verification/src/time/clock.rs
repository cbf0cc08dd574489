//! The authoritative transport clock.

use vstd::prelude::*;

use crate::time::conversion::{
    div_round_nearest, division_bound, lemma_round_div_bounded, lemma_round_div_zero, lemma_ticks_frames_ticks,
    lemma_wide_conversion_products, round_div, saturate_to_i64, MICROS_PER_SECOND,
};
use crate::time::frames::{clamp_i64, saturating_add_i64, Frames};
use crate::time::musical_time::{MusicalTime, Ticks, TICKS_PER_BEAT};
use crate::time::sample_rate::SampleRate;
use crate::time::signature::{compose, decompose, TimeSignature};
use crate::time::tempo::Tempo;

verus! {

/// An absolute frame position converted to ticks, measured from an anchor at
/// which the current tempo took effect.
pub open spec fn anchored_ticks(
    position: int,
    anchor_frames: int,
    anchor_ticks: int,
    hz: int,
    micros: int,
) -> int {
    clamp_i64(
        round_div((position - anchor_frames) * MICROS_PER_SECOND * 3840, hz * micros)
            + anchor_ticks,
    )
}

/// An absolute tick position converted to frames, measured from an anchor.
pub open spec fn anchored_frames(
    ticks: int,
    anchor_frames: int,
    anchor_ticks: int,
    hz: int,
    micros: int,
) -> int {
    clamp_i64(
        round_div((ticks - anchor_ticks) * hz * micros, MICROS_PER_SECOND * 3840)
            + anchor_frames,
    )
}

/// An immutable view of transport state at one instant.
#[derive(Debug, Clone, Copy, PartialEq, Eq, Structural)]
pub struct TransportSnapshot {
    /// Absolute playback position in sample frames. Authoritative.
    pub position: Frames,
    /// Playback position in musical ticks, derived exactly from `position`.
    pub ticks: Ticks,
    /// Playback position decomposed into bar, beat and tick.
    pub musical: MusicalTime,
    /// Tempo in effect at this instant.
    pub tempo: Tempo,
    /// Time signature in effect at this instant.
    pub signature: TimeSignature,
    /// Sample rate in effect at this instant.
    pub sample_rate: SampleRate,
}

/// The authoritative transport clock.
///
/// Position is an exact integer count of frames; musical position is computed
/// from it on demand. The clock keeps an anchor — the frame and tick at which
/// the current tempo took effect — so a tempo change re-anchors at the current
/// instant instead of reinterpreting the timeline.
#[derive(Debug, Clone, Copy, PartialEq, Eq, Structural)]
pub struct TransportClock {
    sample_rate: SampleRate,
    tempo: Tempo,
    signature: TimeSignature,
    position: Frames,
    anchor_frames: Frames,
    anchor_ticks: Ticks,
}

impl TransportClock {
    /// The sample rate in effect.
    pub closed spec fn spec_sample_rate(self) -> SampleRate {
        self.sample_rate
    }

    /// The tempo in effect.
    pub closed spec fn spec_tempo(self) -> Tempo {
        self.tempo
    }

    /// The time signature in effect.
    pub closed spec fn spec_signature(self) -> TimeSignature {
        self.signature
    }

    /// The position, in frames.
    pub closed spec fn spec_position(self) -> i64 {
        self.position.0
    }

    /// The frame at which the current tempo took effect.
    pub closed spec fn spec_anchor_frames(self) -> i64 {
        self.anchor_frames.0
    }

    /// The tick at which the current tempo took effect.
    pub closed spec fn spec_anchor_ticks(self) -> i64 {
        self.anchor_ticks.0
    }

    /// Two clocks are the same value exactly when every part is.
    pub proof fn lemma_same_clock(self, other: TransportClock)
        ensures
            self == other <==> (self.spec_sample_rate() == other.spec_sample_rate()
                && self.spec_tempo() == other.spec_tempo() && self.spec_signature()
                == other.spec_signature() && self.spec_position() == other.spec_position()
                && self.spec_anchor_frames() == other.spec_anchor_frames()
                && self.spec_anchor_ticks() == other.spec_anchor_ticks()),
    {
    }

    /// An absolute frame position in ticks, under this clock's tempo and anchor.
    pub open spec fn spec_frames_to_ticks(self, position: int) -> int {
        anchored_ticks(
            position,
            self.spec_anchor_frames() as int,
            self.spec_anchor_ticks() as int,
            self.spec_sample_rate().spec_hz() as int,
            self.spec_tempo().spec_micros() as int,
        )
    }

    /// An absolute tick position in frames, under this clock's tempo and anchor.
    pub open spec fn spec_ticks_to_frames(self, ticks: int) -> int {
        anchored_frames(
            ticks,
            self.spec_anchor_frames() as int,
            self.spec_anchor_ticks() as int,
            self.spec_sample_rate().spec_hz() as int,
            self.spec_tempo().spec_micros() as int,
        )
    }

    /// The current position in ticks.
    pub open spec fn spec_ticks(self) -> int {
        self.spec_frames_to_ticks(self.spec_position() as int)
    }

    /// The current position as bar, beat and tick.
    pub open spec fn spec_musical(self) -> MusicalTime {
        decompose(self.spec_ticks(), self.spec_signature().spec_ticks_per_bar())
    }

    /// Creates a clock at position zero, anchored at the origin.
    pub fn new(sample_rate: SampleRate, tempo: Tempo, signature: TimeSignature) -> (clock:
        TransportClock)
        ensures
            clock.spec_sample_rate() == sample_rate,
            clock.spec_tempo() == tempo,
            clock.spec_signature() == signature,
            clock.spec_position() == 0,
            clock.spec_anchor_frames() == 0,
            clock.spec_anchor_ticks() == 0,
    {
        TransportClock {
            sample_rate,
            tempo,
            signature,
            position: Frames(0),
            anchor_frames: Frames(0),
            anchor_ticks: Ticks(0),
        }
    }

    /// Advances the clock by a number of frames, saturating. Nothing else
    /// changes, so however the frames are split into blocks the clock lands in
    /// the same place.
    pub fn advance(&mut self, frames: u32)
        ensures
            final(self).spec_position() == clamp_i64(old(self).spec_position() + frames),
            final(self).spec_sample_rate() == old(self).spec_sample_rate(),
            final(self).spec_tempo() == old(self).spec_tempo(),
            final(self).spec_signature() == old(self).spec_signature(),
            final(self).spec_anchor_frames() == old(self).spec_anchor_frames(),
            final(self).spec_anchor_ticks() == old(self).spec_anchor_ticks(),
    {
        self.position = Frames(saturating_add_i64(self.position.0, frames as i64));
    }

    /// Moves the clock to an absolute frame position.
    pub fn seek(&mut self, position: Frames)
        ensures
            final(self).spec_position() == position.0,
            final(self).spec_sample_rate() == old(self).spec_sample_rate(),
            final(self).spec_tempo() == old(self).spec_tempo(),
            final(self).spec_signature() == old(self).spec_signature(),
            final(self).spec_anchor_frames() == old(self).spec_anchor_frames(),
            final(self).spec_anchor_ticks() == old(self).spec_anchor_ticks(),
    {
        self.position = position;
    }

    /// Moves the clock to an absolute musical position, rounded to the nearest
    /// frame.
    pub fn seek_musical(&mut self, position: MusicalTime)
        ensures
            final(self).spec_position() == old(self).spec_ticks_to_frames(
                compose(position, old(self).spec_signature().spec_ticks_per_bar()),
            ),
            final(self).spec_sample_rate() == old(self).spec_sample_rate(),
            final(self).spec_tempo() == old(self).spec_tempo(),
            final(self).spec_signature() == old(self).spec_signature(),
            final(self).spec_anchor_frames() == old(self).spec_anchor_frames(),
            final(self).spec_anchor_ticks() == old(self).spec_anchor_ticks(),
    {
        let ticks = self.signature.musical_to_ticks(position);
        self.position = self.ticks_to_frames(ticks);
    }

    /// The current position in frames. Authoritative.
    pub fn position(self) -> (position: Frames)
        ensures
            position.0 == self.spec_position(),
    {
        self.position
    }

    /// The current position in musical ticks.
    pub fn ticks(self) -> (ticks: Ticks)
        ensures
            ticks.0 == self.spec_ticks(),
    {
        self.frames_to_ticks(self.position)
    }

    /// The current position decomposed into bar, beat and tick.
    pub fn musical_position(self) -> (position: MusicalTime)
        ensures
            position == self.spec_musical(),
    {
        self.signature.ticks_to_musical(self.ticks())
    }

    /// The tempo in effect.
    pub fn tempo(self) -> (tempo: Tempo)
        ensures
            tempo == self.spec_tempo(),
    {
        self.tempo
    }

    /// The time signature in effect.
    pub fn signature(self) -> (signature: TimeSignature)
        ensures
            signature == self.spec_signature(),
    {
        self.signature
    }

    /// The sample rate in effect.
    pub fn sample_rate(self) -> (sample_rate: SampleRate)
        ensures
            sample_rate == self.spec_sample_rate(),
    {
        self.sample_rate
    }

    /// Changes the tempo from the current instant onward, re-anchoring so that
    /// the musical position being heard is preserved.
    pub fn set_tempo(&mut self, tempo: Tempo)
        ensures
            final(self).spec_tempo() == tempo,
            final(self).spec_ticks() == old(self).spec_ticks(),
            final(self).spec_anchor_ticks() == old(self).spec_ticks(),
            final(self).spec_anchor_frames() == old(self).spec_position(),
            final(self).spec_position() == old(self).spec_position(),
            final(self).spec_sample_rate() == old(self).spec_sample_rate(),
            final(self).spec_signature() == old(self).spec_signature(),
    {
        // Reading the rate and the tempo brings their supported ranges into
        // the proof below.
        let _hz: u64 = self.sample_rate.hz_u64();
        let _micros: u64 = tempo.micros_per_beat();
        self.anchor_ticks = self.ticks();
        self.anchor_frames = self.position;
        self.tempo = tempo;
        proof {
            let hz = self.sample_rate.spec_hz() as int;
            let micros = tempo.spec_micros() as int;
            lemma_wide_conversion_products(0, hz, micros);
            lemma_round_div_zero(hz * micros);
        }
    }

    /// Changes the time signature. Playback position does not move.
    pub fn set_signature(&mut self, signature: TimeSignature)
        ensures
            final(self).spec_signature() == signature,
            final(self).spec_tempo() == old(self).spec_tempo(),
            final(self).spec_anchor_ticks() == old(self).spec_anchor_ticks(),
            final(self).spec_anchor_frames() == old(self).spec_anchor_frames(),
            final(self).spec_position() == old(self).spec_position(),
            final(self).spec_sample_rate() == old(self).spec_sample_rate(),
    {
        self.signature = signature;
    }

    /// Changes the sample rate, preserving musical position: the current tick
    /// is converted to frames at the new rate and becomes the new anchor.
    pub fn set_sample_rate(&mut self, sample_rate: SampleRate)
        ensures
            final(self).spec_sample_rate() == sample_rate,
            final(self).spec_tempo() == old(self).spec_tempo(),
            final(self).spec_signature() == old(self).spec_signature(),
            final(self).spec_anchor_ticks() == old(self).spec_ticks(),
            final(self).spec_ticks() == old(self).spec_ticks(),
            final(self).spec_musical() == old(self).spec_musical(),
            final(self).spec_position() == anchored_frames(
                old(self).spec_ticks(),
                0,
                0,
                sample_rate.spec_hz() as int,
                old(self).spec_tempo().spec_micros() as int,
            ),
            final(self).spec_anchor_frames() == final(self).spec_position(),
    {
        let ticks = self.ticks();
        self.sample_rate = sample_rate;
        self.anchor_frames = Frames(0);
        self.anchor_ticks = Ticks(0);
        self.position = self.ticks_to_frames(ticks);
        self.anchor_frames = self.position;
        self.anchor_ticks = ticks;
        // Reading the rate and the tempo brings their supported ranges into
        // the proof below.
        let _hz: u64 = sample_rate.hz_u64();
        let _micros: u64 = self.tempo.micros_per_beat();
        proof {
            let hz = sample_rate.spec_hz() as int;
            let micros = self.tempo.spec_micros() as int;
            lemma_wide_conversion_products(0, hz, micros);
            lemma_round_div_zero(hz * micros);
        }
    }

    /// Converts an absolute frame position to an absolute tick position, with
    /// 128-bit intermediates, rounding to the nearest tick.
    pub fn frames_to_ticks(self, position: Frames) -> (ticks: Ticks)
        ensures
            ticks.0 == self.spec_frames_to_ticks(position.0 as int),
    {
        let hz = self.sample_rate.hz_u64();
        let micros = self.tempo.micros_per_beat();
        let elapsed = position.0 as i128 - self.anchor_frames.0 as i128;
        proof {
            lemma_wide_conversion_products(elapsed as int, hz as int, micros as int);
        }
        let numerator = elapsed * MICROS_PER_SECOND * 3840;
        let denominator = hz as i128 * micros as i128;
        let within = div_round_nearest(numerator, denominator);
        proof {
            lemma_round_div_bounded(numerator as int, denominator as int);
        }
        Ticks(saturate_to_i64(within + self.anchor_ticks.0 as i128))
    }

    /// Converts an absolute tick position to an absolute frame position,
    /// rounding to the nearest frame.
    pub fn ticks_to_frames(self, ticks: Ticks) -> (frames: Frames)
        ensures
            frames.0 == self.spec_ticks_to_frames(ticks.0 as int),
    {
        let hz = self.sample_rate.hz_u64();
        let micros = self.tempo.micros_per_beat();
        let elapsed = ticks.0 as i128 - self.anchor_ticks.0 as i128;
        proof {
            lemma_wide_conversion_products(elapsed as int, hz as int, micros as int);
        }
        let numerator = elapsed * hz as i128 * micros as i128;
        let within = div_round_nearest(numerator, MICROS_PER_SECOND * 3840);
        proof {
            lemma_round_div_bounded(numerator as int, MICROS_PER_SECOND * 3840);
        }
        Frames(saturate_to_i64(within + self.anchor_frames.0 as i128))
    }

    /// An immutable snapshot for publication to other subsystems.
    pub fn snapshot(self) -> (snapshot: TransportSnapshot)
        ensures
            snapshot.position.0 == self.spec_position(),
            snapshot.ticks.0 == self.spec_ticks(),
            snapshot.musical == self.spec_musical(),
            snapshot.tempo == self.spec_tempo(),
            snapshot.signature == self.spec_signature(),
            snapshot.sample_rate == self.spec_sample_rate(),
    {
        let ticks = self.ticks();
        TransportSnapshot {
            position: self.position,
            ticks,
            musical: self.signature.ticks_to_musical(ticks),
            tempo: self.tempo,
            signature: self.signature,
            sample_rate: self.sample_rate,
        }
    }
}

/// A tick position converted to frames and back is the same tick position,
/// whenever one tick lasts at least one frame (the sample rate times the beat
/// length in microseconds is at least 3 840 000 000: up to 750 beats per
/// minute at 48 kHz) and the frame position does not saturate.
pub proof fn lemma_ticks_to_frames_and_back(clock: TransportClock, ticks: i64)
    requires
        clock.spec_sample_rate().spec_hz() * clock.spec_tempo().spec_micros() >= MICROS_PER_SECOND * 3840,
        i64::MIN <= round_div(
            (ticks - clock.spec_anchor_ticks()) * clock.spec_sample_rate().spec_hz() * clock.spec_tempo().spec_micros(),
            MICROS_PER_SECOND * 3840,
        ) + clock.spec_anchor_frames() <= i64::MAX,
    ensures
        clock.spec_frames_to_ticks(clock.spec_ticks_to_frames(ticks as int)) == ticks,
{
    let hz = clock.spec_sample_rate().spec_hz() as int;
    let micros = clock.spec_tempo().spec_micros() as int;
    let span = ticks - clock.spec_anchor_ticks();
    lemma_ticks_frames_ticks(span, hz, micros);
    let frames_span = round_div(span * hz * micros, MICROS_PER_SECOND * 3840);
    assert(clock.spec_ticks_to_frames(ticks as int) == frames_span + clock.spec_anchor_frames());
    assert(clock.spec_ticks_to_frames(ticks as int) - clock.spec_anchor_frames() == frames_span);
}

} // verus!
