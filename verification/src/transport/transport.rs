//! One deck's transport: the clock, the playback state, the user's intent,
//! the loop region and the slip position.

use vstd::prelude::*;

use crate::time::clock::{anchored_frames, TransportClock, TransportSnapshot};
use crate::time::conversion::trunc_div;
use crate::time::frames::{clamp_i64, saturating_add_i64, saturating_sub_i64, Frames};
use crate::time::musical_time::MusicalTime;
use crate::time::sample_rate::SampleRate;
use crate::time::signature::compose;
use crate::time::tempo::Tempo;
use crate::time::signature::TimeSignature;
use crate::transport::looping::{wrapped_position, LoopRegion};
use crate::text::push_str;
use crate::time::frames::frames_text;
use crate::transport::state::{
    event_label, intent_label, next_state, state_label, transition, InvalidTransition, PlaybackIntent,
    PlaybackState, TransportEvent,
};

verus! {

/// Failures a transport operation can report.
#[derive(Debug, Clone, Copy, PartialEq, Eq, Structural)]
pub enum TransportError {
    /// The event has no meaning in the current state.
    InvalidTransition(InvalidTransition),
    /// A loop region whose end is not after its start.
    InvalidLoopRegion,
}

impl From<InvalidTransition> for TransportError {
    fn from(inner: InvalidTransition) -> (error: TransportError)
        ensures
            error == TransportError::InvalidTransition(inner),
    {
        TransportError::InvalidTransition(inner)
    }
}

impl vstd::std_specs::convert::FromSpecImpl<InvalidTransition> for TransportError {
    open spec fn obeys_from_spec() -> bool {
        true
    }

    open spec fn from_spec(inner: InvalidTransition) -> TransportError {
        TransportError::InvalidTransition(inner)
    }
}

impl TransportError {
    /// The failure as a person reads it.
    pub fn to_text(self) -> (text: String)
        ensures
            text@ == (match self {
                TransportError::InvalidTransition(inner) => "cannot apply "@ + event_label(inner.event) + " while "@
                    + state_label(inner.from),
                TransportError::InvalidLoopRegion => "a loop must end after it starts"@,
            }),
    {
        match self {
            TransportError::InvalidTransition(inner) => inner.to_text(),
            TransportError::InvalidLoopRegion => {
                let mut text = String::new();
                push_str(&mut text, "a loop must end after it starts");
                text
            },
        }
    }
}

/// The intent an event expresses, if it expresses one.
pub open spec fn intent_after(event: TransportEvent, intent: PlaybackIntent) -> PlaybackIntent {
    match event {
        TransportEvent::Play => PlaybackIntent::Playing,
        TransportEvent::Pause => PlaybackIntent::Paused,
        TransportEvent::Stop | TransportEvent::Unload | TransportEvent::LoadFailed => {
            PlaybackIntent::Stopped
        },
        _ => intent,
    }
}

/// What an event says of the user's intent: a play asks to play, a pause to
/// pause, and a stop, an unload or a failed load leave the deck meant to be
/// stopped; every other event leaves the intent as it was.
pub proof fn lemma_intent_follows_the_user(event: TransportEvent, intent: PlaybackIntent)
    ensures
        intent_after(TransportEvent::Play, intent) == PlaybackIntent::Playing,
        intent_after(TransportEvent::Pause, intent) == PlaybackIntent::Paused,
        intent_after(TransportEvent::Stop, intent) == PlaybackIntent::Stopped,
        intent_after(TransportEvent::Unload, intent) == PlaybackIntent::Stopped,
        intent_after(TransportEvent::LoadFailed, intent) == PlaybackIntent::Stopped,
        event != TransportEvent::Play && event != TransportEvent::Pause && event != TransportEvent::Stop && event
            != TransportEvent::Unload && event != TransportEvent::LoadFailed ==> intent_after(event, intent) == intent,
{
}

/// A frame count carried across a sample-rate change: scaled by the ratio of
/// the rates with truncating division, the maximum when it does not fit.
pub open spec fn rescaled(frames: int, new_hz: int, old_hz: int) -> int {
    let scaled = trunc_div(frames * new_hz, old_hz);
    if i64::MIN <= scaled <= i64::MAX {
        scaled
    } else {
        i64::MAX as int
    }
}

/// One deck's transport.
#[derive(Debug, Clone, Copy, PartialEq, Eq, Structural)]
pub struct Transport {
    clock: TransportClock,
    state: PlaybackState,
    intent: PlaybackIntent,
    loop_region: LoopRegion,
    slip: bool,
    slip_position: Frames,
}

impl Transport {
    /// The clock.
    pub closed spec fn spec_clock(self) -> TransportClock {
        self.clock
    }

    /// The playback state.
    pub closed spec fn spec_state(self) -> PlaybackState {
        self.state
    }

    /// What the user asked for.
    pub closed spec fn spec_intent(self) -> PlaybackIntent {
        self.intent
    }

    /// The loop region.
    pub closed spec fn spec_loop(self) -> LoopRegion {
        self.loop_region
    }

    /// Whether slip mode is engaged.
    pub closed spec fn spec_slip(self) -> bool {
        self.slip
    }

    /// Where playback would be had no loop been engaged.
    pub closed spec fn spec_slip_position(self) -> i64 {
        self.slip_position.0
    }

    /// The current position.
    pub open spec fn spec_position(self) -> i64 {
        self.spec_clock().spec_position()
    }

    /// Whether the loop acts on the current position: it is engaged and the
    /// playhead has entered it.
    pub open spec fn spec_should_loop(self) -> bool {
        self.spec_loop().spec_enabled() && self.spec_position() >= self.spec_loop().spec_start()
    }

    /// Two transports are the same value exactly when every part is.
    pub proof fn lemma_same_transport(self, other: Transport)
        ensures
            self == other <==> (self.spec_clock() == other.spec_clock() && self.spec_state()
                == other.spec_state() && self.spec_intent() == other.spec_intent()
                && self.spec_loop() == other.spec_loop() && self.spec_slip()
                == other.spec_slip() && self.spec_slip_position()
                == other.spec_slip_position()),
    {
    }

    /// A stopped transport at position zero, with no loop and no slip.
    pub fn new(sample_rate: SampleRate, tempo: Tempo, signature: TimeSignature) -> (transport:
        Transport)
        ensures
            transport.spec_clock().spec_sample_rate() == sample_rate,
            transport.spec_clock().spec_tempo() == tempo,
            transport.spec_clock().spec_signature() == signature,
            transport.spec_clock().spec_position() == 0,
            transport.spec_clock().spec_anchor_frames() == 0,
            transport.spec_clock().spec_anchor_ticks() == 0,
            transport.spec_state() == PlaybackState::Stopped,
            transport.spec_intent() == PlaybackIntent::Stopped,
            transport.spec_loop().spec_start() == 0,
            transport.spec_loop().spec_end() == 0,
            !transport.spec_loop().spec_enabled(),
            !transport.spec_slip(),
            transport.spec_slip_position() == 0,
    {
        Transport {
            clock: TransportClock::new(sample_rate, tempo, signature),
            state: PlaybackState::Stopped,
            intent: PlaybackIntent::Stopped,
            loop_region: LoopRegion::none(),
            slip: false,
            slip_position: Frames(0),
        }
    }

    /// The current playback state.
    pub fn state(self) -> (state: PlaybackState)
        ensures
            state == self.spec_state(),
    {
        self.state
    }

    /// What the user asked for.
    pub fn intent(self) -> (intent: PlaybackIntent)
        ensures
            intent == self.spec_intent(),
    {
        self.intent
    }

    /// The clock.
    pub fn clock(self) -> (clock: TransportClock)
        ensures
            clock == self.spec_clock(),
    {
        self.clock
    }

    /// The current position.
    pub fn position(self) -> (position: Frames)
        ensures
            position.0 == self.spec_position(),
    {
        self.clock.position()
    }

    /// The loop region.
    pub fn loop_region(self) -> (region: LoopRegion)
        ensures
            region == self.spec_loop(),
    {
        self.loop_region
    }

    /// Whether slip mode is engaged.
    pub fn is_slipping(self) -> (slipping: bool)
        ensures
            slipping == self.spec_slip(),
    {
        self.slip
    }

    /// Where playback would be if the loop had not been engaged.
    pub fn slip_position(self) -> (position: Frames)
        ensures
            position.0 == self.spec_slip_position(),
    {
        self.slip_position
    }

    /// Applies an event.
    ///
    /// The intent is updated first, so a transient state resolving in the same
    /// instant resolves into the new intent. A stop returns the position and
    /// the slip position to zero. An event with no meaning in the current
    /// state is refused, and the transport is left exactly as it was.
    pub fn apply(&mut self, event: TransportEvent) -> (result: Result<PlaybackState, TransportError>)
        ensures
            transition(old(self).spec_state(), event, intent_after(event, old(self).spec_intent()))
                is None ==> (result == Err::<PlaybackState, TransportError>(
                TransportError::InvalidTransition(
                    InvalidTransition { from: old(self).spec_state(), event },
                ),
            ) && *final(self) == *old(self)),
            transition(
                old(self).spec_state(),
                event,
                intent_after(event, old(self).spec_intent()),
            ) matches Some(next) ==> {
                &&& result == Ok::<PlaybackState, TransportError>(next)
                &&& final(self).spec_state() == next
                &&& final(self).spec_intent() == intent_after(event, old(self).spec_intent())
                &&& final(self).spec_loop() == old(self).spec_loop()
                &&& final(self).spec_slip() == old(self).spec_slip()
                &&& final(self).spec_clock().spec_sample_rate() == old(self).spec_clock().spec_sample_rate()
                &&& final(self).spec_clock().spec_tempo() == old(self).spec_clock().spec_tempo()
                &&& final(self).spec_clock().spec_signature() == old(self).spec_clock().spec_signature()
                &&& final(self).spec_clock().spec_anchor_frames() == old(self).spec_clock().spec_anchor_frames()
                &&& final(self).spec_clock().spec_anchor_ticks() == old(self).spec_clock().spec_anchor_ticks()
                &&& next == PlaybackState::Stopped ==> final(self).spec_position() == 0
                    && final(self).spec_slip_position() == 0
                &&& next != PlaybackState::Stopped ==> final(self).spec_position()
                    == old(self).spec_position() && final(self).spec_slip_position()
                    == old(self).spec_slip_position()
            },
    {
        let intent = match event {
            TransportEvent::Play => PlaybackIntent::Playing,
            TransportEvent::Pause => PlaybackIntent::Paused,
            TransportEvent::Stop | TransportEvent::Unload | TransportEvent::LoadFailed => {
                PlaybackIntent::Stopped
            },
            _ => self.intent,
        };
        let next = match next_state(self.state, event, intent) {
            Ok(next) => next,
            Err(rejection) => return Err(TransportError::InvalidTransition(rejection)),
        };
        self.intent = intent;
        self.state = next;
        if next == PlaybackState::Stopped {
            self.clock.seek(Frames(0));
            self.slip_position = Frames(0);
        }
        Ok(next)
    }

    /// Moves the position, and the slip position with it. The state does not
    /// change.
    pub fn seek(&mut self, position: Frames)
        ensures
            final(self).spec_position() == position.0,
            final(self).spec_slip_position() == position.0,
            final(self).spec_state() == old(self).spec_state(),
            final(self).spec_intent() == old(self).spec_intent(),
            final(self).spec_loop() == old(self).spec_loop(),
            final(self).spec_slip() == old(self).spec_slip(),
            final(self).spec_clock().spec_sample_rate() == old(self).spec_clock().spec_sample_rate(),
            final(self).spec_clock().spec_tempo() == old(self).spec_clock().spec_tempo(),
            final(self).spec_clock().spec_signature() == old(self).spec_clock().spec_signature(),
            final(self).spec_clock().spec_anchor_frames() == old(self).spec_clock().spec_anchor_frames(),
            final(self).spec_clock().spec_anchor_ticks() == old(self).spec_clock().spec_anchor_ticks(),
    {
        self.clock.seek(position);
        self.slip_position = position;
    }

    /// Moves the position to a musical instant, and the slip position with it.
    pub fn seek_musical(&mut self, position: MusicalTime)
        ensures
            final(self).spec_position() == old(self).spec_clock().spec_ticks_to_frames(
                compose(position, old(self).spec_clock().spec_signature().spec_ticks_per_bar()),
            ),
            final(self).spec_slip_position() == final(self).spec_position(),
            final(self).spec_state() == old(self).spec_state(),
            final(self).spec_intent() == old(self).spec_intent(),
            final(self).spec_loop() == old(self).spec_loop(),
            final(self).spec_slip() == old(self).spec_slip(),
            final(self).spec_clock().spec_sample_rate() == old(self).spec_clock().spec_sample_rate(),
            final(self).spec_clock().spec_tempo() == old(self).spec_clock().spec_tempo(),
            final(self).spec_clock().spec_signature() == old(self).spec_clock().spec_signature(),
            final(self).spec_clock().spec_anchor_frames() == old(self).spec_clock().spec_anchor_frames(),
            final(self).spec_clock().spec_anchor_ticks() == old(self).spec_clock().spec_anchor_ticks(),
    {
        self.clock.seek_musical(position);
        self.slip_position = self.clock.position();
    }

    /// Sets the loop region, keeping it engaged if it was; refused when `end`
    /// is not after `start`, leaving everything as it was.
    pub fn set_loop(&mut self, start: Frames, end: Frames) -> (result: Result<(), TransportError>)
        ensures
            end.0 <= start.0 ==> result == Err::<(), TransportError>(
                TransportError::InvalidLoopRegion,
            ) && *final(self) == *old(self),
            end.0 > start.0 ==> {
                &&& result is Ok
                &&& final(self).spec_loop().spec_start() == start.0
                &&& final(self).spec_loop().spec_end() == end.0
                &&& final(self).spec_loop().spec_enabled() == old(self).spec_loop().spec_enabled()
                &&& final(self).spec_clock() == old(self).spec_clock()
                &&& final(self).spec_state() == old(self).spec_state()
                &&& final(self).spec_intent() == old(self).spec_intent()
                &&& final(self).spec_slip() == old(self).spec_slip()
                &&& final(self).spec_slip_position() == old(self).spec_slip_position()
            },
    {
        let region = match LoopRegion::new(start, end) {
            Some(region) => region,
            None => return Err(TransportError::InvalidLoopRegion),
        };
        self.loop_region = if self.loop_region.is_enabled() {
            region.enabled()
        } else {
            region
        };
        Ok(())
    }

    /// Engages the loop; it takes effect once the playhead reaches it.
    pub fn enable_loop(&mut self)
        ensures
            final(self).spec_loop().spec_start() == old(self).spec_loop().spec_start(),
            final(self).spec_loop().spec_end() == old(self).spec_loop().spec_end(),
            final(self).spec_loop().spec_enabled() == (old(self).spec_loop().spec_end()
                > old(self).spec_loop().spec_start()),
            final(self).spec_clock() == old(self).spec_clock(),
            final(self).spec_state() == old(self).spec_state(),
            final(self).spec_intent() == old(self).spec_intent(),
            final(self).spec_slip() == old(self).spec_slip(),
            final(self).spec_slip_position() == old(self).spec_slip_position(),
    {
        self.loop_region = self.loop_region.enabled();
    }

    /// Disengages the loop. In slip mode playback jumps to where it would have
    /// been had the loop never been engaged.
    pub fn disable_loop(&mut self)
        ensures
            final(self).spec_loop().spec_start() == old(self).spec_loop().spec_start(),
            final(self).spec_loop().spec_end() == old(self).spec_loop().spec_end(),
            !final(self).spec_loop().spec_enabled(),
            old(self).spec_slip() ==> final(self).spec_position()
                == old(self).spec_slip_position(),
            !old(self).spec_slip() ==> final(self).spec_position() == old(self).spec_position(),
            final(self).spec_clock().spec_sample_rate() == old(self).spec_clock().spec_sample_rate(),
            final(self).spec_clock().spec_tempo() == old(self).spec_clock().spec_tempo(),
            final(self).spec_clock().spec_signature() == old(self).spec_clock().spec_signature(),
            final(self).spec_clock().spec_anchor_frames() == old(self).spec_clock().spec_anchor_frames(),
            final(self).spec_clock().spec_anchor_ticks() == old(self).spec_clock().spec_anchor_ticks(),
            final(self).spec_state() == old(self).spec_state(),
            final(self).spec_intent() == old(self).spec_intent(),
            final(self).spec_slip() == old(self).spec_slip(),
            final(self).spec_slip_position() == old(self).spec_slip_position(),
    {
        self.loop_region = self.loop_region.disabled();
        if self.slip {
            self.clock.seek(self.slip_position);
        }
    }

    /// Turns slip mode on or off; turning it on resets the shadow position to
    /// the current position.
    pub fn set_slip(&mut self, slip: bool)
        ensures
            final(self).spec_slip() == slip,
            slip && !old(self).spec_slip() ==> final(self).spec_slip_position()
                == old(self).spec_position(),
            !(slip && !old(self).spec_slip()) ==> final(self).spec_slip_position()
                == old(self).spec_slip_position(),
            final(self).spec_clock() == old(self).spec_clock(),
            final(self).spec_state() == old(self).spec_state(),
            final(self).spec_intent() == old(self).spec_intent(),
            final(self).spec_loop() == old(self).spec_loop(),
    {
        if slip && !self.slip {
            self.slip_position = self.clock.position();
        }
        self.slip = slip;
    }

    /// Whether the loop should act on the current position.
    fn should_loop(self) -> (acts: bool)
        ensures
            acts == self.spec_should_loop(),
    {
        self.loop_region.is_enabled() && self.clock.position().0 >= self.loop_region.start().0
    }

    /// How many frames may be rendered before the loop wraps, so a wrap always
    /// falls on a block boundary; `requested` when no wrap is pending.
    pub fn frames_until_wrap(self, requested: u32) -> (frames: u32)
        ensures
            !self.spec_should_loop() ==> frames == requested,
            self.spec_should_loop() ==> {
                let remaining = clamp_i64(self.spec_loop().spec_end() - self.spec_position());
                &&& remaining <= 0 ==> frames == requested
                &&& remaining > 0 ==> frames == if requested <= remaining {
                    requested as int
                } else {
                    remaining
                }
            },
    {
        if !self.should_loop() {
            return requested;
        }
        let remaining = saturating_sub_i64(self.loop_region.end().0, self.clock.position().0);
        if remaining <= 0 {
            return requested;
        }
        let remaining: u32 = if remaining > u32::MAX as i64 {
            u32::MAX
        } else {
            remaining as u32
        };
        if requested <= remaining {
            requested
        } else {
            remaining
        }
    }

    /// Advances by a number of frames, wrapping at the loop end. In slip mode
    /// the shadow position advances by the same amount and never wraps.
    pub fn advance(&mut self, frames: u32)
        ensures
            ({
                let moved = clamp_i64(old(self).spec_position() + frames);
                let acts = old(self).spec_loop().spec_enabled() && moved
                    >= old(self).spec_loop().spec_start();
                &&& acts ==> final(self).spec_position() == wrapped_position(
                    old(self).spec_loop().spec_start() as int,
                    old(self).spec_loop().spec_end() as int,
                    moved,
                )
                &&& !acts ==> final(self).spec_position() == moved
            }),
            old(self).spec_slip() ==> final(self).spec_slip_position() == clamp_i64(
                old(self).spec_slip_position() + frames,
            ),
            !old(self).spec_slip() ==> final(self).spec_slip_position()
                == old(self).spec_slip_position(),
            final(self).spec_state() == old(self).spec_state(),
            final(self).spec_intent() == old(self).spec_intent(),
            final(self).spec_loop() == old(self).spec_loop(),
            final(self).spec_slip() == old(self).spec_slip(),
            final(self).spec_clock().spec_sample_rate() == old(self).spec_clock().spec_sample_rate(),
            final(self).spec_clock().spec_tempo() == old(self).spec_clock().spec_tempo(),
            final(self).spec_clock().spec_signature() == old(self).spec_clock().spec_signature(),
            final(self).spec_clock().spec_anchor_frames() == old(self).spec_clock().spec_anchor_frames(),
            final(self).spec_clock().spec_anchor_ticks() == old(self).spec_clock().spec_anchor_ticks(),
    {
        self.clock.advance(frames);
        if self.slip {
            self.slip_position = Frames(saturating_add_i64(self.slip_position.0, frames as i64));
        }
        if self.should_loop() {
            let wrapped = self.loop_region.wrap(self.clock.position());
            if wrapped.0 != self.clock.position().0 {
                self.clock.seek(wrapped);
            }
        }
    }

    /// Changes the tempo, preserving musical position.
    pub fn set_tempo(&mut self, tempo: Tempo)
        ensures
            final(self).spec_clock().spec_tempo() == tempo,
            final(self).spec_clock().spec_ticks() == old(self).spec_clock().spec_ticks(),
            final(self).spec_clock().spec_anchor_ticks() == old(self).spec_clock().spec_ticks(),
            final(self).spec_clock().spec_anchor_frames() == old(self).spec_position(),
            final(self).spec_position() == old(self).spec_position(),
            final(self).spec_clock().spec_sample_rate() == old(self).spec_clock().spec_sample_rate(),
            final(self).spec_clock().spec_signature() == old(self).spec_clock().spec_signature(),
            final(self).spec_state() == old(self).spec_state(),
            final(self).spec_intent() == old(self).spec_intent(),
            final(self).spec_loop() == old(self).spec_loop(),
            final(self).spec_slip() == old(self).spec_slip(),
            final(self).spec_slip_position() == old(self).spec_slip_position(),
    {
        self.clock.set_tempo(tempo);
    }

    /// Changes the time signature; the position does not move.
    pub fn set_signature(&mut self, signature: TimeSignature)
        ensures
            final(self).spec_clock().spec_signature() == signature,
            final(self).spec_clock().spec_tempo() == old(self).spec_clock().spec_tempo(),
            final(self).spec_clock().spec_anchor_ticks() == old(self).spec_clock().spec_anchor_ticks(),
            final(self).spec_clock().spec_anchor_frames() == old(self).spec_clock().spec_anchor_frames(),
            final(self).spec_position() == old(self).spec_position(),
            final(self).spec_clock().spec_sample_rate() == old(self).spec_clock().spec_sample_rate(),
            final(self).spec_state() == old(self).spec_state(),
            final(self).spec_intent() == old(self).spec_intent(),
            final(self).spec_loop() == old(self).spec_loop(),
            final(self).spec_slip() == old(self).spec_slip(),
            final(self).spec_slip_position() == old(self).spec_slip_position(),
    {
        self.clock.set_signature(signature);
    }

    /// Carries a frame count across a rate change.
    fn rescale(frames: Frames, new_hz: u64, old_hz: u64) -> (scaled: Frames)
        requires
            8_000 <= new_hz <= 768_000,
            8_000 <= old_hz <= 768_000,
        ensures
            scaled.0 == rescaled(frames.0 as int, new_hz as int, old_hz as int),
    {
        proof {
            assert(-0x8000_0000_0000_0000 * 768_000 <= frames.0 * new_hz <= 0x7fff_ffff_ffff_ffff
                * 768_000) by (nonlinear_arith)
                requires
                    -0x8000_0000_0000_0000 <= frames.0 <= 0x7fff_ffff_ffff_ffff,
                    8_000 <= new_hz <= 768_000,
            ;
        }
        let product = frames.0 as i128 * new_hz as i128;
        let magnitude = if product < 0 { -product } else { product };
        let quotient = magnitude / old_hz as i128;
        let scaled = if product < 0 { -quotient } else { quotient };
        if scaled < i64::MIN as i128 || scaled > i64::MAX as i128 {
            Frames(i64::MAX)
        } else {
            Frames(scaled as i64)
        }
    }

    /// Changes the sample rate, preserving musical position. Loop bounds and
    /// the slip position are rescaled by the ratio of the rates; a loop that
    /// would no longer end after it starts is left as it was.
    pub fn set_sample_rate(&mut self, sample_rate: SampleRate)
        ensures
            final(self).spec_clock().spec_sample_rate() == sample_rate,
            final(self).spec_clock().spec_ticks() == old(self).spec_clock().spec_ticks(),
            final(self).spec_clock().spec_musical() == old(self).spec_clock().spec_musical(),
            final(self).spec_clock().spec_tempo() == old(self).spec_clock().spec_tempo(),
            final(self).spec_clock().spec_signature() == old(self).spec_clock().spec_signature(),
            final(self).spec_clock().spec_position() == anchored_frames(
                old(self).spec_clock().spec_ticks(),
                0,
                0,
                sample_rate.spec_hz() as int,
                old(self).spec_clock().spec_tempo().spec_micros() as int,
            ),
            final(self).spec_clock().spec_anchor_ticks() == old(self).spec_clock().spec_ticks(),
            final(self).spec_clock().spec_anchor_frames() == final(self).spec_clock().spec_position(),
            final(self).spec_state() == old(self).spec_state(),
            final(self).spec_intent() == old(self).spec_intent(),
            final(self).spec_slip() == old(self).spec_slip(),
            old(self).spec_clock().spec_sample_rate() == sample_rate ==> {
                &&& final(self).spec_loop() == old(self).spec_loop()
                &&& final(self).spec_slip_position() == old(self).spec_slip_position()
            },
            old(self).spec_clock().spec_sample_rate() != sample_rate ==> {
                let new_hz = sample_rate.spec_hz() as int;
                let old_hz = old(self).spec_clock().spec_sample_rate().spec_hz() as int;
                let start = rescaled(old(self).spec_loop().spec_start() as int, new_hz, old_hz);
                let end = rescaled(old(self).spec_loop().spec_end() as int, new_hz, old_hz);
                &&& final(self).spec_slip_position() == rescaled(
                    old(self).spec_slip_position() as int,
                    new_hz,
                    old_hz,
                )
                &&& end > start ==> final(self).spec_loop().spec_start() == start
                    && final(self).spec_loop().spec_end() == end
                    && final(self).spec_loop().spec_enabled() == old(self).spec_loop().spec_enabled()
                &&& end <= start ==> final(self).spec_loop() == old(self).spec_loop()
            },
    {
        let previous = self.clock.sample_rate();
        self.clock.set_sample_rate(sample_rate);
        if previous == sample_rate {
            return;
        }
        let new_hz = sample_rate.hz_u64();
        let old_hz = previous.hz_u64();
        let start = Self::rescale(self.loop_region.start(), new_hz, old_hz);
        let end = Self::rescale(self.loop_region.end(), new_hz, old_hz);
        if let Some(region) = LoopRegion::new(start, end) {
            self.loop_region = if self.loop_region.is_enabled() {
                region.enabled()
            } else {
                region
            };
        }
        self.slip_position = Self::rescale(self.slip_position, new_hz, old_hz);
    }

    /// A snapshot of the clock, for publication to other subsystems.
    pub fn snapshot(self) -> (snapshot: TransportSnapshot)
        ensures
            snapshot.position.0 == self.spec_clock().spec_position(),
            snapshot.ticks.0 == self.spec_clock().spec_ticks(),
            snapshot.musical == self.spec_clock().spec_musical(),
            snapshot.tempo == self.spec_clock().spec_tempo(),
            snapshot.signature == self.spec_clock().spec_signature(),
            snapshot.sample_rate == self.spec_clock().spec_sample_rate(),
    {
        self.clock.snapshot()
    }

    /// The transport as a person reads it:
    /// `<state> (intent <intent>) at <n> frames`.
    pub fn to_text(self) -> (text: String)
        ensures
            text@ == state_label(self.spec_state()) + " (intent "@ + intent_label(self.spec_intent()) + ") at "@
                + frames_text(self.spec_position() as int),
    {
        let mut text = String::new();
        push_str(&mut text, self.state.label());
        push_str(&mut text, " (intent ");
        push_str(&mut text, self.intent.label());
        push_str(&mut text, ") at ");
        let position = self.clock.position().to_text();
        push_str(&mut text, position.as_str());
        text
    }
}

} // verus!
