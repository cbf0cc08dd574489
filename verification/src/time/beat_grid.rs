//! The musical grid a track or project is measured against.

use vstd::prelude::*;

use crate::text::{decimal, push_decimal, push_str};
use crate::time::conversion::div_rem_euclid;
use crate::time::frames::{clamp_i64, frames_text, saturating_add_i64, saturating_mul_i64, saturating_sub_i64, Frames};
use crate::time::musical_time::{MusicalTime, Ticks, TICKS_PER_BEAT};
use crate::time::sample_rate::SampleRate;
use crate::time::signature::{compose, decompose, signature_text, TimeSignature};
use crate::time::tempo::Tempo;
use crate::time::tempo_map::{
    lemma_map_ticks_frames_ticks, lemma_neighbouring_ticks_enclose_frames, one_tick_spans_a_frame, TempoMap,
};

verus! {

/// Default phrase length, in bars: the near-universal eight-bar phrase of
/// dance music.
pub const DEFAULT_PHRASE_BARS: u32 = 8;

/// Corrective steps a directional snap may take after rounding in ticks.
pub const CORRECTION_STEPS: u32 = 2;

/// What a position is snapped to, from coarsest to finest.
#[derive(Debug, Clone, Copy, PartialEq, Eq, Structural)]
#[non_exhaustive]
pub enum SnapResolution {
    /// No snapping. The position is returned unchanged.
    Sample,
    /// The nearest tick.
    Tick,
    /// A subdivision of the beat: 1 is a beat, 2 an eighth, 4 a sixteenth,
    /// 3 a triplet. Zero is treated as 1.
    Division(u32),
    /// The nearest beat.
    Beat,
    /// The nearest bar line.
    Bar,
    /// The nearest phrase boundary.
    Phrase,
}

/// Rounds down to a multiple, flooring rather than truncating so that
/// negative positions behave; a unit of one or less leaves the value alone.
pub open spec fn spec_floor_to_multiple(value: int, unit: int) -> int {
    if unit <= 1 {
        value
    } else {
        clamp_i64((value / unit) * unit)
    }
}

/// Rounds to the nearest multiple, ties away from zero; a unit of one or less
/// leaves the value alone. Every step saturates.
pub open spec fn spec_round_to_multiple(value: int, unit: int) -> int {
    if unit <= 1 {
        value
    } else {
        let floored = spec_floor_to_multiple(value, unit);
        let remainder = clamp_i64(value - floored);
        if clamp_i64(remainder * 2) >= unit {
            clamp_i64(floored + unit)
        } else {
            floored
        }
    }
}

/// Rounds down to a multiple, flooring rather than truncating.
pub fn floor_to_multiple(value: i64, unit: i64) -> (floored: i64)
    ensures
        floored == spec_floor_to_multiple(value as int, unit as int),
{
    if unit <= 1 {
        return value;
    }
    let (quotient, _) = div_rem_euclid(value as i128, unit as i128);
    proof {
        assert(quotient * unit == (value as int / unit as int) * unit);
        vstd::arithmetic::div_mod::lemma_fundamental_div_mod(value as int, unit as int);
        crate::time::signature::lemma_bar_fits(value as int, 480);
        assert(-0x8000_0000_0000_0000 <= quotient <= 0x7fff_ffff_ffff_ffff) by (nonlinear_arith)
            requires
                value == quotient * unit + (value as int) % (unit as int),
                0 <= (value as int) % (unit as int) < unit,
                unit >= 2,
                -0x8000_0000_0000_0000 <= value <= 0x7fff_ffff_ffff_ffff,
        ;
    }
    saturating_mul_i64(quotient as i64, unit)
}

/// Rounds to the nearest multiple, with ties going away from zero.
pub fn round_to_multiple(value: i64, unit: i64) -> (rounded: i64)
    ensures
        rounded == spec_round_to_multiple(value as int, unit as int),
{
    if unit <= 1 {
        return value;
    }
    let floored = floor_to_multiple(value, unit);
    let remainder = saturating_sub_i64(value, floored);
    if saturating_mul_i64(remainder, 2) >= unit {
        saturating_add_i64(floored, unit)
    } else {
        floored
    }
}

/// The musical grid a track or project is measured against: a tempo map, a
/// time signature, a phrase length, and the frame of the first downbeat.
///
/// Detection gets the tempo right far more often than the downbeat, so the
/// origin is a first-class, separately adjustable value.
#[derive(Debug, Clone, PartialEq, Eq)]
pub struct BeatGrid {
    origin: Frames,
    tempo_map: TempoMap,
    signature: TimeSignature,
    phrase_bars: u32,
}

impl BeatGrid {
    /// The frame of the first downbeat.
    pub closed spec fn spec_origin(&self) -> Frames {
        self.origin
    }

    /// The tempo map.
    pub closed spec fn spec_tempo_map(&self) -> TempoMap {
        self.tempo_map
    }

    /// The time signature.
    pub closed spec fn spec_signature(&self) -> TimeSignature {
        self.signature
    }

    /// Phrase length in bars.
    pub closed spec fn spec_phrase_bars(&self) -> u32 {
        self.phrase_bars
    }

    /// Whether the grid keeps its invariants: a well-formed tempo map and a
    /// phrase of at least one bar.
    pub open spec fn well_formed(&self) -> bool {
        self.spec_tempo_map().well_formed() && self.spec_phrase_bars() >= 1
    }

    /// Musical ticks, relative to the origin, of a frame position.
    pub open spec fn spec_ticks_at(&self, frames: int) -> int {
        self.spec_tempo_map().spec_ticks_at(clamp_i64(frames - self.spec_origin().0))
    }

    /// The absolute frame position of a tick position.
    pub open spec fn spec_frames_at(&self, ticks: int) -> int {
        clamp_i64(self.spec_tempo_map().spec_frames_at(ticks) + self.spec_origin().0)
    }

    /// Ticks per unit of a resolution; `None` for `Sample`.
    pub open spec fn spec_ticks_per_unit(&self, resolution: SnapResolution) -> Option<int> {
        let per_bar = self.spec_signature().spec_ticks_per_bar();
        match resolution {
            SnapResolution::Sample => None,
            SnapResolution::Tick => Some(1),
            SnapResolution::Division(division) => {
                let per_division = TICKS_PER_BEAT as int / (if division == 0 { 1 } else { division as int });
                Some(if per_division < 1 { 1 } else { per_division })
            },
            SnapResolution::Beat => Some(TICKS_PER_BEAT as int),
            SnapResolution::Bar => Some(per_bar),
            SnapResolution::Phrase => Some(clamp_i64(per_bar * self.spec_phrase_bars())),
        }
    }

    /// What a directional snap returns after rounding to `target`: the first of
    /// up to `steps` further candidates, each one unit further in `direction`
    /// (-1 back, 1 forward), that lies on the wanted side of `frames`.
    pub open spec fn spec_stepped(&self, frames: int, unit: int, target: int, direction: int, steps: nat) -> int
        decreases steps,
    {
        let result = self.spec_frames_at(target);
        let done = if direction < 0 { result <= frames } else { result >= frames };
        if steps == 0 || done {
            result
        } else {
            self.spec_stepped(frames, unit, clamp_i64(target + direction * unit), direction, (steps - 1) as nat)
        }
    }

    /// Creates a grid with a constant tempo, its first downbeat at `origin`.
    pub fn new(sample_rate: SampleRate, tempo: Tempo, signature: TimeSignature, origin: Frames) -> (grid: BeatGrid)
        ensures
            grid.well_formed(),
            grid.spec_origin() == origin,
            grid.spec_signature() == signature,
            grid.spec_phrase_bars() == DEFAULT_PHRASE_BARS,
            grid.spec_tempo_map().spec_sample_rate() == sample_rate,
            grid.spec_tempo_map().spec_segments() == seq![
                crate::time::tempo_map::TempoSegment { start_ticks: Ticks(0), start_frames: Frames(0), tempo },
            ],
    {
        BeatGrid { origin, tempo_map: TempoMap::new(sample_rate, tempo), signature, phrase_bars: DEFAULT_PHRASE_BARS }
    }

    /// Creates a grid from an existing tempo map.
    pub fn with_tempo_map(tempo_map: TempoMap, signature: TimeSignature, origin: Frames) -> (grid: BeatGrid)
        requires
            tempo_map.well_formed(),
        ensures
            grid.well_formed(),
            grid.spec_origin() == origin,
            grid.spec_signature() == signature,
            grid.spec_phrase_bars() == DEFAULT_PHRASE_BARS,
            grid.spec_tempo_map() == tempo_map,
    {
        BeatGrid { origin, tempo_map, signature, phrase_bars: DEFAULT_PHRASE_BARS }
    }

    /// The frame at which the first downbeat falls.
    pub fn origin(&self) -> (origin: Frames)
        ensures
            origin == self.spec_origin(),
    {
        self.origin
    }

    /// Moves the first downbeat to an absolute frame position.
    pub fn set_origin(&mut self, origin: Frames)
        ensures
            final(self).spec_origin() == origin,
            final(self).spec_tempo_map() == old(self).spec_tempo_map(),
            final(self).spec_signature() == old(self).spec_signature(),
            final(self).spec_phrase_bars() == old(self).spec_phrase_bars(),
    {
        self.origin = origin;
    }

    /// Shifts the whole grid by a number of frames, saturating.
    pub fn nudge(&mut self, delta: Frames)
        ensures
            final(self).spec_origin().0 == clamp_i64(old(self).spec_origin().0 + delta.0),
            final(self).spec_tempo_map() == old(self).spec_tempo_map(),
            final(self).spec_signature() == old(self).spec_signature(),
            final(self).spec_phrase_bars() == old(self).spec_phrase_bars(),
    {
        self.origin = self.origin.plus(delta);
    }

    /// The tempo map.
    pub fn tempo_map(&self) -> (tempo_map: &TempoMap)
        ensures
            *tempo_map == self.spec_tempo_map(),
    {
        &self.tempo_map
    }

    /// The tempo map, for editing.
    pub fn tempo_map_mut(&mut self) -> (tempo_map: &mut TempoMap)
        ensures
            *tempo_map == old(self).spec_tempo_map(),
            final(self).spec_tempo_map() == *final(tempo_map),
            final(self).spec_origin() == old(self).spec_origin(),
            final(self).spec_signature() == old(self).spec_signature(),
            final(self).spec_phrase_bars() == old(self).spec_phrase_bars(),
    {
        &mut self.tempo_map
    }

    /// The time signature.
    pub fn signature(&self) -> (signature: TimeSignature)
        ensures
            signature == self.spec_signature(),
    {
        self.signature
    }

    /// Sets the time signature.
    pub fn set_signature(&mut self, signature: TimeSignature)
        ensures
            final(self).spec_signature() == signature,
            final(self).spec_origin() == old(self).spec_origin(),
            final(self).spec_tempo_map() == old(self).spec_tempo_map(),
            final(self).spec_phrase_bars() == old(self).spec_phrase_bars(),
    {
        self.signature = signature;
    }

    /// Phrase length in bars.
    pub fn phrase_bars(&self) -> (bars: u32)
        ensures
            bars == self.spec_phrase_bars(),
    {
        self.phrase_bars
    }

    /// The grid as a person reads it:
    /// `BeatGrid(origin <n> frames, <signature>, <bars> bars per phrase)`.
    pub fn to_text(&self) -> (text: String)
        ensures
            text@ == "BeatGrid(origin "@ + frames_text(self.spec_origin().0 as int) + ", "@ + signature_text(
                self.spec_signature(),
            ) + ", "@ + decimal(self.spec_phrase_bars() as int) + " bars per phrase)"@,
    {
        let mut text = String::new();
        push_str(&mut text, "BeatGrid(origin ");
        let origin = self.origin.to_text();
        push_str(&mut text, origin.as_str());
        push_str(&mut text, ", ");
        let signature = self.signature.to_text();
        push_str(&mut text, signature.as_str());
        push_str(&mut text, ", ");
        push_decimal(&mut text, self.phrase_bars as i128);
        push_str(&mut text, " bars per phrase)");
        text
    }

    /// Sets the phrase length in bars. Zero is treated as one.
    pub fn set_phrase_bars(&mut self, bars: u32)
        ensures
            final(self).spec_phrase_bars() == (if bars == 0 { 1 } else { bars }),
            final(self).spec_origin() == old(self).spec_origin(),
            final(self).spec_tempo_map() == old(self).spec_tempo_map(),
            final(self).spec_signature() == old(self).spec_signature(),
    {
        self.phrase_bars = if bars == 0 { 1 } else { bars };
    }

    /// Converts a frame position to musical ticks relative to the origin.
    pub fn ticks_at(&self, frames: Frames) -> (ticks: Ticks)
        requires
            self.well_formed(),
        ensures
            ticks.0 == self.spec_ticks_at(frames.0 as int),
    {
        self.tempo_map.ticks_at(frames.minus(self.origin))
    }

    /// Converts musical ticks to an absolute frame position.
    pub fn frames_at(&self, ticks: Ticks) -> (frames: Frames)
        requires
            self.well_formed(),
        ensures
            frames.0 == self.spec_frames_at(ticks.0 as int),
    {
        self.tempo_map.frames_at(ticks).plus(self.origin)
    }

    /// Converts a frame position to bar, beat and tick.
    pub fn musical_at(&self, frames: Frames) -> (position: MusicalTime)
        requires
            self.well_formed(),
        ensures
            position == decompose(self.spec_ticks_at(frames.0 as int), self.spec_signature().spec_ticks_per_bar()),
    {
        self.signature.ticks_to_musical(self.ticks_at(frames))
    }

    /// Converts a bar, beat and tick position to frames.
    pub fn frames_at_musical(&self, position: MusicalTime) -> (frames: Frames)
        requires
            self.well_formed(),
        ensures
            frames.0 == self.spec_frames_at(compose(position, self.spec_signature().spec_ticks_per_bar())),
    {
        self.frames_at(self.signature.musical_to_ticks(position))
    }

    /// Ticks per unit of the given resolution, or `None` for `Sample`.
    fn ticks_per_unit(&self, resolution: SnapResolution) -> (unit: Option<i64>)
        requires
            self.well_formed(),
        ensures
            unit matches Some(u) ==> self.spec_ticks_per_unit(resolution) == Some(u as int) && u >= 1,
            unit is None ==> self.spec_ticks_per_unit(resolution) is None,
    {
        let per_beat = TICKS_PER_BEAT as i64;
        let per_bar = self.signature.ticks_per_bar() as i64;
        match resolution {
            SnapResolution::Sample => None,
            SnapResolution::Tick => Some(1),
            SnapResolution::Division(division) => {
                let divisor = if division == 0 { 1 } else { division as i64 };
                let per_division = per_beat / divisor;
                Some(if per_division < 1 { 1 } else { per_division })
            },
            SnapResolution::Beat => Some(per_beat),
            SnapResolution::Bar => Some(per_bar),
            SnapResolution::Phrase => {
                proof {
                    assert(per_bar * self.phrase_bars >= 1) by (nonlinear_arith)
                        requires
                            per_bar >= 480,
                            self.phrase_bars >= 1,
                    ;
                }
                Some(saturating_mul_i64(per_bar, self.phrase_bars as i64))
            },
        }
    }

    /// Snaps a frame position to the nearest point of the given resolution.
    ///
    /// Snapping happens in musical time, not in frames, so that it follows the
    /// music when the tempo changes.
    pub fn snap(&self, frames: Frames, resolution: SnapResolution) -> (snapped: Frames)
        requires
            self.well_formed(),
        ensures
            match self.spec_ticks_per_unit(resolution) {
                None => snapped == frames,
                Some(unit) => snapped.0 == self.spec_frames_at(
                    spec_round_to_multiple(self.spec_ticks_at(frames.0 as int), unit),
                ),
            },
    {
        let unit = match self.ticks_per_unit(resolution) {
            None => return frames,
            Some(unit) => unit,
        };
        let ticks = self.ticks_at(frames).0;
        let snapped = round_to_multiple(ticks, unit);
        self.frames_at(Ticks(snapped))
    }

    /// Steps a directional snap's candidate until it lies on the wanted side
    /// of `frames`, at most `CORRECTION_STEPS` times.
    fn correct(&self, frames: Frames, unit: i64, target: i64, forward: bool) -> (result: Frames)
        requires
            self.well_formed(),
        ensures
            result.0 == self.spec_stepped(
                frames.0 as int,
                unit as int,
                target as int,
                if forward { 1 } else { -1 },
                CORRECTION_STEPS as nat,
            ),
    {
        let ghost direction: int = if forward { 1 } else { -1 };
        let ghost start = target;
        let mut target = target;
        let mut result = self.frames_at(Ticks(target));
        let mut done = if forward { result.0 >= frames.0 } else { result.0 <= frames.0 };
        let mut steps: u32 = 0;
        while steps < CORRECTION_STEPS && !done
            invariant
                self.well_formed(),
                steps <= CORRECTION_STEPS,
                result.0 == self.spec_frames_at(target as int),
                done == (if forward { result.0 >= frames.0 } else { result.0 <= frames.0 }),
                direction == (if forward { 1int } else { -1int }),
                self.spec_stepped(frames.0 as int, unit as int, target as int, direction, (CORRECTION_STEPS - steps) as nat)
                    == self.spec_stepped(frames.0 as int, unit as int, start as int, direction, CORRECTION_STEPS as nat),
            decreases CORRECTION_STEPS - steps,
        {
            target = if forward { saturating_add_i64(target, unit) } else { saturating_sub_i64(target, unit) };
            result = self.frames_at(Ticks(target));
            done = if forward { result.0 >= frames.0 } else { result.0 <= frames.0 };
            steps += 1;
        }
        result
    }
}

impl BeatGrid {
    /// Snaps to the nearest point at or before `frames`: rounds down in ticks,
    /// then steps back a unit at a time, at most `CORRECTION_STEPS` times,
    /// while the candidate still lies after `frames`.
    ///
    /// The result lies at or before `frames` unless every candidate it may
    /// consider lies after it, which only saturation at the ends of the
    /// frame or tick range can bring about.
    pub fn snap_back(&self, frames: Frames, resolution: SnapResolution) -> (snapped: Frames)
        requires
            self.well_formed(),
        ensures
            match self.spec_ticks_per_unit(resolution) {
                None => snapped == frames,
                Some(unit) => snapped.0 == self.spec_stepped(
                    frames.0 as int,
                    unit,
                    spec_floor_to_multiple(self.spec_ticks_at(frames.0 as int), unit),
                    -1,
                    CORRECTION_STEPS as nat,
                ),
            },
            match self.spec_ticks_per_unit(resolution) {
                None => true,
                Some(unit) => snapped.0 <= frames.0 || forall|step: int|
                    0 <= step <= CORRECTION_STEPS ==> #[trigger] self.spec_candidate(
                        spec_floor_to_multiple(self.spec_ticks_at(frames.0 as int), unit),
                        unit,
                        -1,
                        step,
                    ) > frames.0,
            },
            match self.spec_ticks_per_unit(resolution) {
                None => true,
                Some(unit) => self.directional_snap_fits(frames.0 as int, unit, -1)
                    ==> snapped.0 <= frames.0,
            },
    {
        let unit = match self.ticks_per_unit(resolution) {
            None => return frames,
            Some(unit) => unit,
        };
        let target = floor_to_multiple(self.ticks_at(frames).0, unit);
        let snapped = self.correct(frames, unit, target, false);
        proof {
            self.lemma_stepped_lands_on_side(frames.0 as int, unit as int, target as int, -1, CORRECTION_STEPS as nat);
            if self.directional_snap_fits(frames.0 as int, unit as int, -1) {
                self.lemma_directional_snap_lands_on_side(frames.0 as int, unit as int, -1);
            }
        }
        snapped
    }

    /// Snaps to the nearest point at or after `frames`.
    ///
    /// Converting frames to ticks rounds, so a position one frame past a beat
    /// can round back onto that beat; the candidate is therefore checked in
    /// frames, the authoritative unit, and stepped forward a unit at a time,
    /// at most `CORRECTION_STEPS` times, while it still lies before `frames`.
    /// The result lies at or after `frames` unless every candidate it may
    /// consider lies before it, which only saturation at the ends of the
    /// frame or tick range can bring about.
    pub fn snap_forward(&self, frames: Frames, resolution: SnapResolution) -> (snapped: Frames)
        requires
            self.well_formed(),
        ensures
            match self.spec_ticks_per_unit(resolution) {
                None => snapped == frames,
                Some(unit) => snapped.0 == self.spec_stepped(
                    frames.0 as int,
                    unit,
                    spec_floor_to_multiple(self.spec_ticks_at(frames.0 as int), unit),
                    1,
                    CORRECTION_STEPS as nat,
                ),
            },
            match self.spec_ticks_per_unit(resolution) {
                None => true,
                Some(unit) => snapped.0 >= frames.0 || forall|step: int|
                    0 <= step <= CORRECTION_STEPS ==> #[trigger] self.spec_candidate(
                        spec_floor_to_multiple(self.spec_ticks_at(frames.0 as int), unit),
                        unit,
                        1,
                        step,
                    ) < frames.0,
            },
            match self.spec_ticks_per_unit(resolution) {
                None => true,
                Some(unit) => self.directional_snap_fits(frames.0 as int, unit, 1)
                    ==> snapped.0 >= frames.0,
            },
    {
        let unit = match self.ticks_per_unit(resolution) {
            None => return frames,
            Some(unit) => unit,
        };
        let target = floor_to_multiple(self.ticks_at(frames).0, unit);
        let snapped = self.correct(frames, unit, target, true);
        proof {
            self.lemma_stepped_lands_on_side(frames.0 as int, unit as int, target as int, 1, CORRECTION_STEPS as nat);
            if self.directional_snap_fits(frames.0 as int, unit as int, 1) {
                self.lemma_directional_snap_lands_on_side(frames.0 as int, unit as int, 1);
            }
        }
        snapped
    }

    /// Returns `true` if a frame position falls exactly on the given
    /// resolution; every position is aligned to `Sample`.
    pub fn is_aligned(&self, frames: Frames, resolution: SnapResolution) -> (aligned: bool)
        requires
            self.well_formed(),
        ensures
            match self.spec_ticks_per_unit(resolution) {
                None => aligned,
                Some(unit) => aligned == (self.spec_ticks_at(frames.0 as int) % unit == 0),
            },
    {
        let unit = match self.ticks_per_unit(resolution) {
            None => return true,
            Some(unit) => unit,
        };
        let (_, remainder) = div_rem_euclid(self.ticks_at(frames).0 as i128, unit as i128);
        remainder == 0
    }
}

/// Whether a candidate lies on the wanted side of a position: at or before it
/// going back (-1), at or after it going forward (1).
pub open spec fn on_side(candidate: int, frames: int, direction: int) -> bool {
    if direction < 0 {
        candidate <= frames
    } else {
        candidate >= frames
    }
}

/// Saturating steps of one unit in one direction add up: taking one step and
/// then `steps` more lands where `steps + 1` steps from the start land.
proof fn lemma_steps_add_up(target: int, unit: int, direction: int, steps: int)
    requires
        i64::MIN <= target <= i64::MAX,
        unit >= 1,
        direction == 1 || direction == -1,
        steps >= 0,
    ensures
        clamp_i64(clamp_i64(target + direction * unit) + direction * steps * unit) == clamp_i64(
            target + direction * (steps + 1) * unit,
        ),
{
    let moved = steps * unit;
    assert(moved >= 0) by (nonlinear_arith)
        requires
            moved == steps * unit,
            steps >= 0,
            unit >= 1,
    ;
    assert(direction * steps * unit == direction * moved) by (nonlinear_arith)
        requires
            moved == steps * unit,
    ;
    assert(direction * (steps + 1) * unit == direction * unit + direction * moved) by (nonlinear_arith)
        requires
            moved == steps * unit,
    ;
    if direction == 1 {
        assert(direction * moved == moved) by (nonlinear_arith)
            requires
                direction == 1,
        ;
        assert(direction * unit == unit) by (nonlinear_arith)
            requires
                direction == 1,
        ;
    } else {
        assert(direction == -1);
        assert(direction * moved == -moved) by (nonlinear_arith)
            requires
                direction == -1,
        ;
        assert(direction * unit == -unit) by (nonlinear_arith)
            requires
                direction == -1,
        ;
    }
}

impl BeatGrid {
    /// The candidate a directional snap holds after `step` corrective steps
    /// from `target`.
    pub open spec fn spec_candidate(&self, target: int, unit: int, direction: int, step: int) -> int {
        self.spec_frames_at(clamp_i64(target + direction * step * unit))
    }

    /// A directional snap lands on the wanted side of the position unless
    /// every candidate it may consider lies on the other side.
    pub proof fn lemma_stepped_lands_on_side(
        self,
        frames: int,
        unit: int,
        target: int,
        direction: int,
        steps: nat,
    )
        requires
            i64::MIN <= target <= i64::MAX,
            unit >= 1,
            direction == 1 || direction == -1,
        ensures
            on_side(self.spec_stepped(frames, unit, target, direction, steps), frames, direction) || forall|step: int|
                0 <= step <= steps ==> !on_side(#[trigger] self.spec_candidate(target, unit, direction, step), frames, direction),
        decreases steps,
    {
        let result = self.spec_frames_at(target);
        assert(clamp_i64(target + direction * 0 * unit) == target);
        if steps > 0 && !on_side(result, frames, direction) {
            let next = clamp_i64(target + direction * unit);
            self.lemma_stepped_lands_on_side(frames, unit, next, direction, (steps - 1) as nat);
            assert(self.spec_stepped(frames, unit, target, direction, steps) == self.spec_stepped(
                frames,
                unit,
                next,
                direction,
                (steps - 1) as nat,
            ));
            if !on_side(self.spec_stepped(frames, unit, target, direction, steps), frames, direction) {
                assert forall|step: int| 0 <= step <= steps implies !on_side(
                    #[trigger] self.spec_candidate(target, unit, direction, step),
                    frames,
                    direction,
                ) by {
                    if step > 0 {
                        lemma_steps_add_up(target, unit, direction, step - 1);
                        assert(self.spec_candidate(next, unit, direction, step - 1) == self.spec_candidate(
                            target,
                            unit,
                            direction,
                            step,
                        ));
                    }
                }
            }
        }
    }
}

impl BeatGrid {
    /// Every segment of the grid's tempo map lasts at least one frame per tick.
    pub open spec fn each_tick_spans_a_frame(&self) -> bool {
        one_tick_spans_a_frame(self.spec_tempo_map().spec_hz(), self.spec_tempo_map().spec_segments())
    }

    /// Whether a tick position's frame position, before and after the origin
    /// is added, stays clear of the ends of the frame range.
    pub open spec fn frames_fit(&self, ticks: int) -> bool {
        let frames = self.spec_tempo_map().spec_frames_at(ticks);
        &&& i64::MIN < frames < i64::MAX
        &&& i64::MIN <= frames + self.spec_origin().0 <= i64::MAX
    }

    /// Whether a directional snap from a frame position stays clear of the
    /// ends of the ranges: the position relative to the origin, its musical
    /// position, and the first corrective step from the rounded-down point.
    pub open spec fn directional_snap_fits(&self, frames: int, unit: int, direction: int) -> bool {
        let relative = frames - self.spec_origin().0;
        &&& i64::MIN <= relative <= i64::MAX
        &&& i64::MIN < self.spec_tempo_map().spec_ticks_at(relative) < i64::MAX
        &&& i64::MIN <= spec_floor_to_multiple(self.spec_ticks_at(frames), unit) + direction * unit <= i64::MAX
    }

    /// The first corrective step of a directional snap already lies on the
    /// wanted side, at any tempo, so the snap lands there whenever nothing
    /// saturates.
    proof fn lemma_directional_snap_lands_on_side(self, frames: int, unit: int, direction: int)
        requires
            self.well_formed(),
            i64::MIN <= frames <= i64::MAX,
            unit >= 1,
            direction == 1 || direction == -1,
            self.directional_snap_fits(frames, unit, direction),
        ensures
            on_side(
                self.spec_stepped(
                    frames,
                    unit,
                    spec_floor_to_multiple(self.spec_ticks_at(frames), unit),
                    direction,
                    CORRECTION_STEPS as nat,
                ),
                frames,
                direction,
            ),
    {
        let map = self.spec_tempo_map();
        let origin = self.spec_origin().0 as int;
        let relative = frames - origin;
        assert(clamp_i64(relative) == relative);
        let t = self.spec_ticks_at(frames);
        assert(t == map.spec_ticks_at(relative));
        lemma_neighbouring_ticks_enclose_frames(map.spec_hz(), map.spec_segments(), relative);
        let floor = spec_floor_to_multiple(t, unit);
        if unit >= 2 {
            vstd::arithmetic::div_mod::lemma_fundamental_div_mod(t, unit);
            vstd::arithmetic::div_mod::lemma_mod_bound(t, unit);
            assert((t / unit) * unit == t - t % unit) by (nonlinear_arith)
                requires
                    t == unit * (t / unit) + t % unit,
            ;
        }
        assert(floor <= t);
        assert(floor + unit > t);
        assert(direction * 1 * unit == direction * unit) by (nonlinear_arith);
        let step = floor + direction * unit;
        if direction == -1 {
            assert(direction * unit == -unit) by (nonlinear_arith)
                requires
                    direction == -1,
            ;
            assert(step <= t - 1);
            map.lemma_frames_at_monotonic(step, t - 1);
            assert(map.spec_frames_at(step) <= relative);
        } else {
            assert(direction * unit == unit) by (nonlinear_arith)
                requires
                    direction == 1,
            ;
            assert(step >= t + 1);
            map.lemma_frames_at_monotonic(t + 1, step);
            assert(map.spec_frames_at(step) >= relative);
        }
        assert(clamp_i64(floor + direction * 1 * unit) == step);
        assert(on_side(self.spec_candidate(floor, unit, direction, 1), frames, direction));
        self.lemma_stepped_lands_on_side(frames, unit, floor, direction, CORRECTION_STEPS as nat);
    }

    /// A tick position converted to a frame position on the grid and back is
    /// the same tick position, whenever one tick lasts at least one frame and
    /// nothing saturates.
    pub proof fn lemma_grid_ticks_frames_ticks(self, ticks: int)
        requires
            self.well_formed(),
            self.each_tick_spans_a_frame(),
            i64::MIN <= ticks <= i64::MAX,
            self.frames_fit(ticks),
        ensures
            self.spec_ticks_at(self.spec_frames_at(ticks)) == ticks,
    {
        let map = self.spec_tempo_map();
        lemma_map_ticks_frames_ticks(map.spec_hz(), map.spec_segments(), ticks);
        let point = self.spec_frames_at(ticks);
        assert(point == map.spec_frames_at(ticks) + self.spec_origin().0);
        assert(clamp_i64(point - self.spec_origin().0) == map.spec_frames_at(ticks));
    }

    /// A point of the grid stays where it is: it is aligned, and snapping it
    /// to the nearest point, back, or forward returns it unchanged, whenever
    /// one tick lasts at least one frame and nothing saturates.
    pub proof fn lemma_grid_point_stays(self, ticks: int, resolution: SnapResolution)
        requires
            self.well_formed(),
            self.each_tick_spans_a_frame(),
            i64::MIN <= ticks <= i64::MAX,
            self.frames_fit(ticks),
            self.spec_ticks_per_unit(resolution) is Some,
            ticks % self.spec_ticks_per_unit(resolution)->0 == 0,
        ensures
            ({
                let unit = self.spec_ticks_per_unit(resolution)->0;
                let point = self.spec_frames_at(ticks);
                &&& self.spec_ticks_at(point) % unit == 0
                &&& self.spec_frames_at(spec_round_to_multiple(self.spec_ticks_at(point), unit)) == point
                &&& self.spec_stepped(
                    point,
                    unit,
                    spec_floor_to_multiple(self.spec_ticks_at(point), unit),
                    -1,
                    CORRECTION_STEPS as nat,
                ) == point
                &&& self.spec_stepped(
                    point,
                    unit,
                    spec_floor_to_multiple(self.spec_ticks_at(point), unit),
                    1,
                    CORRECTION_STEPS as nat,
                ) == point
            }),
    {
        let unit = self.spec_ticks_per_unit(resolution)->0;
        self.lemma_grid_ticks_frames_ticks(ticks);
        if unit >= 2 {
            vstd::arithmetic::div_mod::lemma_fundamental_div_mod(ticks, unit);
            assert((ticks / unit) * unit == ticks) by (nonlinear_arith)
                requires
                    ticks == unit * (ticks / unit) + ticks % unit,
                    ticks % unit == 0,
            ;
            assert(spec_floor_to_multiple(ticks, unit) == ticks);
            assert(spec_round_to_multiple(ticks, unit) == ticks);
        }
    }

    /// Snapping is idempotent: the snapped position is a point of the grid,
    /// which every snap then leaves alone, whenever one tick lasts at least one
    /// frame and nothing saturates.
    pub proof fn lemma_snap_is_idempotent(self, frames: int, resolution: SnapResolution)
        requires
            self.well_formed(),
            self.each_tick_spans_a_frame(),
            self.spec_ticks_per_unit(resolution) is Some,
            spec_round_to_multiple(self.spec_ticks_at(frames), self.spec_ticks_per_unit(resolution)->0)
                % self.spec_ticks_per_unit(resolution)->0 == 0,
            self.frames_fit(
                spec_round_to_multiple(self.spec_ticks_at(frames), self.spec_ticks_per_unit(resolution)->0),
            ),
        ensures
            ({
                let unit = self.spec_ticks_per_unit(resolution)->0;
                let snapped = self.spec_frames_at(spec_round_to_multiple(self.spec_ticks_at(frames), unit));
                &&& self.spec_ticks_at(snapped) % unit == 0
                &&& self.spec_frames_at(spec_round_to_multiple(self.spec_ticks_at(snapped), unit)) == snapped
                &&& self.spec_stepped(
                    snapped,
                    unit,
                    spec_floor_to_multiple(self.spec_ticks_at(snapped), unit),
                    -1,
                    CORRECTION_STEPS as nat,
                ) == snapped
                &&& self.spec_stepped(
                    snapped,
                    unit,
                    spec_floor_to_multiple(self.spec_ticks_at(snapped), unit),
                    1,
                    CORRECTION_STEPS as nat,
                ) == snapped
            }),
    {
        let unit = self.spec_ticks_per_unit(resolution)->0;
        let ticks = self.spec_ticks_at(frames);
        assert(i64::MIN <= ticks <= i64::MAX);
        let target = spec_round_to_multiple(ticks, unit);
        assert(i64::MIN <= target <= i64::MAX);
        self.lemma_grid_point_stays(target, resolution);
    }
}

} // verus!
