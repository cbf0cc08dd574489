//! A piecewise-constant tempo track.

use vstd::prelude::*;

use crate::time::conversion::{
    frames_from_ticks, lemma_ticks_frames_ticks, round_div, spec_frames_from_ticks, spec_ticks_from_frames,
    ticks_from_frames, MICROS_PER_SECOND,
};
use crate::time::error::TimeError;
use crate::time::frames::{clamp_i64, saturating_add_i64, saturating_sub_i64, Frames};
use crate::time::musical_time::Ticks;
use crate::time::sample_rate::{is_supported_rate, SampleRate};
use crate::time::tempo::{is_supported_tempo, Tempo};

verus! {

/// The largest number of tempo segments a map will hold, so that a corrupted
/// project cannot ask for an unbounded allocation.
pub const MAX_SEGMENTS: usize = 10_000;

/// One region of constant tempo.
#[derive(Debug, Clone, Copy, PartialEq, Eq, Structural)]
pub struct TempoSegment {
    /// Musical position at which this tempo takes effect.
    pub start_ticks: Ticks,
    /// Frame position of `start_ticks`, derived from every preceding segment.
    pub start_frames: Frames,
    /// The tempo in force from here until the next segment.
    pub tempo: Tempo,
}

/// The frame position of a musical position, measured from a segment's start
/// at that segment's tempo; every step saturates.
pub open spec fn frames_within(segment: TempoSegment, ticks: int, hz: int) -> int {
    clamp_i64(
        segment.start_frames.0 + spec_frames_from_ticks(
            clamp_i64(ticks - segment.start_ticks.0),
            hz,
            segment.tempo.spec_micros() as int,
        ),
    )
}

/// The musical position of a frame position, measured from a segment's start
/// at that segment's tempo; every step saturates.
pub open spec fn ticks_within(segment: TempoSegment, frames: int, hz: int) -> int {
    clamp_i64(
        segment.start_ticks.0 + spec_ticks_from_frames(
            clamp_i64(frames - segment.start_frames.0),
            hz,
            segment.tempo.spec_micros() as int,
        ),
    )
}

/// The start positions of the segments, in ticks.
pub open spec fn tick_starts(segments: Seq<TempoSegment>) -> Seq<int> {
    segments.map_values(|segment: TempoSegment| segment.start_ticks.0 as int)
}

/// The start positions of the segments, in frames.
pub open spec fn frame_starts(segments: Seq<TempoSegment>) -> Seq<int> {
    segments.map_values(|segment: TempoSegment| segment.start_frames.0 as int)
}

/// The tempo changes a map is made of: where each begins and its tempo.
pub open spec fn tempo_changes(segments: Seq<TempoSegment>) -> Seq<(Ticks, Tempo)> {
    segments.map_values(|segment: TempoSegment| (segment.start_ticks, segment.tempo))
}

/// The index of the last start at or before a position; the first index when
/// every start lies after it.
pub open spec fn last_at_or_before(starts: Seq<int>, position: int) -> int
    decreases starts.len(),
{
    if starts.len() <= 1 {
        0
    } else if starts.last() <= position {
        starts.len() - 1
    } else {
        last_at_or_before(starts.drop_last(), position)
    }
}

/// The tempo changes after setting a tempo from a position onward: the change
/// starting exactly there is replaced, otherwise one is inserted in order.
pub open spec fn with_tempo_at(segments: Seq<TempoSegment>, at: Ticks, tempo: Tempo) -> Seq<(Ticks, Tempo)> {
    let index = last_at_or_before(tick_starts(segments), at.0 as int);
    if tick_starts(segments).contains(at.0 as int) {
        tempo_changes(segments).update(index, (at, tempo))
    } else {
        tempo_changes(segments).insert(index + 1, (at, tempo))
    }
}

/// What makes a sequence of segments a tempo map at a sample rate: at least
/// one segment and at most the bound, the first at tick and frame zero, starts
/// strictly ascending in ticks, and every frame start derived from the segment
/// before it.
pub open spec fn tempo_map_valid(hz: int, segments: Seq<TempoSegment>) -> bool {
    &&& is_supported_rate(hz)
    &&& 1 <= segments.len() <= MAX_SEGMENTS
    &&& segments[0].start_ticks.0 == 0
    &&& segments[0].start_frames.0 == 0
    &&& forall|i: int| 0 <= i < segments.len() ==> is_supported_tempo(#[trigger] segments[i].tempo.spec_micros() as int)
    &&& forall|i: int, j: int|
        0 <= i < j < segments.len() ==> segments[i].start_ticks.0 < segments[j].start_ticks.0
    &&& forall|i: int, j: int|
        0 <= i < j < segments.len() ==> segments[i].start_frames.0 <= segments[j].start_frames.0
    &&& forall|i: int|
        1 <= i < segments.len() ==> (#[trigger] segments[i]).start_frames.0 == frames_within(
            segments[i - 1],
            segments[i].start_ticks.0 as int,
            hz,
        )
}

/// The frame position of a musical position under a tempo map.
pub open spec fn map_frames_at(hz: int, segments: Seq<TempoSegment>, ticks: int) -> int {
    frames_within(segments[last_at_or_before(tick_starts(segments), ticks)], ticks, hz)
}

/// The musical position of a frame position under a tempo map.
pub open spec fn map_ticks_at(hz: int, segments: Seq<TempoSegment>, frames: int) -> int {
    ticks_within(segments[last_at_or_before(frame_starts(segments), frames)], frames, hz)
}

/// The index found by `last_at_or_before` is in range, starts at or before the
/// position unless it is the first, and every later start lies after it.
pub proof fn lemma_last_at_or_before_properties(starts: Seq<int>, position: int)
    requires
        starts.len() >= 1,
    ensures
        0 <= last_at_or_before(starts, position) < starts.len(),
        last_at_or_before(starts, position) == 0 || starts[last_at_or_before(starts, position)] <= position,
        forall|j: int|
            last_at_or_before(starts, position) < j < starts.len() ==> starts[j] > position,
    decreases starts.len(),
{
    if starts.len() > 1 && starts.last() > position {
        let shorter = starts.drop_last();
        lemma_last_at_or_before_properties(shorter, position);
        let index = last_at_or_before(shorter, position);
        assert forall|j: int| index < j < starts.len() implies starts[j] > position by {
            if j < shorter.len() {
                assert(shorter[j] == starts[j]);
            }
        }
    }
}

/// Those three properties pin the index down.
pub proof fn lemma_last_at_or_before_unique(starts: Seq<int>, position: int, index: int)
    requires
        starts.len() >= 1,
        0 <= index < starts.len(),
        index == 0 || starts[index] <= position,
        forall|j: int| index < j < starts.len() ==> starts[j] > position,
    ensures
        last_at_or_before(starts, position) == index,
    decreases starts.len(),
{
    if starts.len() > 1 {
        if starts.last() <= position {
            assert(index == starts.len() - 1);
        } else {
            let shorter = starts.drop_last();
            assert(index < starts.len() - 1);
            lemma_last_at_or_before_unique(shorter, position, index);
        }
    }
}

/// A piecewise-constant tempo track.
///
/// Recorded material speeds up and slows down; a single tempo cannot express
/// that. Segments are ordered by their start in ticks, the first starts at the
/// origin, and each caches its start in frames so that a conversion never has
/// to re-derive it.
#[derive(Debug, Clone, PartialEq, Eq)]
pub struct TempoMap {
    sample_rate: SampleRate,
    segments: Vec<TempoSegment>,
}

impl TempoMap {
    /// The sample rate the frame positions are expressed in.
    pub closed spec fn spec_sample_rate(&self) -> SampleRate {
        self.sample_rate
    }

    /// The segments, in ascending order.
    pub closed spec fn spec_segments(&self) -> Seq<TempoSegment> {
        self.segments@
    }

    /// The sample rate in hertz.
    pub open spec fn spec_hz(&self) -> int {
        self.spec_sample_rate().spec_hz() as int
    }

    /// Whether the map keeps its invariants; every map this type builds does.
    pub open spec fn well_formed(&self) -> bool {
        tempo_map_valid(self.spec_hz(), self.spec_segments())
    }

    /// The frame position of a musical position.
    pub open spec fn spec_frames_at(&self, ticks: int) -> int {
        map_frames_at(self.spec_hz(), self.spec_segments(), ticks)
    }

    /// The musical position of a frame position.
    pub open spec fn spec_ticks_at(&self, frames: int) -> int {
        map_ticks_at(self.spec_hz(), self.spec_segments(), frames)
    }

    /// Creates a map with a single tempo from the origin.
    pub fn new(sample_rate: SampleRate, tempo: Tempo) -> (map: TempoMap)
        ensures
            map.well_formed(),
            map.spec_sample_rate() == sample_rate,
            map.spec_segments() == seq![
                TempoSegment { start_ticks: Ticks(0), start_frames: Frames(0), tempo },
            ],
    {
        let _ = sample_rate.hz();
        let _ = tempo.micros_per_beat();
        let mut segments: Vec<TempoSegment> = Vec::new();
        segments.push(TempoSegment { start_ticks: Ticks(0), start_frames: Frames(0), tempo });
        TempoMap { sample_rate, segments }
    }

    /// The sample rate the frame positions are expressed in.
    pub fn sample_rate(&self) -> (rate: SampleRate)
        ensures
            rate == self.spec_sample_rate(),
    {
        self.sample_rate
    }

    /// Every segment, in ascending order.
    pub fn segments(&self) -> (segments: &[TempoSegment])
        ensures
            segments@ == self.spec_segments(),
    {
        self.segments.as_slice()
    }

    /// Number of segments.
    pub fn segment_count(&self) -> (count: usize)
        ensures
            count == self.spec_segments().len(),
    {
        self.segments.len()
    }

    /// Index of the last segment starting at or before a position, by ticks or
    /// by frames; the first segment governs positions before every start.
    fn governing_index(&self, position: i64, by_frames: bool) -> (index: usize)
        requires
            self.well_formed(),
        ensures
            by_frames ==> index == last_at_or_before(frame_starts(self.spec_segments()), position as int),
            !by_frames ==> index == last_at_or_before(tick_starts(self.spec_segments()), position as int),
            index < self.spec_segments().len(),
    {
        let ghost segments = self.spec_segments();
        let ghost starts = if by_frames { frame_starts(segments) } else { tick_starts(segments) };
        let mut low: usize = 0;
        let mut high: usize = self.segments.len();
        while low < high
            invariant
                self.well_formed(),
                segments == self.spec_segments(),
                starts == (if by_frames { frame_starts(segments) } else { tick_starts(segments) }),
                0 <= low <= high <= segments.len(),
                forall|k: int| 0 <= k < low ==> starts[k] <= position,
                forall|k: int| high <= k < segments.len() ==> starts[k] > position,
            decreases high - low,
        {
            let middle = low + (high - low) / 2;
            let segment = self.segments[middle];
            let key = if by_frames { segment.start_frames.0 } else { segment.start_ticks.0 };
            assert(key == starts[middle as int]);
            if key <= position {
                assert forall|k: int| 0 <= k <= middle implies starts[k] <= position by {
                    if k < middle {
                        assert(segments[k].start_ticks.0 < segments[middle as int].start_ticks.0);
                        assert(segments[k].start_frames.0 <= segments[middle as int].start_frames.0);
                    }
                }
                low = middle + 1;
            } else {
                assert forall|k: int| middle <= k < segments.len() implies starts[k] > position by {
                    if k > middle {
                        assert(segments[middle as int].start_ticks.0 < segments[k].start_ticks.0);
                        assert(segments[middle as int].start_frames.0 <= segments[k].start_frames.0);
                    }
                }
                high = middle;
            }
        }
        let index = if low == 0 { 0 } else { low - 1 };
        proof {
            lemma_last_at_or_before_unique(starts, position as int, index as int);
        }
        index
    }

    /// Returns the segment governing a musical position.
    pub fn segment_at_ticks(&self, ticks: Ticks) -> (segment: TempoSegment)
        requires
            self.well_formed(),
        ensures
            segment == self.spec_segments()[last_at_or_before(tick_starts(self.spec_segments()), ticks.0 as int)],
    {
        let index = self.governing_index(ticks.0, false);
        self.segments[index]
    }

    /// Returns the tempo in force at a musical position.
    pub fn tempo_at_ticks(&self, ticks: Ticks) -> (tempo: Tempo)
        requires
            self.well_formed(),
        ensures
            tempo == self.spec_segments()[last_at_or_before(tick_starts(self.spec_segments()), ticks.0 as int)].tempo,
    {
        self.segment_at_ticks(ticks).tempo
    }

    /// Returns the tempo in force at a frame position.
    pub fn tempo_at_frames(&self, frames: Frames) -> (tempo: Tempo)
        requires
            self.well_formed(),
        ensures
            tempo == self.spec_segments()[last_at_or_before(frame_starts(self.spec_segments()), frames.0 as int)].tempo,
    {
        let index = self.governing_index(frames.0, true);
        self.segments[index].tempo
    }

    /// Converts a frame position to a musical position.
    pub fn ticks_at(&self, frames: Frames) -> (ticks: Ticks)
        requires
            self.well_formed(),
        ensures
            ticks.0 == self.spec_ticks_at(frames.0 as int),
    {
        let index = self.governing_index(frames.0, true);
        let segment = self.segments[index];
        let elapsed = saturating_sub_i64(frames.0, segment.start_frames.0);
        let within = ticks_from_frames(elapsed, self.sample_rate, segment.tempo);
        Ticks(saturating_add_i64(segment.start_ticks.0, within))
    }

    /// Converts a musical position to a frame position.
    pub fn frames_at(&self, ticks: Ticks) -> (frames: Frames)
        requires
            self.well_formed(),
        ensures
            frames.0 == self.spec_frames_at(ticks.0 as int),
    {
        let index = self.governing_index(ticks.0, false);
        let segment = self.segments[index];
        let elapsed = saturating_sub_i64(ticks.0, segment.start_ticks.0);
        let within = frames_from_ticks(elapsed, self.sample_rate, segment.tempo);
        Frames(saturating_add_i64(segment.start_frames.0, within))
    }

    /// Rebuilds every segment's start in frames from the segment before it,
    /// after any structural change.
    fn recompute_frames(&mut self)
        requires
            is_supported_rate(old(self).spec_hz()),
            1 <= old(self).spec_segments().len() <= MAX_SEGMENTS,
            old(self).spec_segments()[0].start_ticks.0 == 0,
            forall|i: int| 0 <= i < old(self).spec_segments().len()
                ==> is_supported_tempo(#[trigger] old(self).spec_segments()[i].tempo.spec_micros() as int),
            forall|i: int, j: int| 0 <= i < j < old(self).spec_segments().len()
                ==> old(self).spec_segments()[i].start_ticks.0 < old(self).spec_segments()[j].start_ticks.0,
        ensures
            final(self).well_formed(),
            final(self).spec_sample_rate() == old(self).spec_sample_rate(),
            tempo_changes(final(self).spec_segments()) == tempo_changes(old(self).spec_segments()),
    {
        let ghost before = self.segments@;
        let ghost hz = self.spec_hz();
        let mut first = self.segments[0];
        first.start_frames = Frames(0);
        self.segments.set(0, first);
        let mut i: usize = 1;
        while i < self.segments.len()
            invariant
                hz == self.spec_hz(),
                is_supported_rate(hz),
                self.sample_rate == old(self).sample_rate,
                before == old(self).segments@,
                self.segments@.len() == before.len(),
                1 <= i <= before.len() <= MAX_SEGMENTS,
                before[0].start_ticks.0 == 0,
                forall|k: int| 0 <= k < before.len() ==> is_supported_tempo(#[trigger] before[k].tempo.spec_micros() as int),
                forall|a: int, b: int| 0 <= a < b < before.len() ==> before[a].start_ticks.0 < before[b].start_ticks.0,
                forall|k: int| 0 <= k < before.len() ==> (#[trigger] self.segments@[k]).start_ticks == before[k].start_ticks
                    && self.segments@[k].tempo == before[k].tempo,
                self.segments@[0].start_frames.0 == 0,
                forall|k: int| 1 <= k < i ==> (#[trigger] self.segments@[k]).start_frames.0 == frames_within(
                    self.segments@[k - 1],
                    self.segments@[k].start_ticks.0 as int,
                    hz,
                ),
                forall|a: int, b: int| 0 <= a < b < i ==> self.segments@[a].start_frames.0 <= self.segments@[b].start_frames.0,
            decreases before.len() - i,
        {
            let previous = self.segments[i - 1];
            let mut segment = self.segments[i];
            assert(self.segments@[i as int - 1] == previous);
            assert(before[i as int - 1].start_ticks.0 < before[i as int].start_ticks.0);
            assert(before[0].start_ticks.0 <= before[i as int - 1].start_ticks.0) by {
                if i > 1 {
                    assert(before[0].start_ticks.0 < before[i as int - 1].start_ticks.0);
                }
            }
            let elapsed = saturating_sub_i64(segment.start_ticks.0, previous.start_ticks.0);
            let span = frames_from_ticks(elapsed, self.sample_rate, previous.tempo);
            proof {
                lemma_span_nonnegative(elapsed as int, hz, previous.tempo.spec_micros() as int);
            }
            segment.start_frames = Frames(saturating_add_i64(previous.start_frames.0, span));
            self.segments.set(i, segment);
            i += 1;
        }
        proof {
            assert(tempo_changes(self.segments@) =~= tempo_changes(before));
        }
    }

    /// Sets the tempo from a musical position onward.
    ///
    /// Replaces the segment that begins exactly there, otherwise inserts one.
    /// Positions before `at` keep their interpretation. Fails with
    /// `ConversionOverflow`, changing nothing, when `at` is negative or a new
    /// segment would exceed the bound.
    pub fn set_tempo_at(&mut self, at: Ticks, tempo: Tempo) -> (result: Result<(), TimeError>)
        requires
            old(self).well_formed(),
        ensures
            final(self).well_formed(),
            final(self).spec_sample_rate() == old(self).spec_sample_rate(),
            result is Ok <==> at.0 >= 0 && (tick_starts(old(self).spec_segments()).contains(at.0 as int)
                || old(self).spec_segments().len() < MAX_SEGMENTS),
            result is Err ==> result == Err::<(), TimeError>(TimeError::ConversionOverflow)
                && *final(self) == *old(self),
            result is Ok ==> tempo_changes(final(self).spec_segments()) == with_tempo_at(
                old(self).spec_segments(),
                at,
                tempo,
            ),
            result is Ok ==> tick_starts(final(self).spec_segments()).contains(at.0 as int),
            result is Ok ==> final(self).spec_segments()[last_at_or_before(
                tick_starts(final(self).spec_segments()),
                at.0 as int,
            )].tempo == tempo,
            result is Ok ==> final(self).spec_segments().len() == old(self).spec_segments().len() + (if tick_starts(
                old(self).spec_segments(),
            ).contains(at.0 as int) {
                0int
            } else {
                1int
            }),
    {
        if at.0 < 0 {
            return Err(TimeError::ConversionOverflow);
        }
        let _ = tempo.micros_per_beat();
        let ghost before = self.segments@;
        let ghost starts = tick_starts(before);
        let index = self.governing_index(at.0, false);
        proof {
            lemma_last_at_or_before_properties(starts, at.0 as int);
            assert(starts[0] == before[0].start_ticks.0);
        }
        let current = self.segments[index];
        if current.start_ticks.0 == at.0 {
            assert(starts[index as int] == at.0);
            let mut replaced = current;
            replaced.tempo = tempo;
            self.segments.set(index, replaced);
            proof {
                assert(tempo_changes(self.segments@) =~= tempo_changes(before).update(index as int, (at, tempo)));
            }
        } else {
            proof {
                lemma_start_found_only_at_index(before, at.0 as int, index as int);
            }
            if self.segments.len() >= MAX_SEGMENTS {
                return Err(TimeError::ConversionOverflow);
            }
            self.segments.insert(
                index + 1,
                TempoSegment { start_ticks: at, start_frames: Frames(0), tempo },
            );
            proof {
                let after = self.segments@;
                let added = TempoSegment { start_ticks: at, start_frames: Frames(0), tempo };
                assert(after == before.insert(index as int + 1, added));
                assert(tempo_changes(after) =~= tempo_changes(before).insert(index as int + 1, (at, tempo)));
                lemma_insert_keeps_order(before, index as int, added);
            }
        }
        self.recompute_frames();
        proof {
            lemma_set_tempo_read_back(before, self.segments@, at, tempo, self.spec_hz());
        }
        Ok(())
    }

    /// Removes the tempo change beginning at a musical position.
    ///
    /// The segment at the origin cannot be removed; a map always has a tempo.
    /// Returns `true` exactly when a segment was removed.
    pub fn remove_tempo_at(&mut self, at: Ticks) -> (removed: bool)
        requires
            old(self).well_formed(),
        ensures
            final(self).well_formed(),
            final(self).spec_sample_rate() == old(self).spec_sample_rate(),
            removed == (at.0 != 0 && tick_starts(old(self).spec_segments()).contains(at.0 as int)),
            !removed ==> *final(self) == *old(self),
            removed ==> tempo_changes(final(self).spec_segments()) == tempo_changes(old(self).spec_segments()).remove(
                last_at_or_before(tick_starts(old(self).spec_segments()), at.0 as int),
            ),
    {
        let ghost before = self.segments@;
        let ghost starts = tick_starts(before);
        if at.0 == 0 {
            return false;
        }
        let index = self.governing_index(at.0, false);
        proof {
            lemma_last_at_or_before_properties(starts, at.0 as int);
        }
        if self.segments[index].start_ticks.0 != at.0 {
            proof {
                lemma_start_found_only_at_index(before, at.0 as int, index as int);
            }
            return false;
        }
        assert(starts[index as int] == at.0);
        assert(index > 0);
        let _ = self.segments.remove(index);
        proof {
            let after = self.segments@;
            assert(after == before.remove(index as int));
            assert(tempo_changes(after) =~= tempo_changes(before).remove(index as int));
            lemma_remove_keeps_order(before, index as int);
        }
        self.recompute_frames();
        true
    }

    /// Changes the sample rate, preserving every musical position: frame
    /// positions are recomputed, the tempo changes are untouched.
    pub fn set_sample_rate(&mut self, sample_rate: SampleRate)
        requires
            old(self).well_formed(),
        ensures
            final(self).well_formed(),
            final(self).spec_sample_rate() == sample_rate,
            tempo_changes(final(self).spec_segments()) == tempo_changes(old(self).spec_segments()),
    {
        let _ = sample_rate.hz();
        self.sample_rate = sample_rate;
        self.recompute_frames();
    }
}

/// When the governing start of a position is not the position itself, no
/// segment starts there.
proof fn lemma_start_found_only_at_index(segments: Seq<TempoSegment>, at: int, index: int)
    requires
        0 <= index < segments.len(),
        forall|i: int, j: int|
            0 <= i < j < segments.len() ==> segments[i].start_ticks.0 < segments[j].start_ticks.0,
        index == 0 || tick_starts(segments)[index] <= at,
        tick_starts(segments)[index] != at,
        forall|j: int| index < j < segments.len() ==> tick_starts(segments)[j] > at,
    ensures
        !tick_starts(segments).contains(at),
{
    let starts = tick_starts(segments);
    if starts.contains(at) {
        let j = choose|j: int| 0 <= j < starts.len() && starts[j] == at;
        if j < index {
            assert(segments[j].start_ticks.0 < segments[index].start_ticks.0);
        }
    }
}

/// Inserting a segment between its neighbours keeps the starts ascending and
/// every tempo supported.
proof fn lemma_insert_keeps_order(before: Seq<TempoSegment>, index: int, added: TempoSegment)
    requires
        0 <= index < before.len(),
        forall|i: int, j: int|
            0 <= i < j < before.len() ==> before[i].start_ticks.0 < before[j].start_ticks.0,
        forall|i: int| 0 <= i < before.len() ==> is_supported_tempo(#[trigger] before[i].tempo.spec_micros() as int),
        is_supported_tempo(added.tempo.spec_micros() as int),
        before[index].start_ticks.0 < added.start_ticks.0,
        forall|j: int| index < j < before.len() ==> tick_starts(before)[j] > added.start_ticks.0,
    ensures
        ({
            let after = before.insert(index + 1, added);
            &&& after[0] == before[0]
            &&& forall|i: int, j: int|
                0 <= i < j < after.len() ==> after[i].start_ticks.0 < after[j].start_ticks.0
            &&& forall|i: int| 0 <= i < after.len() ==> is_supported_tempo(#[trigger] after[i].tempo.spec_micros() as int)
        }),
{
    let after = before.insert(index + 1, added);
    let starts = tick_starts(before);
    assert forall|a: int, b: int| 0 <= a < b < after.len() implies after[a].start_ticks.0 < after[b].start_ticks.0 by {
        if b <= index {
        } else if b == index + 1 {
            if a < index {
                assert(before[a].start_ticks.0 < before[index].start_ticks.0);
            }
        } else if a == index + 1 {
            assert(starts[b - 1] > added.start_ticks.0);
        } else if a <= index {
            assert(before[a].start_ticks.0 < before[b - 1].start_ticks.0);
        } else {
            assert(before[a - 1].start_ticks.0 < before[b - 1].start_ticks.0);
        }
    }
    assert forall|k: int| 0 <= k < after.len() implies is_supported_tempo(#[trigger] after[k].tempo.spec_micros() as int) by {
        if k <= index {
            assert(after[k] == before[k]);
        } else if k > index + 1 {
            assert(after[k] == before[k - 1]);
        }
    }
}

/// Removing a segment other than the first keeps the starts ascending and
/// every tempo supported.
proof fn lemma_remove_keeps_order(before: Seq<TempoSegment>, index: int)
    requires
        0 < index < before.len(),
        forall|i: int, j: int|
            0 <= i < j < before.len() ==> before[i].start_ticks.0 < before[j].start_ticks.0,
        forall|i: int| 0 <= i < before.len() ==> is_supported_tempo(#[trigger] before[i].tempo.spec_micros() as int),
    ensures
        ({
            let after = before.remove(index);
            &&& after[0] == before[0]
            &&& forall|i: int, j: int|
                0 <= i < j < after.len() ==> after[i].start_ticks.0 < after[j].start_ticks.0
            &&& forall|i: int| 0 <= i < after.len() ==> is_supported_tempo(#[trigger] after[i].tempo.spec_micros() as int)
        }),
{
    let after = before.remove(index);
    assert forall|a: int, b: int| 0 <= a < b < after.len() implies after[a].start_ticks.0 < after[b].start_ticks.0 by {
        if b < index {
        } else if a < index {
            assert(before[a].start_ticks.0 < before[b + 1].start_ticks.0);
        } else {
            assert(before[a + 1].start_ticks.0 < before[b + 1].start_ticks.0);
        }
    }
    assert forall|k: int| 0 <= k < after.len() implies is_supported_tempo(#[trigger] after[k].tempo.spec_micros() as int) by {
        if k < index {
            assert(after[k] == before[k]);
        } else {
            assert(after[k] == before[k + 1]);
        }
    }
}

/// A span of zero or more ticks lasts zero or more frames.
pub proof fn lemma_span_nonnegative(ticks: int, hz: int, micros: int)
    requires
        ticks >= 0,
        hz >= 1,
        micros >= 1,
    ensures
        spec_frames_from_ticks(ticks, hz, micros) >= 0,
{
    assert(ticks * hz * micros >= 0) by (nonlinear_arith)
        requires
            ticks >= 0,
            hz >= 1,
            micros >= 1,
    ;
    crate::time::conversion::lemma_round_div_bounded(ticks * hz * micros, 3_840_000_000);
}

/// Rounding division is monotonic in its dividend.
pub proof fn lemma_round_div_monotonic(a: int, b: int, denominator: int)
    requires
        denominator >= 1,
        a <= b,
    ensures
        crate::time::conversion::round_div(a, denominator) <= crate::time::conversion::round_div(b, denominator),
{
    let half = denominator / 2;
    if a >= 0 {
        vstd::arithmetic::div_mod::lemma_div_is_ordered(a + half, b + half, denominator);
    } else if b >= 0 {
        crate::time::conversion::lemma_round_div_bounded(a, denominator);
        crate::time::conversion::lemma_round_div_bounded(b, denominator);
    } else {
        vstd::arithmetic::div_mod::lemma_div_is_ordered(half - b, half - a, denominator);
    }
}

/// A later position within a segment is no earlier in frames.
pub proof fn lemma_frames_within_monotonic(segment: TempoSegment, a: int, b: int, hz: int)
    requires
        a <= b,
        is_supported_rate(hz),
        is_supported_tempo(segment.tempo.spec_micros() as int),
    ensures
        frames_within(segment, a, hz) <= frames_within(segment, b, hz),
{
    let micros = segment.tempo.spec_micros() as int;
    let ea = clamp_i64(a - segment.start_ticks.0);
    let eb = clamp_i64(b - segment.start_ticks.0);
    assert(ea <= eb);
    assert(ea * hz * micros <= eb * hz * micros) by (nonlinear_arith)
        requires
            ea <= eb,
            hz >= 1,
            micros >= 1,
    ;
    lemma_round_div_monotonic(ea * hz * micros, eb * hz * micros, 3_840_000_000);
}

/// At its own start, a segment is at its start in frames.
pub proof fn lemma_frames_within_at_start(segment: TempoSegment, hz: int)
    ensures
        frames_within(segment, segment.start_ticks.0 as int, hz) == segment.start_frames.0,
{
    let micros = segment.tempo.spec_micros() as int;
    assert(0 * hz * micros == 0) by (nonlinear_arith);
    crate::time::conversion::lemma_round_div_zero(3_840_000_000);
}

/// From its own start onward, a segment is at or after its start in frames.
pub proof fn lemma_frames_within_after_start(segment: TempoSegment, ticks: int, hz: int)
    requires
        segment.start_ticks.0 <= ticks,
        is_supported_rate(hz),
        is_supported_tempo(segment.tempo.spec_micros() as int),
    ensures
        segment.start_frames.0 <= frames_within(segment, ticks, hz),
{
    lemma_frames_within_at_start(segment, hz);
    lemma_frames_within_monotonic(segment, segment.start_ticks.0 as int, ticks, hz);
}

/// Under a tempo map a later musical position is never at an earlier frame.
proof fn lemma_map_frames_monotonic(hz: int, segments: Seq<TempoSegment>, a: int, b: int)
    requires
        tempo_map_valid(hz, segments),
        a <= b,
    ensures
        map_frames_at(hz, segments, a) <= map_frames_at(hz, segments, b),
{
    let starts = tick_starts(segments);
    lemma_last_at_or_before_properties(starts, a);
    lemma_last_at_or_before_properties(starts, b);
    let ia = last_at_or_before(starts, a);
    let ib = last_at_or_before(starts, b);
    if ia > ib {
        assert(starts[ia] > b);
    }
    assert(ia <= ib);
    if ia == ib {
        lemma_frames_within_monotonic(segments[ia], a, b, hz);
    } else {
        let next = ia + 1;
        assert(starts[next] > a);
        lemma_frames_within_monotonic(segments[ia], a, segments[next].start_ticks.0 as int, hz);
        assert(segments[next].start_frames.0 == frames_within(
            segments[next - 1],
            segments[next].start_ticks.0 as int,
            hz,
        ));
        if next < ib {
            assert(segments[next].start_frames.0 <= segments[ib].start_frames.0);
        }
        assert(starts[ib] <= b);
        lemma_frames_within_after_start(segments[ib], b, hz);
    }
}

impl TempoMap {
    /// Time never goes backwards: a later musical position is never at an
    /// earlier frame, however the tempo changes.
    pub proof fn lemma_frames_at_monotonic(self, a: int, b: int)
        requires
            self.well_formed(),
            a <= b,
        ensures
            self.spec_frames_at(a) <= self.spec_frames_at(b),
    {
        lemma_map_frames_monotonic(self.spec_hz(), self.spec_segments(), a, b);
    }
}

/// Two maps whose tempo changes agree up to an index, tempo included below
/// it, agree on every segment below it and on that segment's frame start.
proof fn lemma_prefix_agrees(hz: int, before: Seq<TempoSegment>, after: Seq<TempoSegment>, index: int)
    requires
        tempo_map_valid(hz, before),
        tempo_map_valid(hz, after),
        0 <= index < before.len(),
        index < after.len(),
        forall|i: int| 0 <= i <= index ==> (#[trigger] after[i]).start_ticks == before[i].start_ticks,
        forall|i: int| 0 <= i < index ==> (#[trigger] after[i]).tempo == before[i].tempo,
    ensures
        forall|i: int| 0 <= i < index ==> #[trigger] after[i] == before[i],
        after[index].start_frames == before[index].start_frames,
    decreases index,
{
    if index > 0 {
        lemma_prefix_agrees(hz, before, after, index - 1);
        assert(after[index - 1].start_ticks == before[index - 1].start_ticks);
        assert(after[index - 1].tempo == before[index - 1].tempo);
        assert(after[index - 1] == before[index - 1]);
        assert(after[index].start_frames.0 == frames_within(after[index - 1], after[index].start_ticks.0 as int, hz));
        assert(before[index].start_frames.0 == frames_within(before[index - 1], before[index].start_ticks.0 as int, hz));
    }
}

/// Replacing the tempo of an existing change keeps every position from the
/// origin up to that change.
proof fn lemma_update_keeps_earlier(
    hz: int,
    old_segments: Seq<TempoSegment>,
    new_segments: Seq<TempoSegment>,
    at: Ticks,
    tempo: Tempo,
    ticks: int,
)
    requires
        tempo_map_valid(hz, old_segments),
        tempo_map_valid(hz, new_segments),
        at.0 >= 0,
        tick_starts(old_segments).contains(at.0 as int),
        tempo_changes(new_segments) == tempo_changes(old_segments).update(
            last_at_or_before(tick_starts(old_segments), at.0 as int),
            (at, tempo),
        ),
        ticks <= at.0,
        at.0 == 0 ==> ticks == 0,
    ensures
        map_frames_at(hz, new_segments, ticks) == map_frames_at(hz, old_segments, ticks),
{
    let old_starts = tick_starts(old_segments);
    let new_starts = tick_starts(new_segments);
    let changes = tempo_changes(new_segments);
    let k = last_at_or_before(old_starts, at.0 as int);
    lemma_last_at_or_before_properties(old_starts, at.0 as int);
    lemma_last_at_or_before_properties(old_starts, ticks);
    let g = last_at_or_before(old_starts, ticks);
    assert(old_starts[0] == 0);
    assert(g <= k) by {
        if g > k {
            assert(old_starts[g] > at.0);
        }
    }
    if old_starts[k] != at.0 {
        lemma_start_found_only_at_index(old_segments, at.0 as int, k);
    }
    assert(changes.len() == new_segments.len());
    assert(tempo_changes(old_segments).len() == old_segments.len());
    assert(new_segments.len() == old_segments.len());
    assert forall|i: int| 0 <= i < new_segments.len() implies (#[trigger] new_segments[i]).start_ticks
        == old_segments[i].start_ticks && (i != k ==> new_segments[i].tempo == old_segments[i].tempo) by {
        assert(changes[i] == tempo_changes(old_segments).update(k, (at, tempo))[i]);
    }
    lemma_prefix_agrees(hz, old_segments, new_segments, k);
    assert(new_starts =~= old_starts);
    if g == k {
        lemma_frames_within_at_start(new_segments[k], hz);
        lemma_frames_within_at_start(old_segments[k], hz);
    }
}

/// Inserting a tempo change keeps every position up to it.
#[verifier::rlimit(40)]
proof fn lemma_insert_keeps_earlier(
    hz: int,
    old_segments: Seq<TempoSegment>,
    new_segments: Seq<TempoSegment>,
    at: Ticks,
    tempo: Tempo,
    ticks: int,
)
    requires
        tempo_map_valid(hz, old_segments),
        tempo_map_valid(hz, new_segments),
        at.0 >= 0,
        !tick_starts(old_segments).contains(at.0 as int),
        tempo_changes(new_segments) == tempo_changes(old_segments).insert(
            last_at_or_before(tick_starts(old_segments), at.0 as int) + 1,
            (at, tempo),
        ),
        ticks <= at.0,
    ensures
        map_frames_at(hz, new_segments, ticks) == map_frames_at(hz, old_segments, ticks),
{
    let old_starts = tick_starts(old_segments);
    let new_starts = tick_starts(new_segments);
    let changes = tempo_changes(new_segments);
    let k = last_at_or_before(old_starts, at.0 as int);
    let added = (at, tempo);
    lemma_last_at_or_before_properties(old_starts, at.0 as int);
    lemma_last_at_or_before_properties(old_starts, ticks);
    let g = last_at_or_before(old_starts, ticks);
    assert(old_starts[0] == 0);
    assert(g <= k) by {
        if g > k {
            assert(old_starts[g] > at.0);
        }
    }
    assert(changes.len() == new_segments.len());
    assert(tempo_changes(old_segments).len() == old_segments.len());
    assert(new_segments.len() == old_segments.len() + 1);
    assert forall|i: int| 0 <= i <= k implies (#[trigger] new_segments[i]).start_ticks == old_segments[i].start_ticks
        && new_segments[i].tempo == old_segments[i].tempo by {
        assert(changes[i] == tempo_changes(old_segments).insert(k + 1, added)[i]);
    }
    lemma_prefix_agrees(hz, old_segments, new_segments, k);
    assert(new_segments[k] == old_segments[k]);
    assert(changes[k + 1] == added);
    assert(new_starts[k + 1] == at.0);
    assert forall|j: int| k + 1 < j < new_starts.len() implies new_starts[j] == old_starts[j - 1] by {
        assert(changes[j] == tempo_changes(old_segments).insert(k + 1, added)[j]);
    }
    assert forall|j: int| 0 <= j <= k implies new_starts[j] == old_starts[j] by {
        assert(new_segments[j].start_ticks == old_segments[j].start_ticks);
    }
    if ticks < at.0 {
        lemma_last_at_or_before_unique(new_starts, ticks, g);
        assert(new_segments[g] == old_segments[g]);
    } else {
        lemma_last_at_or_before_unique(new_starts, ticks, k + 1);
        lemma_frames_within_at_start(new_segments[k + 1], hz);
        assert(new_segments[k + 1].start_frames.0 == frames_within(
            new_segments[k],
            new_segments[k + 1].start_ticks.0 as int,
            hz,
        ));
    }
}

impl TempoMap {
    /// Correcting a tempo late in a track does not move the grid at its start:
    /// after a tempo is set from `at` onward, every position from the origin
    /// up to `at` is at the same frame as before. (A tempo set at the origin
    /// itself changes how positions before the origin extrapolate, so there
    /// only the origin is kept.)
    pub proof fn lemma_tempo_change_keeps_earlier_positions(
        before: TempoMap,
        after: TempoMap,
        at: Ticks,
        tempo: Tempo,
        ticks: int,
    )
        requires
            before.well_formed(),
            after.well_formed(),
            after.spec_sample_rate() == before.spec_sample_rate(),
            at.0 >= 0,
            tempo_changes(after.spec_segments()) == with_tempo_at(before.spec_segments(), at, tempo),
            ticks <= at.0,
            at.0 == 0 ==> ticks == 0,
        ensures
            after.spec_frames_at(ticks) == before.spec_frames_at(ticks),
    {
        if tick_starts(before.spec_segments()).contains(at.0 as int) {
            lemma_update_keeps_earlier(before.spec_hz(), before.spec_segments(), after.spec_segments(), at, tempo, ticks);
        } else {
            lemma_insert_keeps_earlier(before.spec_hz(), before.spec_segments(), after.spec_segments(), at, tempo, ticks);
        }
    }
}

/// Setting a tempo at a position leaves it governing that position: the
/// segment found there afterwards carries the new tempo, and a segment was
/// added exactly when none began there before.
proof fn lemma_set_tempo_read_back(
    before: Seq<TempoSegment>,
    after: Seq<TempoSegment>,
    at: Ticks,
    tempo: Tempo,
    hz: int,
)
    requires
        tempo_map_valid(hz, before),
        tempo_map_valid(hz, after),
        at.0 >= 0,
        tempo_changes(after) == with_tempo_at(before, at, tempo),
    ensures
        tick_starts(after).contains(at.0 as int),
        after[last_at_or_before(tick_starts(after), at.0 as int)].tempo == tempo,
        tick_starts(before).contains(at.0 as int) ==> after.len() == before.len()
            && last_at_or_before(tick_starts(after), at.0 as int) == last_at_or_before(tick_starts(before), at.0 as int),
        !tick_starts(before).contains(at.0 as int) ==> after.len() == before.len() + 1
            && last_at_or_before(tick_starts(after), at.0 as int) == last_at_or_before(tick_starts(before), at.0 as int) + 1,
{
    let old_starts = tick_starts(before);
    let new_starts = tick_starts(after);
    let old_changes = tempo_changes(before);
    let changes = tempo_changes(after);
    let k = last_at_or_before(old_starts, at.0 as int);
    lemma_last_at_or_before_properties(old_starts, at.0 as int);
    assert(old_starts[0] == 0);
    assert(changes.len() == after.len());
    assert(old_changes.len() == before.len());
    if old_starts.contains(at.0 as int) {
        if old_starts[k] != at.0 {
            lemma_start_found_only_at_index(before, at.0 as int, k);
        }
        assert(after.len() == before.len());
        assert forall|i: int| 0 <= i < after.len() implies #[trigger] new_starts[i] == old_starts[i] by {
            assert(changes[i] == old_changes.update(k, (at, tempo))[i]);
        }
        assert(new_starts =~= old_starts);
        assert(changes[k] == (at, tempo));
        assert(new_starts[k] == at.0);
    } else {
        let added = (at, tempo);
        assert(after.len() == before.len() + 1);
        assert(changes[k + 1] == added);
        assert(new_starts[k + 1] == at.0);
        assert forall|j: int| k + 1 < j < new_starts.len() implies new_starts[j] > at.0 by {
            assert(changes[j] == old_changes.insert(k + 1, added)[j]);
            assert(new_starts[j] == old_starts[j - 1]);
        }
        lemma_last_at_or_before_unique(new_starts, at.0 as int, k + 1);
    }
}

/// Two maps at one sample rate with the same tempo changes are the same map:
/// the frame starts follow from the changes.
proof fn lemma_changes_determine_segments(hz: int, first: Seq<TempoSegment>, second: Seq<TempoSegment>)
    requires
        tempo_map_valid(hz, first),
        tempo_map_valid(hz, second),
        tempo_changes(first) == tempo_changes(second),
    ensures
        first == second,
{
    let a = tempo_changes(first);
    let b = tempo_changes(second);
    assert(first.len() == a.len());
    assert(second.len() == b.len());
    assert forall|i: int| 0 <= i < first.len() implies (#[trigger] second[i]).start_ticks == first[i].start_ticks
        && second[i].tempo == first[i].tempo by {
        assert(a[i] == b[i]);
    }
    let last = first.len() - 1;
    lemma_prefix_agrees(hz, first, second, last);
    assert(second[last] == first[last]);
    assert(first =~= second);
}

/// Removing the change an insertion added gives back the original segments.
#[verifier::spinoff_prover]
#[verifier::rlimit(40)]
proof fn lemma_remove_after_insert(
    hz: int,
    before: Seq<TempoSegment>,
    after: Seq<TempoSegment>,
    restored: Seq<TempoSegment>,
    at: Ticks,
    tempo: Tempo,
)
    requires
        tempo_map_valid(hz, before),
        tempo_map_valid(hz, after),
        tempo_map_valid(hz, restored),
        at.0 > 0,
        !tick_starts(before).contains(at.0 as int),
        tempo_changes(after) == with_tempo_at(before, at, tempo),
        tempo_changes(restored) == tempo_changes(after).remove(last_at_or_before(tick_starts(after), at.0 as int)),
    ensures
        tick_starts(after).contains(at.0 as int),
        restored == before,
{
    lemma_set_tempo_read_back(before, after, at, tempo, hz);
    let k = last_at_or_before(tick_starts(before), at.0 as int);
    let old_changes = tempo_changes(before);
    assert(tempo_changes(after) == old_changes.insert(k + 1, (at, tempo)));
    lemma_last_at_or_before_properties(tick_starts(before), at.0 as int);
    assert(tempo_changes(restored) == old_changes) by {
        assert(old_changes.insert(k + 1, (at, tempo)).remove(k + 1) =~= old_changes);
    }
    lemma_changes_determine_segments(hz, restored, before);
}

impl TempoMap {
    /// A tempo set at a position is the tempo in force there afterwards, and
    /// the map grows by one segment exactly when no change began there.
    pub proof fn lemma_set_tempo_is_read_back(before: TempoMap, after: TempoMap, at: Ticks, tempo: Tempo)
        requires
            before.well_formed(),
            after.well_formed(),
            after.spec_sample_rate() == before.spec_sample_rate(),
            at.0 >= 0,
            tempo_changes(after.spec_segments()) == with_tempo_at(before.spec_segments(), at, tempo),
        ensures
            tick_starts(after.spec_segments()).contains(at.0 as int),
            after.spec_segments()[last_at_or_before(tick_starts(after.spec_segments()), at.0 as int)].tempo == tempo,
            after.spec_segments().len() == before.spec_segments().len() + (if tick_starts(
                before.spec_segments(),
            ).contains(at.0 as int) {
                0int
            } else {
                1int
            }),
    {
        lemma_set_tempo_read_back(before.spec_segments(), after.spec_segments(), at, tempo, before.spec_hz());
    }

    /// Removing a tempo change that was just inserted gives back the map as it
    /// was: the removal finds the new change, and what is left has the old
    /// changes and hence the old frame starts.
    pub proof fn lemma_remove_undoes_set(
        original: TempoMap,
        changed: TempoMap,
        restored: TempoMap,
        at: Ticks,
        tempo: Tempo,
    )
        requires
            original.well_formed(),
            changed.well_formed(),
            restored.well_formed(),
            changed.spec_sample_rate() == original.spec_sample_rate(),
            restored.spec_sample_rate() == original.spec_sample_rate(),
            at.0 > 0,
            !tick_starts(original.spec_segments()).contains(at.0 as int),
            tempo_changes(changed.spec_segments()) == with_tempo_at(original.spec_segments(), at, tempo),
            tempo_changes(restored.spec_segments()) == tempo_changes(changed.spec_segments()).remove(
                last_at_or_before(tick_starts(changed.spec_segments()), at.0 as int),
            ),
        ensures
            tick_starts(changed.spec_segments()).contains(at.0 as int),
            restored.spec_segments() == original.spec_segments(),
    {
        lemma_remove_after_insert(
            original.spec_hz(),
            original.spec_segments(),
            changed.spec_segments(),
            restored.spec_segments(),
            at,
            tempo,
        );
    }
}

/// Every segment of a map lasts at least one frame per tick: the sample rate
/// times each beat length in microseconds is at least the microseconds in a
/// second times the ticks in four beats.
pub open spec fn one_tick_spans_a_frame(hz: int, segments: Seq<TempoSegment>) -> bool {
    forall|i: int|
        0 <= i < segments.len() ==> hz * (#[trigger] segments[i].tempo.spec_micros() as int)
            >= MICROS_PER_SECOND * 3840
}

/// When one tick lasts at least one frame, a later tick span lasts strictly
/// more frames.
proof fn lemma_frames_from_ticks_strict(a: int, b: int, hz: int, micros: int)
    requires
        a < b,
        hz >= 1,
        micros >= 1,
        hz * micros >= MICROS_PER_SECOND * 3840,
    ensures
        round_div(a * hz * micros, MICROS_PER_SECOND * 3840) < round_div(b * hz * micros, MICROS_PER_SECOND * 3840),
{
    assert(a * hz * micros <= b * hz * micros) by (nonlinear_arith)
        requires
            a < b,
            hz >= 1,
            micros >= 1,
    ;
    lemma_round_div_monotonic(a * hz * micros, b * hz * micros, MICROS_PER_SECOND * 3840);
    lemma_ticks_frames_ticks(a, hz, micros);
    lemma_ticks_frames_ticks(b, hz, micros);
}

/// A musical position converted to frames under a tempo map and back is the
/// same position, whenever every segment lasts at least one frame per tick
/// and the frame position does not reach either end of the frame range.
#[verifier::spinoff_prover]
#[verifier::rlimit(40)]
pub proof fn lemma_map_ticks_frames_ticks(hz: int, segments: Seq<TempoSegment>, ticks: int)
    requires
        tempo_map_valid(hz, segments),
        one_tick_spans_a_frame(hz, segments),
        i64::MIN <= ticks <= i64::MAX,
        i64::MIN < map_frames_at(hz, segments, ticks) < i64::MAX,
    ensures
        map_ticks_at(hz, segments, map_frames_at(hz, segments, ticks)) == ticks,
{
    let starts = tick_starts(segments);
    let fstarts = frame_starts(segments);
    lemma_last_at_or_before_properties(starts, ticks);
    let g = last_at_or_before(starts, ticks);
    let seg = segments[g];
    let micros = seg.tempo.spec_micros() as int;
    assert(is_supported_tempo(micros));
    assert(hz * micros >= MICROS_PER_SECOND * 3840);
    assert(starts[g] == seg.start_ticks.0);
    assert(seg.start_ticks.0 >= 0) by {
        if g > 0 {
            assert(segments[0].start_ticks.0 < segments[g].start_ticks.0);
        }
    }
    assert(seg.start_frames.0 >= 0) by {
        if g > 0 {
            assert(segments[0].start_frames.0 <= segments[g].start_frames.0);
        }
    }
    let span = ticks - seg.start_ticks.0;
    assert(g > 0 ==> span >= 0);
    assert(clamp_i64(span) == span);
    let rd = round_div(span * hz * micros, MICROS_PER_SECOND * 3840);
    let frames = map_frames_at(hz, segments, ticks);
    assert(frames == clamp_i64(seg.start_frames.0 + clamp_i64(rd)));
    if span >= 0 {
        lemma_span_nonnegative(span, hz, micros);
        assert(rd >= 0);
    }
    assert(frames == seg.start_frames.0 + rd);
    assert(fstarts[g] == seg.start_frames.0);
    assert forall|j: int| g < j < fstarts.len() implies fstarts[j] > frames by {
        let next = segments[g + 1];
        assert(starts[g + 1] > ticks);
        assert(seg.start_ticks.0 < next.start_ticks.0);
        let gap = next.start_ticks.0 - seg.start_ticks.0;
        assert(clamp_i64(gap) == gap);
        lemma_frames_from_ticks_strict(span, gap, hz, micros);
        lemma_span_nonnegative(gap, hz, micros);
        assert(next.start_frames.0 == frames_within(seg, next.start_ticks.0 as int, hz));
        assert(next.start_frames.0 > frames);
        if j > g + 1 {
            assert(segments[g + 1].start_frames.0 <= segments[j].start_frames.0);
        }
    }
    lemma_last_at_or_before_unique(fstarts, frames, g);
    lemma_ticks_frames_ticks(span, hz, micros);
    assert(clamp_i64(frames - seg.start_frames.0) == rd);
}

/// A segment's start in ticks is at its start in frames under the map.
proof fn lemma_map_frames_at_start(hz: int, segments: Seq<TempoSegment>, index: int)
    requires
        tempo_map_valid(hz, segments),
        0 <= index < segments.len(),
    ensures
        map_frames_at(hz, segments, segments[index].start_ticks.0 as int) == segments[index].start_frames.0,
{
    let starts = tick_starts(segments);
    let position = segments[index].start_ticks.0 as int;
    assert forall|j: int| index < j < starts.len() implies starts[j] > position by {
        assert(segments[index].start_ticks.0 < segments[j].start_ticks.0);
    }
    lemma_last_at_or_before_unique(starts, position, index);
    lemma_frames_within_at_start(segments[index], hz);
}

/// A frame position lies between the frame positions of the ticks on either
/// side of its musical position: one tick earlier is at or before it, one
/// tick later at or after it, at any tempo, whenever the musical position
/// does not reach either end of the range.
#[verifier::spinoff_prover]
#[verifier::rlimit(60)]
pub proof fn lemma_neighbouring_ticks_enclose_frames(hz: int, segments: Seq<TempoSegment>, frames: int)
    requires
        tempo_map_valid(hz, segments),
        i64::MIN <= frames <= i64::MAX,
        i64::MIN < map_ticks_at(hz, segments, frames) < i64::MAX,
    ensures
        map_frames_at(hz, segments, map_ticks_at(hz, segments, frames) - 1) <= frames,
        frames <= map_frames_at(hz, segments, map_ticks_at(hz, segments, frames) + 1),
{
    let c = MICROS_PER_SECOND * 3840;
    let starts = tick_starts(segments);
    let fstarts = frame_starts(segments);
    lemma_last_at_or_before_properties(fstarts, frames);
    let h = last_at_or_before(fstarts, frames);
    let seg = segments[h];
    let micros = seg.tempo.spec_micros() as int;
    let k = hz * micros;
    assert(is_supported_tempo(micros));
    assert(k >= 1) by (nonlinear_arith)
        requires
            k == hz * micros,
            hz >= 1,
            micros >= 1,
    ;
    assert(seg.start_ticks.0 >= 0) by {
        if h > 0 {
            assert(segments[0].start_ticks.0 < segments[h].start_ticks.0);
        }
    }
    assert(seg.start_frames.0 >= 0) by {
        if h > 0 {
            assert(segments[0].start_frames.0 <= segments[h].start_frames.0);
        }
    }
    assert(fstarts[h] == seg.start_frames.0);
    assert(starts[h] == seg.start_ticks.0);
    let x = frames - seg.start_frames.0;
    assert(h > 0 ==> x >= 0);
    assert(clamp_i64(x) == x);
    let q = round_div(x * MICROS_PER_SECOND * 3840, k);
    assert(x * MICROS_PER_SECOND * 3840 == x * c) by (nonlinear_arith)
        requires
            c == MICROS_PER_SECOND * 3840,
    ;
    let t = map_ticks_at(hz, segments, frames);
    assert(t == clamp_i64(seg.start_ticks.0 + clamp_i64(q)));
    if x >= 0 {
        assert(x * MICROS_PER_SECOND * 3840 >= 0) by (nonlinear_arith)
            requires
                x >= 0,
        ;
        crate::time::conversion::lemma_round_div_bounded(x * MICROS_PER_SECOND * 3840, k);
        assert(q >= 0);
    } else {
        assert(x * MICROS_PER_SECOND * 3840 < 0) by (nonlinear_arith)
            requires
                x < 0,
        ;
        crate::time::conversion::lemma_round_div_bounded(x * MICROS_PER_SECOND * 3840, k);
        assert(q <= 0);
    }
    assert(t == seg.start_ticks.0 + q);
    crate::time::conversion::lemma_round_div_error(x * MICROS_PER_SECOND * 3840, k);
    // The next segment, where there is one, begins after this musical position.
    if h + 1 < segments.len() {
        let next = segments[h + 1];
        let gap = next.start_ticks.0 - seg.start_ticks.0;
        assert(gap >= 1);
        assert(clamp_i64(gap) == gap);
        let rgap = round_div(gap * hz * micros, c);
        lemma_span_nonnegative(gap, hz, micros);
        assert(rgap >= 0);
        assert(next.start_frames.0 == frames_within(seg, next.start_ticks.0 as int, hz));
        assert(fstarts[h + 1] > frames);
        assert(x < rgap);
        crate::time::conversion::lemma_round_div_error(gap * hz * micros, c);
        assert(gap * hz * micros == gap * k) by (nonlinear_arith)
            requires
                k == hz * micros,
        ;
        assert(q <= gap) by (nonlinear_arith)
            requires
                2 * (gap * k - rgap * c) >= -c,
                2 * (x * c - q * k) >= -k,
                x <= rgap - 1,
                k >= 1,
                c > 0,
        {
            assert(2 * q * k <= 2 * x * c + k);
            assert(2 * x * c <= 2 * rgap * c - 2 * c);
            assert(2 * rgap * c <= 2 * gap * k + c);
            assert(2 * q * k < 2 * gap * k + 2 * k);
            assert(q < gap + 1);
        }
    }
    // One tick earlier.
    if h > 0 && q == 0 {
        lemma_map_frames_at_start(hz, segments, h);
        lemma_map_frames_monotonic(hz, segments, t - 1, seg.start_ticks.0 as int);
    } else {
        assert forall|j: int| h < j < starts.len() implies starts[j] > t - 1 by {
            assert(segments[h + 1].start_ticks.0 <= segments[j].start_ticks.0);
        }
        lemma_last_at_or_before_unique(starts, t - 1, h);
        let r1 = round_div((q - 1) * hz * micros, c);
        assert(clamp_i64(t - 1 - seg.start_ticks.0) == q - 1);
        crate::time::conversion::lemma_round_div_error((q - 1) * hz * micros, c);
        assert((q - 1) * hz * micros == q * k - k) by (nonlinear_arith)
            requires
                k == hz * micros,
        ;
        assert(r1 <= x) by (nonlinear_arith)
            requires
                2 * ((q - 1) * hz * micros - r1 * c) >= -c,
                (q - 1) * hz * micros == q * k - k,
                2 * (x * c - q * k) >= -k,
                k >= 1,
                c > 0,
        {
            assert(2 * r1 * c <= 2 * q * k - 2 * k + c);
            assert(2 * q * k <= 2 * x * c + k);
            assert(2 * r1 * c < 2 * x * c + 2 * c);
            assert(r1 < x + 1);
        }
        assert(map_frames_at(hz, segments, t - 1) == clamp_i64(seg.start_frames.0 + clamp_i64(r1)));
    }
    // One tick later.
    if h + 1 < segments.len() && segments[h + 1].start_ticks.0 <= t + 1 {
        lemma_map_frames_at_start(hz, segments, h + 1);
        lemma_map_frames_monotonic(hz, segments, segments[h + 1].start_ticks.0 as int, t + 1);
    } else {
        assert forall|j: int| h < j < starts.len() implies starts[j] > t + 1 by {
            assert(segments[h + 1].start_ticks.0 <= segments[j].start_ticks.0);
        }
        lemma_last_at_or_before_unique(starts, t + 1, h);
        let r2 = round_div((q + 1) * hz * micros, c);
        assert(clamp_i64(t + 1 - seg.start_ticks.0) == q + 1);
        crate::time::conversion::lemma_round_div_error((q + 1) * hz * micros, c);
        assert((q + 1) * hz * micros == q * k + k) by (nonlinear_arith)
            requires
                k == hz * micros,
        ;
        assert(r2 >= x) by (nonlinear_arith)
            requires
                2 * ((q + 1) * hz * micros - r2 * c) <= c,
                (q + 1) * hz * micros == q * k + k,
                2 * (x * c - q * k) <= k,
                k >= 1,
                c > 0,
        {
            assert(2 * r2 * c >= 2 * q * k + 2 * k - c);
            assert(2 * q * k >= 2 * x * c - k);
            assert(2 * r2 * c > 2 * x * c - 2 * c);
            assert(r2 > x - 1);
        }
        assert(map_frames_at(hz, segments, t + 1) == clamp_i64(seg.start_frames.0 + clamp_i64(r2)));
    }
}

} // verus!
