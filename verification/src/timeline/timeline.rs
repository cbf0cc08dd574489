//! The arrangement: clips on lanes, and the edits a user's gestures become.
//!
//! Every edit takes a beat grid and snaps to it unless told not to, refuses
//! rather than resolves an overlap, and returns the operations that record it
//! alongside the clips it produced.

use vstd::prelude::*;

use crate::text::{decimal, push_decimal, push_str};
use crate::time::beat_grid::BeatGrid;
use crate::time::frames::{clamp_i64, saturating_add_i64, saturating_sub_i64, Frames};
use crate::timeline::automation::{
    positions_ascending, reading_of, AutomationLane, AutomationPoint, Reading, MAX_POINTS,
};
use crate::timeline::order::{address_before, lemma_address_order, same_address};
use crate::timeline::parameter::{owner_within, ParameterAddress, ParameterOwner};
use crate::timeline::snap::Snap;

verus! {

/// The most lanes a timeline may hold.
pub const MAX_LANES: u32 = 128;

/// The most clips a timeline may hold.
pub const MAX_CLIPS: usize = 4_096;

/// Which placement of the project's document a clip is.
#[derive(Debug, Clone, Copy, PartialEq, Eq, PartialOrd, Ord, Hash, Structural)]
pub struct PlacementId(pub u64);

impl PlacementId {
    /// Wraps an identifier.
    pub fn new(id: u64) -> (placement: PlacementId)
        ensures
            placement.0 == id,
    {
        PlacementId(id)
    }

    /// The raw identifier.
    pub fn get(self) -> (id: u64)
        ensures
            id == self.0,
    {
        self.0
    }
}

/// Which library track a clip plays: a reference to media, never the media.
#[derive(Debug, Clone, Copy, PartialEq, Eq, PartialOrd, Ord, Hash, Structural)]
pub struct TrackRef(pub u64);

impl TrackRef {
    /// Wraps a track reference.
    pub fn new(track: u64) -> (reference: TrackRef)
        ensures
            reference.0 == track,
    {
        TrackRef(track)
    }

    /// The raw reference.
    pub fn get(self) -> (track: u64)
        ensures
            track == self.0,
    {
        self.0
    }
}

/// A track placed on the timeline. The source region and the timeline region
/// are separate, which is what makes trimming non-destructive.
#[derive(Debug, Clone, Copy, PartialEq, Eq, Structural)]
pub struct Clip {
    /// The placement it is.
    pub id: PlacementId,
    /// The media it plays.
    pub track: TrackRef,
    /// The lane it sits on.
    pub lane: u32,
    /// Where it begins on the timeline.
    pub start: Frames,
    /// How long it plays for.
    pub length: Frames,
    /// How far into the source it begins.
    pub source_offset: Frames,
}

impl Clip {
    /// Where the clip ends, exclusive, saturating.
    pub open spec fn spec_end(self) -> int {
        clamp_i64(self.start.0 + self.length.0)
    }

    /// Whether a position falls inside the clip.
    pub open spec fn spec_contains(self, position: int) -> bool {
        self.start.0 <= position < self.spec_end()
    }

    /// Whether two clips overlap in time.
    pub open spec fn spec_overlaps(self, other: Clip) -> bool {
        self.start.0 < other.spec_end() && other.start.0 < self.spec_end()
    }

    /// The same clip beginning elsewhere.
    pub open spec fn starting_at(self, start: int) -> Clip {
        Clip { start: Frames(start as i64), ..self }
    }

    /// A clip that plays its source from the beginning.
    pub fn new(id: PlacementId, track: TrackRef, lane: u32, start: Frames, length: Frames) -> (clip: Clip)
        ensures
            clip == (Clip { id, track, lane, start, length, source_offset: Frames(0) }),
    {
        Clip { id, track, lane, start, length, source_offset: Frames(0) }
    }

    /// The same clip beginning further into its source.
    pub fn with_source_offset(self, offset: Frames) -> (clip: Clip)
        ensures
            clip == (Clip { source_offset: offset, ..self }),
    {
        Clip { source_offset: offset, ..self }
    }

    /// The placement it is.
    pub fn id(self) -> (id: PlacementId)
        ensures
            id == self.id,
    {
        self.id
    }

    /// The media it plays.
    pub fn track(self) -> (track: TrackRef)
        ensures
            track == self.track,
    {
        self.track
    }

    /// The lane it sits on.
    pub fn lane(self) -> (lane: u32)
        ensures
            lane == self.lane,
    {
        self.lane
    }

    /// Where it begins.
    pub fn start(self) -> (start: Frames)
        ensures
            start == self.start,
    {
        self.start
    }

    /// How long it plays for.
    pub fn length(self) -> (length: Frames)
        ensures
            length == self.length,
    {
        self.length
    }

    /// How far into the source it begins.
    pub fn source_offset(self) -> (offset: Frames)
        ensures
            offset == self.source_offset,
    {
        self.source_offset
    }

    /// Where it ends, exclusive.
    pub fn end(self) -> (end: Frames)
        ensures
            end.0 == self.spec_end(),
    {
        Frames(saturating_add_i64(self.start.0, self.length.0))
    }

    /// Whether a position falls inside the clip.
    pub fn contains(self, position: Frames) -> (inside: bool)
        ensures
            inside == self.spec_contains(position.0 as int),
    {
        position.0 >= self.start.0 && position.0 < self.end().0
    }

    /// Whether two clips overlap in time.
    pub fn overlaps(self, other: Clip) -> (overlapping: bool)
        ensures
            overlapping == self.spec_overlaps(other),
    {
        self.start.0 < other.end().0 && other.start.0 < self.end().0
    }
}

/// What went wrong with an edit.
#[derive(Debug, Clone, Copy, PartialEq, Eq, Structural)]
#[non_exhaustive]
pub enum EditError {
    /// No clip with that identifier is on the timeline.
    UnknownClip {
        /// The identifier that was not found.
        clip: PlacementId,
    },
    /// A lane number beyond the maximum.
    LaneOutOfRange {
        /// The lane requested.
        lane: u32,
        /// The limit.
        maximum: u32,
    },
    /// A clip already occupies that span of that lane.
    Overlap {
        /// The clip already there.
        existing: PlacementId,
    },
    /// A length of zero or less.
    EmptyClip,
    /// A split position that is not inside the clip.
    SplitOutsideClip,
    /// The timeline already holds as many clips as it may.
    TooManyClips {
        /// The limit.
        maximum: usize,
    },
}

/// How an edit error reads.
pub open spec fn edit_error_text(error: EditError) -> Seq<char> {
    match error {
        EditError::UnknownClip { clip } => "no clip with identifier "@ + decimal(clip.0 as int),
        EditError::LaneOutOfRange { lane, maximum } => "lane "@ + decimal(lane as int)
            + " is beyond the maximum of "@ + decimal(maximum as int),
        EditError::Overlap { existing } => "clip "@ + decimal(existing.0 as int)
            + " already occupies that span"@,
        EditError::EmptyClip => "a clip must have a positive length"@,
        EditError::SplitOutsideClip => "the split position is not inside the clip"@,
        EditError::TooManyClips { maximum } => "a timeline may hold at most "@ + decimal(maximum as int)
            + " clips"@,
    }
}

impl EditError {
    /// The error as a person reads it.
    pub fn to_text(self) -> (text: String)
        ensures
            text@ == edit_error_text(self),
    {
        let mut text = String::new();
        match self {
            EditError::UnknownClip { clip } => {
                push_str(&mut text, "no clip with identifier ");
                push_decimal(&mut text, clip.0 as i128);
            },
            EditError::LaneOutOfRange { lane, maximum } => {
                push_str(&mut text, "lane ");
                push_decimal(&mut text, lane as i128);
                push_str(&mut text, " is beyond the maximum of ");
                push_decimal(&mut text, maximum as i128);
            },
            EditError::Overlap { existing } => {
                push_str(&mut text, "clip ");
                push_decimal(&mut text, existing.0 as i128);
                push_str(&mut text, " already occupies that span");
            },
            EditError::EmptyClip => {
                push_str(&mut text, "a clip must have a positive length");
            },
            EditError::SplitOutsideClip => {
                push_str(&mut text, "the split position is not inside the clip");
            },
            EditError::TooManyClips { maximum } => {
                push_str(&mut text, "a timeline may hold at most ");
                push_decimal(&mut text, maximum as i128);
                push_str(&mut text, " clips");
            },
        }
        assert(text@ =~= edit_error_text(self));
        text
    }
}

/// A change to the project's document that records an edit.
#[derive(Debug, Clone, PartialEq, Eq)]
#[non_exhaustive]
pub enum Operation {
    /// A clip placed, or placed again with every property.
    PlaceTrack {
        /// Which placement.
        placement: PlacementId,
        /// Its media.
        track: TrackRef,
        /// Where it begins.
        position: Frames,
        /// How long it plays.
        length: Frames,
        /// Its lane.
        lane: u32,
        /// Where in its source it begins playing.
        source_offset: Frames,
    },
    /// Where in its source a clip begins playing, changed.
    SetPlacementSource {
        /// Which placement.
        placement: PlacementId,
        /// Where in its source it now begins playing.
        source_offset: Frames,
    },
    /// A clip moved.
    MovePlacement {
        /// Which placement.
        placement: PlacementId,
        /// Where it now begins.
        position: Frames,
        /// Its lane now.
        lane: u32,
    },
    /// A clip's length changed.
    TrimPlacement {
        /// Which placement.
        placement: PlacementId,
        /// Its length now.
        length: Frames,
    },
    /// A clip removed.
    RemovePlacement {
        /// Which placement.
        placement: PlacementId,
    },
    /// An automation point removed.
    RemoveAutomationPoint {
        /// The parameter it automated.
        address: ParameterAddress,
        /// Where it sat.
        position: Frames,
    },
}

/// The operation that records a clip's placement.
pub open spec fn placing(clip: Clip) -> Operation {
    Operation::PlaceTrack {
        placement: clip.id,
        track: clip.track,
        position: clip.start,
        length: clip.length,
        lane: clip.lane,
        source_offset: clip.source_offset,
    }
}

/// The operation that records a clip's new position.
pub open spec fn moving(clip: Clip) -> Operation {
    Operation::MovePlacement { placement: clip.id, position: clip.start, lane: clip.lane }
}

/// The operation that records a clip's new length.
pub open spec fn trimming(clip: Clip) -> Operation {
    Operation::TrimPlacement { placement: clip.id, length: clip.length }
}

/// The operation that records where in its source a clip now begins.
pub open spec fn sourcing(clip: Clip) -> Operation {
    Operation::SetPlacementSource { placement: clip.id, source_offset: clip.source_offset }
}

/// The placement a document holds after a place operation: every property
/// the operation carries. Other operations place nothing.
pub open spec fn placed_by(operation: Operation) -> Option<Placement> {
    match operation {
        Operation::PlaceTrack { placement, track, position, length, lane, source_offset } => Some(
            Placement { id: placement, track, lane, position, length, source_offset },
        ),
        _ => None,
    }
}

/// A placed clip comes back whole from its document: the placement its
/// place operation records is that clip, source offset included, so
/// rebuilding a timeline from the document does not move the user's work.
pub proof fn lemma_placing_records_the_whole_clip(clip: Clip)
    ensures
        placed_by(placing(clip)) matches Some(placement) && placement.clip() == clip,
{
}

fn place(clip: Clip) -> (operation: Operation)
    ensures
        operation == placing(clip),
{
    Operation::PlaceTrack {
        placement: clip.id,
        track: clip.track,
        position: clip.start,
        length: clip.length,
        lane: clip.lane,
        source_offset: clip.source_offset,
    }
}

fn move_to(clip: Clip) -> (operation: Operation)
    ensures
        operation == moving(clip),
{
    Operation::MovePlacement { placement: clip.id, position: clip.start, lane: clip.lane }
}

fn trim(clip: Clip) -> (operation: Operation)
    ensures
        operation == trimming(clip),
{
    Operation::TrimPlacement { placement: clip.id, length: clip.length }
}

fn set_source(clip: Clip) -> (operation: Operation)
    ensures
        operation == sourcing(clip),
{
    Operation::SetPlacementSource { placement: clip.id, source_offset: clip.source_offset }
}

/// The result of an edit: the clips it produced and the operations that
/// record it, in the order they must be applied.
#[derive(Debug, Clone, PartialEq, Eq)]
pub struct Edit {
    clips: Vec<Clip>,
    operations: Vec<Operation>,
}

impl Edit {
    /// The clips the edit produced, in order.
    pub closed spec fn spec_clips(&self) -> Seq<Clip> {
        self.clips@
    }

    /// The operations that record it, in order.
    pub closed spec fn spec_operations(&self) -> Seq<Operation> {
        self.operations@
    }

    /// Every clip the edit produced, in the order it produced them.
    pub fn clips(&self) -> (clips: &[Clip])
        ensures
            clips@ == self.spec_clips(),
    {
        self.clips.as_slice()
    }

    /// The first clip the edit produced, for the gestures that produce one.
    pub fn clip(&self) -> (clip: Option<Clip>)
        ensures
            clip == (if self.spec_clips().len() == 0 {
                None
            } else {
                Some(self.spec_clips()[0])
            }),
    {
        if self.clips.len() == 0 {
            None
        } else {
            Some(self.clips[0])
        }
    }

    /// The operations that record the edit.
    pub fn operations(&self) -> (operations: &[Operation])
        ensures
            operations@ == self.spec_operations(),
    {
        self.operations.as_slice()
    }

    /// The edit's operations, handed over.
    pub fn into_operations(self) -> (operations: Vec<Operation>)
        ensures
            operations@ == self.spec_operations(),
    {
        self.operations
    }
}

/// Identifiers strictly ascending: the order clips are kept and listed in.
pub open spec fn ids_ascending(clips: Seq<Clip>) -> bool {
    forall|i: int, j: int| 0 <= i < j < clips.len() ==> clips[i].id.0 < clips[j].id.0
}

/// Whether an existing clip stands in the way of a clip: another placement
/// on the same lane overlapping it in time.
pub open spec fn conflicts(existing: Clip, clip: Clip) -> bool {
    existing.id != clip.id && existing.lane == clip.lane && existing.spec_overlaps(clip)
}

/// The first clip, in identifier order, that stands in the way.
pub open spec fn first_conflict(clips: Seq<Clip>, clip: Clip) -> Option<PlacementId>
    decreases clips.len(),
{
    if clips.len() == 0 {
        None
    } else if conflicts(clips[0], clip) {
        Some(clips[0].id)
    } else {
        first_conflict(clips.drop_first(), clip)
    }
}

/// Two clips with a length overlap exactly when some frame lies inside both,
/// and a clip whose end is representable ends its length after its start.
pub proof fn lemma_overlap_is_a_shared_frame(a: Clip, b: Clip)
    requires
        a.length.0 > 0,
        b.length.0 > 0,
    ensures
        a.spec_overlaps(b) <==> exists|position: int| #[trigger] a.spec_contains(position) && b.spec_contains(position),
        a.start.0 + a.length.0 <= i64::MAX ==> a.spec_end() == a.start.0 + a.length.0,
{
    if a.spec_overlaps(b) {
        let position = if a.start.0 < b.start.0 { b.start.0 as int } else { a.start.0 as int };
        assert(a.spec_contains(position) && b.spec_contains(position));
    }
}

/// The conflict an edit is refused for is the first clip, in the order
/// held, that stands in the way: none is found exactly when no clip stands
/// in the way.
pub proof fn lemma_first_conflict_is_the_first(clips: Seq<Clip>, clip: Clip)
    ensures
        first_conflict(clips, clip) is None <==> forall|i: int| 0 <= i < clips.len() ==> !conflicts(#[trigger] clips[i], clip),
        first_conflict(clips, clip) matches Some(id) ==> exists|i: int|
            0 <= i < clips.len() && clips[i].id == id && #[trigger] conflicts(clips[i], clip) && forall|j: int|
                0 <= j < i ==> !conflicts(#[trigger] clips[j], clip),
    decreases clips.len(),
{
    if clips.len() > 0 {
        let rest = clips.drop_first();
        lemma_first_conflict_is_the_first(rest, clip);
        if !conflicts(clips[0], clip) {
            assert forall|i: int| 0 <= i < clips.len() && i > 0 implies clips[i] == rest[i - 1] by {}
            if first_conflict(rest, clip) is None {
                assert forall|i: int| 0 <= i < clips.len() implies !conflicts(#[trigger] clips[i], clip) by {
                    if i > 0 {
                        assert(clips[i] == rest[i - 1]);
                    }
                }
            } else {
                let id = first_conflict(rest, clip)->0;
                let k = choose|k: int|
                    0 <= k < rest.len() && rest[k].id == id && #[trigger] conflicts(rest[k], clip) && forall|j: int|
                        0 <= j < k ==> !conflicts(#[trigger] rest[j], clip);
                assert(clips[k + 1] == rest[k]);
                assert forall|j: int| 0 <= j < k + 1 implies !conflicts(#[trigger] clips[j], clip) by {
                    if j > 0 {
                        assert(clips[j] == rest[j - 1]);
                    }
                }
                assert(conflicts(clips[k + 1], clip));
            }
        } else {
            assert(conflicts(clips[0], clip));
        }
    }
}

/// The clip with an identifier, if there is one.
pub open spec fn lookup(clips: Seq<Clip>, id: u64) -> Option<Clip> {
    if exists|i: int| 0 <= i < clips.len() && (#[trigger] clips[i]).id.0 == id {
        Some(clips[choose|i: int| 0 <= i < clips.len() && (#[trigger] clips[i]).id.0 == id])
    } else {
        None
    }
}

/// `after` holds what `before` held, with `clip` in place of any clip that
/// had its identifier.
pub open spec fn holds_with(after: Seq<Clip>, before: Seq<Clip>, clip: Clip) -> bool {
    &&& ids_ascending(after)
    &&& forall|id: u64|
        #[trigger] lookup(after, id) == (if id == clip.id.0 {
            Some(clip)
        } else {
            lookup(before, id)
        })
}

/// `after` holds what `before` held, less the clip with an identifier.
pub open spec fn holds_without(after: Seq<Clip>, before: Seq<Clip>, id: u64) -> bool {
    &&& ids_ascending(after)
    &&& forall|other: u64|
        #[trigger] lookup(after, other) == (if other == id {
            None
        } else {
            lookup(before, other)
        })
}

/// A clip the timeline can hold: on a lane that exists, with a length.
pub open spec fn placeable(clip: Clip) -> bool {
    clip.lane < MAX_LANES && clip.length.0 > 0
}

/// A valid arrangement: clips in identifier order, each placeable, no more
/// than the limit, and no two on one lane overlapping.
pub open spec fn arrangement_valid(clips: Seq<Clip>) -> bool {
    &&& ids_ascending(clips)
    &&& clips.len() <= MAX_CLIPS
    &&& forall|i: int| 0 <= i < clips.len() ==> placeable(#[trigger] clips[i])
    &&& forall|i: int, j: int|
        0 <= i < clips.len() && 0 <= j < clips.len() ==> !conflicts(#[trigger] clips[i], #[trigger] clips[j])
}

/// In ascending order, the clip at an index is the one its identifier finds.
proof fn lemma_lookup_at(clips: Seq<Clip>, index: int)
    requires
        ids_ascending(clips),
        0 <= index < clips.len(),
    ensures
        lookup(clips, clips[index].id.0) == Some(clips[index]),
{
    let id = clips[index].id.0;
    assert(clips[index].id.0 == id);
    let found = choose|i: int| 0 <= i < clips.len() && (#[trigger] clips[i]).id.0 == id;
    if found < index {
        assert(clips[found].id.0 < clips[index].id.0);
    } else if found > index {
        assert(clips[index].id.0 < clips[found].id.0);
    }
}

/// An identifier no clip has finds nothing.
proof fn lemma_lookup_absent(clips: Seq<Clip>, id: u64)
    requires
        forall|i: int| 0 <= i < clips.len() ==> (#[trigger] clips[i]).id.0 != id,
    ensures
        lookup(clips, id) is None,
{
}

/// What a lookup finds is in the arrangement.
proof fn lemma_lookup_found(clips: Seq<Clip>, id: u64)
    requires
        lookup(clips, id) is Some,
    ensures
        exists|i: int| 0 <= i < clips.len() && clips[i] == lookup(clips, id)->0 && clips[i].id.0 == id,
{
    let i = choose|i: int| 0 <= i < clips.len() && (#[trigger] clips[i]).id.0 == id;
    assert(clips[i] == lookup(clips, id)->0);
}

/// The first conflict is none exactly when nothing conflicts, and otherwise
/// names a clip that does.
proof fn lemma_first_conflict(clips: Seq<Clip>, clip: Clip)
    ensures
        first_conflict(clips, clip) is None <==> forall|i: int|
            0 <= i < clips.len() ==> !conflicts(#[trigger] clips[i], clip),
        first_conflict(clips, clip) matches Some(id) ==> exists|i: int|
            0 <= i < clips.len() && conflicts(#[trigger] clips[i], clip) && clips[i].id == id,
    decreases clips.len(),
{
    if clips.len() > 0 {
        let rest = clips.drop_first();
        lemma_first_conflict(rest, clip);
        assert forall|i: int| 0 < i < clips.len() implies clips[i] == rest[i - 1] by {}
        if !conflicts(clips[0], clip) {
            if first_conflict(rest, clip) is None {
                assert forall|i: int| 0 <= i < clips.len() implies !conflicts(#[trigger] clips[i], clip) by {
                    if i > 0 {
                        assert(clips[i] == rest[i - 1]);
                    }
                }
            } else {
                let id = first_conflict(rest, clip)->0;
                let k = choose|k: int| 0 <= k < rest.len() && conflicts(#[trigger] rest[k], clip) && rest[k].id == id;
                assert(clips[k + 1] == rest[k]);
            }
        }
    }
}

/// Whether one clip stands in the way of another is the same either way round.
proof fn lemma_conflicts_symmetric(a: Clip, b: Clip)
    ensures
        conflicts(a, b) == conflicts(b, a),
{
}

/// A clip that stays within another's span, on its lane, meets no clip that
/// the other did not meet.
proof fn lemma_within_span(other: Clip, outer: Clip, inner: Clip)
    requires
        other.id != outer.id,
        !conflicts(other, outer),
        inner.lane == outer.lane,
        outer.start.0 <= inner.start.0,
        inner.spec_end() <= outer.spec_end(),
    ensures
        !conflicts(other, inner),
{
}

/// Putting in a placeable clip that nothing stands in the way of keeps an
/// arrangement valid.
proof fn lemma_put_valid(before: Seq<Clip>, after: Seq<Clip>, clip: Clip)
    requires
        arrangement_valid(before),
        placeable(clip),
        first_conflict(before, clip) is None,
        ids_ascending(after),
        after.len() <= MAX_CLIPS,
        forall|i: int|
            0 <= i < after.len() ==> #[trigger] after[i] == clip || (before.contains(after[i]) && after[i].id
                != clip.id),
    ensures
        arrangement_valid(after),
{
    lemma_first_conflict(before, clip);
    assert forall|i: int| 0 <= i < after.len() implies placeable(#[trigger] after[i]) by {
        if after[i] != clip {
            let k = choose|k: int| 0 <= k < before.len() && before[k] == after[i];
            assert(placeable(before[k]));
        }
    }
    assert forall|i: int, j: int| 0 <= i < after.len() && 0 <= j < after.len() implies !conflicts(
        #[trigger] after[i],
        #[trigger] after[j],
    ) by {
        if after[i] == clip && after[j] == clip {
        } else if after[i] == clip {
            let k = choose|k: int| 0 <= k < before.len() && before[k] == after[j];
            assert(!conflicts(before[k], clip));
            lemma_conflicts_symmetric(before[k], clip);
        } else if after[j] == clip {
            let k = choose|k: int| 0 <= k < before.len() && before[k] == after[i];
            assert(!conflicts(before[k], clip));
        } else {
            let k = choose|k: int| 0 <= k < before.len() && before[k] == after[i];
            let l = choose|l: int| 0 <= l < before.len() && before[l] == after[j];
            assert(!conflicts(before[k], before[l]));
        }
    }
}

/// Taking a clip out keeps an arrangement valid, and finds nothing under its
/// identifier afterwards.
proof fn lemma_remove_valid(before: Seq<Clip>, index: int)
    requires
        arrangement_valid(before),
        0 <= index < before.len(),
    ensures
        arrangement_valid(before.remove(index)),
        holds_without(before.remove(index), before, before[index].id.0),
{
    let after = before.remove(index);
    let id = before[index].id.0;
    assert forall|i: int| 0 <= i < after.len() implies #[trigger] after[i] == before[if i < index {
        i
    } else {
        i + 1
    }] by {}
    assert forall|i: int, j: int| 0 <= i < j < after.len() implies after[i].id.0 < after[j].id.0 by {
        assert(after[i] == before[if i < index {
            i
        } else {
            i + 1
        }]);
        assert(after[j] == before[if j < index {
            j
        } else {
            j + 1
        }]);
    }
    assert forall|i: int| 0 <= i < after.len() implies placeable(#[trigger] after[i]) by {
        assert(after[i] == before[if i < index {
            i
        } else {
            i + 1
        }]);
    }
    assert forall|i: int, j: int| 0 <= i < after.len() && 0 <= j < after.len() implies !conflicts(
        #[trigger] after[i],
        #[trigger] after[j],
    ) by {
        assert(after[i] == before[if i < index {
            i
        } else {
            i + 1
        }]);
        assert(after[j] == before[if j < index {
            j
        } else {
            j + 1
        }]);
    }
    assert forall|other: u64| #[trigger] lookup(after, other) == (if other == id {
        None
    } else {
        lookup(before, other)
    }) by {
        if exists|i: int| 0 <= i < after.len() && (#[trigger] after[i]).id.0 == other {
            let i = choose|i: int| 0 <= i < after.len() && (#[trigger] after[i]).id.0 == other;
            lemma_lookup_at(after, i);
            let k = if i < index {
                i
            } else {
                i + 1
            };
            assert(after[i] == before[k]);
            lemma_lookup_at(before, k);
            if k < index {
                assert(before[k].id.0 < before[index].id.0);
            } else {
                assert(before[index].id.0 < before[k].id.0);
            }
        } else {
            lemma_lookup_absent(after, other);
            if other != id {
                assert forall|k: int| 0 <= k < before.len() implies (#[trigger] before[k]).id.0 != other by {
                    if k < index {
                        assert(after[k] == before[k]);
                    } else if k > index {
                        assert(after[k - 1] == before[k]);
                    }
                }
                lemma_lookup_absent(before, other);
            }
        }
    }
}

/// Why an added clip is refused, if it is.
pub open spec fn add_refusal(clips: Seq<Clip>, clip: Clip, landed: Clip) -> Option<EditError> {
    if clip.lane >= MAX_LANES {
        Some(EditError::LaneOutOfRange { lane: clip.lane, maximum: MAX_LANES })
    } else if clip.length.0 <= 0 {
        Some(EditError::EmptyClip)
    } else if clips.len() >= MAX_CLIPS && lookup(clips, clip.id.0) is None {
        Some(EditError::TooManyClips { maximum: MAX_CLIPS })
    } else {
        match first_conflict(clips, landed) {
            Some(existing) => Some(EditError::Overlap { existing }),
            None => None,
        }
    }
}

/// The first half of a clip split at a position: the same clip, ending there.
pub open spec fn first_half(existing: Clip, position: int) -> Clip {
    Clip { length: Frames((position - existing.start.0) as i64), ..existing }
}

/// The second half of a clip split at a position: a new placement from there
/// to the clip's end, playing the source from as far in as the split is.
pub open spec fn second_half(existing: Clip, position: int, new_id: PlacementId) -> Clip {
    Clip {
        id: new_id,
        track: existing.track,
        lane: existing.lane,
        start: Frames(position as i64),
        length: Frames((existing.length.0 - (position - existing.start.0)) as i64),
        source_offset: Frames(clamp_i64(existing.source_offset.0 + (position - existing.start.0)) as i64),
    }
}

/// A clip with its front moved to a position: it starts there and shortens
/// by as much, and its source moves with it, never before the source's start.
pub open spec fn front_trimmed(existing: Clip, landed: int) -> Clip {
    let delta = clamp_i64(landed - existing.start.0);
    let offset = clamp_i64(existing.source_offset.0 + delta);
    Clip {
        start: Frames(landed as i64),
        length: Frames(clamp_i64(existing.length.0 - delta) as i64),
        source_offset: Frames(
            if offset < 0 {
                0
            } else {
                offset as i64
            },
        ),
        ..existing
    }
}

/// Whether one clip is listed before another: by start and then identifier,
/// or by lane and then identifier.
pub open spec fn listed_before(a: Clip, b: Clip, by_lane: bool) -> bool {
    if by_lane {
        a.lane < b.lane || (a.lane == b.lane && a.id.0 < b.id.0)
    } else {
        a.start.0 < b.start.0 || (a.start.0 == b.start.0 && a.id.0 < b.id.0)
    }
}

/// Clips listed strictly in time order: by start, then identifier.
pub open spec fn in_time_order(clips: Seq<Clip>) -> bool {
    forall|i: int, j: int| 0 <= i < j < clips.len() ==> listed_before(clips[i], clips[j], false)
}

/// Clips listed strictly in lane order: by lane, then identifier.
pub open spec fn in_lane_order(clips: Seq<Clip>) -> bool {
    forall|i: int, j: int| 0 <= i < j < clips.len() ==> listed_before(clips[i], clips[j], true)
}

/// Clips listed in time order start no later than the clips after them,
/// and those starting together are listed by identifier; clips listed in
/// lane order sit on no later lane than the clips after them, and those on
/// one lane are listed by identifier.
pub proof fn lemma_listing_orders(clips: Seq<Clip>, i: int, j: int)
    requires
        0 <= i < j < clips.len(),
    ensures
        in_time_order(clips) ==> clips[i].start.0 <= clips[j].start.0 && (clips[i].start.0 == clips[j].start.0
            ==> clips[i].id.0 < clips[j].id.0),
        in_lane_order(clips) ==> clips[i].lane <= clips[j].lane && (clips[i].lane == clips[j].lane ==> clips[i].id.0
            < clips[j].id.0),
{
    if in_time_order(clips) {
        assert(listed_before(clips[i], clips[j], false));
    }
    if in_lane_order(clips) {
        assert(listed_before(clips[i], clips[j], true));
    }
}

/// Where the last clip ends: the latest end of any, or zero with none.
pub open spec fn latest_end(clips: Seq<Clip>) -> int
    decreases clips.len(),
{
    if clips.len() == 0 {
        0
    } else if clips.len() == 1 {
        clips[0].spec_end()
    } else {
        let earlier = latest_end(clips.drop_last());
        if clips.last().spec_end() > earlier {
            clips.last().spec_end()
        } else {
            earlier
        }
    }
}

/// Where the arrangement ends is where its last clip ends: no clip ends
/// after it, some clip ends exactly there, and an empty arrangement ends at
/// zero.
pub proof fn lemma_latest_end_is_the_latest(clips: Seq<Clip>)
    ensures
        forall|i: int| 0 <= i < clips.len() ==> (#[trigger] clips[i]).spec_end() <= latest_end(clips),
        clips.len() > 0 ==> exists|i: int| 0 <= i < clips.len() && (#[trigger] clips[i]).spec_end() == latest_end(clips),
        clips.len() == 0 ==> latest_end(clips) == 0,
    decreases clips.len(),
{
    if clips.len() > 1 {
        let earlier = clips.drop_last();
        lemma_latest_end_is_the_latest(earlier);
        assert forall|i: int| 0 <= i < clips.len() implies (#[trigger] clips[i]).spec_end() <= latest_end(clips) by {
            if i < earlier.len() {
                assert(clips[i] == earlier[i]);
            }
        }
        let j = choose|j: int| 0 <= j < earlier.len() && (#[trigger] earlier[j]).spec_end() == latest_end(earlier);
        assert(clips[j] == earlier[j]);
        if clips.last().spec_end() > latest_end(earlier) {
            assert(clips[clips.len() - 1].spec_end() == latest_end(clips));
        } else {
            assert(clips[j].spec_end() == latest_end(clips));
        }
    } else if clips.len() == 1 {
        assert(clips[0].spec_end() == latest_end(clips));
    }
}

/// A placement of the project's document, as the timeline reads it.
#[derive(Debug, Clone, Copy, PartialEq, Eq, Structural)]
pub struct Placement {
    /// Which placement.
    pub id: PlacementId,
    /// Its media.
    pub track: TrackRef,
    /// Its lane.
    pub lane: u32,
    /// Where it begins.
    pub position: Frames,
    /// How long it plays.
    pub length: Frames,
    /// Where in its source it begins playing.
    pub source_offset: Frames,
}

impl Placement {
    /// The clip a placement becomes: every property as the document holds it.
    pub open spec fn clip(self) -> Clip {
        Clip {
            id: self.id,
            track: self.track,
            lane: self.lane,
            start: self.position,
            length: self.length,
            source_offset: self.source_offset,
        }
    }
}

/// Placements in strictly ascending identifier order, as the document keeps
/// them.
pub open spec fn placements_ascending(placements: Seq<Placement>) -> bool {
    forall|i: int, j: int| 0 <= i < j < placements.len() ==> placements[i].id.0 < placements[j].id.0
}

/// The clips a timeline keeps of a document's placements, taken in order:
/// each that is placeable, fits under the limit and meets no clip already
/// kept. The rest are skipped, never moved or clamped.
pub open spec fn kept(placements: Seq<Placement>) -> Seq<Clip>
    decreases placements.len(),
{
    if placements.len() == 0 {
        Seq::empty()
    } else {
        let earlier = kept(placements.drop_last());
        let clip = placements.last().clip();
        if placeable(clip) && earlier.len() < MAX_CLIPS && first_conflict(earlier, clip) is None {
            earlier.push(clip)
        } else {
            earlier
        }
    }
}

/// Which frame of its source a clip plays at a position on the timeline.
pub open spec fn source_at(clip: Clip, position: int) -> int {
    clip.source_offset.0 + (position - clip.start.0)
}

/// Two clips on one lane of a valid arrangement never overlap: an edit that
/// would make them is refused rather than resolved.
pub proof fn lemma_clips_on_a_lane_never_overlap(clips: Seq<Clip>, i: int, j: int)
    requires
        arrangement_valid(clips),
        0 <= i < clips.len(),
        0 <= j < clips.len(),
        i != j,
        clips[i].lane == clips[j].lane,
    ensures
        !clips[i].spec_overlaps(clips[j]),
{
    if i < j {
        assert(clips[i].id.0 < clips[j].id.0);
    } else {
        assert(clips[j].id.0 < clips[i].id.0);
    }
    assert(!conflicts(clips[i], clips[j]));
}

/// Splitting is structural and changes no sound: the halves cover exactly
/// the clip's span, meet without a gap, and each plays at every position the
/// same source frame the whole clip played there. (Where the source position
/// would pass the largest frame count, the second half's offset saturates.)
pub proof fn lemma_split_changes_no_sound(existing: Clip, position: int, new_id: PlacementId)
    requires
        placeable(existing),
        existing.start.0 < position < existing.spec_end(),
        existing.source_offset.0 + existing.length.0 <= i64::MAX,
    ensures
        ({
            let first = first_half(existing, position);
            let second = second_half(existing, position, new_id);
            &&& placeable(first) && placeable(second)
            &&& first.start == existing.start && first.spec_end() == position
            &&& second.start.0 == position && second.spec_end() == existing.spec_end()
            &&& forall|p: int|
                #[trigger] existing.spec_contains(p) <==> (first.spec_contains(p) || second.spec_contains(p))
            &&& forall|p: int| #[trigger] first.spec_contains(p) ==> source_at(first, p) == source_at(existing, p)
            &&& forall|p: int| #[trigger] second.spec_contains(p) ==> source_at(second, p) == source_at(existing, p)
        }),
{
}

/// Trimming the front does not slide the audio: the end stays, and at every
/// position still inside, the clip plays the same source frame as before.
/// (Where the source would have to begin before its own start, the offset
/// stops at zero and the audio moves instead.)
pub proof fn lemma_trimming_the_front_keeps_the_audio_in_place(existing: Clip, landed: int)
    requires
        placeable(existing),
        existing.start.0 + existing.length.0 <= i64::MAX,
        i64::MIN <= landed - existing.start.0,
        existing.start.0 + existing.length.0 - landed <= i64::MAX,
        landed < existing.spec_end(),
        0 <= existing.source_offset.0 + (landed - existing.start.0) <= i64::MAX,
        i64::MIN <= landed <= i64::MAX,
    ensures
        ({
            let trimmed = front_trimmed(existing, landed);
            &&& placeable(trimmed)
            &&& trimmed.start.0 == landed
            &&& trimmed.spec_end() == existing.spec_end()
            &&& forall|p: int|
                #[trigger] trimmed.spec_contains(p) ==> source_at(trimmed, p) == source_at(existing, p)
        }),
{
}

/// What a timeline keeps of a document is the document's own placements,
/// unmoved: every clip kept is exactly what some placement describes.
pub proof fn lemma_kept_clips_are_unmoved_placements(placements: Seq<Placement>)
    ensures
        forall|k: int|
            0 <= k < kept(placements).len() ==> exists|i: int|
                0 <= i < placements.len() && #[trigger] kept(placements)[k] == placements[i].clip(),
    decreases placements.len(),
{
    if placements.len() > 0 {
        let earlier = placements.drop_last();
        lemma_kept_clips_are_unmoved_placements(earlier);
        assert forall|k: int| 0 <= k < kept(placements).len() implies exists|i: int|
            0 <= i < placements.len() && #[trigger] kept(placements)[k] == placements[i].clip() by {
            if k < kept(earlier).len() {
                assert(kept(placements)[k] == kept(earlier)[k]);
                let i = choose|i: int| 0 <= i < earlier.len() && kept(earlier)[k] == earlier[i].clip();
                assert(placements[i] == earlier[i]);
            } else {
                assert(kept(placements)[k] == placements[placements.len() - 1].clip());
            }
        }
    }
}

/// An automation lane as the document gives it: the parameter, whether it
/// is applied, and its points in order of position.
pub struct AutomationTrack<V> {
    /// The parameter.
    pub address: ParameterAddress,
    /// Whether the lane is applied.
    pub enabled: bool,
    /// The points, by position.
    pub points: Vec<AutomationPoint<V>>,
}

/// Tracks in strictly ascending address order, each with its points in
/// strictly ascending position, as the document keeps them.
pub open spec fn tracks_ascending<V>(tracks: Seq<AutomationTrack<V>>) -> bool {
    &&& forall|i: int, j: int| 0 <= i < j < tracks.len() ==> address_before(tracks[i].address, tracks[j].address)
    &&& forall|i: int| 0 <= i < tracks.len() ==> positions_ascending((#[trigger] tracks[i]).points@)
}

/// How many of a track's points a lane keeps: all, up to the limit.
pub open spec fn kept_points(count: nat) -> int {
    if count > MAX_POINTS {
        MAX_POINTS as int
    } else {
        count as int
    }
}

/// How many tracks hold more points than a lane keeps.
pub open spec fn overfull<V>(tracks: Seq<AutomationTrack<V>>) -> int
    decreases tracks.len(),
{
    if tracks.len() == 0 {
        0
    } else {
        overfull(tracks.drop_last()) + (if tracks.last().points@.len() > MAX_POINTS {
            1int
        } else {
            0int
        })
    }
}

/// No more tracks are overfull than there are tracks.
proof fn lemma_overfull_bounded<V>(tracks: Seq<AutomationTrack<V>>)
    ensures
        0 <= overfull(tracks) <= tracks.len(),
    decreases tracks.len(),
{
    if tracks.len() > 0 {
        lemma_overfull_bounded(tracks.drop_last());
    }
}

/// The operations that record a lane's points going: one per point, in
/// order.
pub open spec fn point_removals<V: Copy>(lane: AutomationLane<V>) -> Seq<Operation> {
    Seq::new(
        lane.spec_points().len(),
        |i: int| Operation::RemoveAutomationPoint { address: lane.spec_address(), position: lane.spec_points()[i].position },
    )
}

/// The operations that record the automation within an owner going: the
/// points of each such lane, lane by lane in order.
pub open spec fn automation_removals<V: Copy>(lanes: Seq<AutomationLane<V>>, owner: ParameterOwner) -> Seq<Operation>
    decreases lanes.len(),
{
    if lanes.len() == 0 {
        Seq::empty()
    } else {
        automation_removals(lanes.drop_last(), owner) + (if owner_within(lanes.last().spec_address().spec_owner(), owner) {
            point_removals(lanes.last())
        } else {
            Seq::empty()
        })
    }
}

/// Two addresses of the same parameter stand alike in the order.
proof fn lemma_same_address_orders_alike(a: ParameterAddress, b: ParameterAddress, c: ParameterAddress)
    requires
        same_address(a, b),
    ensures
        address_before(a, c) == address_before(b, c),
        address_before(c, a) == address_before(c, b),
{
}

/// Automation lanes kept one per parameter, in address order, each valid.
pub open spec fn lanes_valid<V: Copy>(lanes: Seq<AutomationLane<V>>) -> bool {
    &&& forall|i: int, j: int|
        0 <= i < j < lanes.len() ==> address_before(lanes[i].spec_address(), lanes[j].spec_address())
    &&& forall|i: int| 0 <= i < lanes.len() ==> (#[trigger] lanes[i]).well_formed()
}

/// Editing a lane in place keeps the lanes valid, as long as the lane stays
/// well formed and keeps its parameter, which every edit a lane offers does.
pub proof fn lemma_editing_a_lane_in_place_keeps_the_lanes_valid<V: Copy>(
    lanes: Seq<AutomationLane<V>>,
    i: int,
    lane: AutomationLane<V>,
)
    requires
        lanes_valid(lanes),
        0 <= i < lanes.len(),
        lane.well_formed(),
        lane.spec_address() == lanes[i].spec_address(),
    ensures
        lanes_valid(lanes.update(i, lane)),
{
    let after = lanes.update(i, lane);
    assert forall|a: int, b: int| 0 <= a < b < after.len() implies address_before(
        after[a].spec_address(),
        after[b].spec_address(),
    ) by {
        assert(after[a].spec_address() == lanes[a].spec_address());
        assert(after[b].spec_address() == lanes[b].spec_address());
    }
}

/// A timeline has one automation lane per parameter: two lanes of a valid
/// timeline never drive the same parameter, however often a lane was set.
pub proof fn lemma_one_lane_per_parameter<V: Copy>(lanes: Seq<AutomationLane<V>>, i: int, j: int)
    requires
        lanes_valid(lanes),
        0 <= i < lanes.len(),
        0 <= j < lanes.len(),
        i != j,
    ensures
        !same_address(lanes[i].spec_address(), lanes[j].spec_address()),
{
    if i < j {
        lemma_address_order(lanes[i].spec_address(), lanes[j].spec_address(), lanes[j].spec_address());
    } else {
        lemma_address_order(lanes[j].spec_address(), lanes[i].spec_address(), lanes[i].spec_address());
    }
}

/// Removing an owner's automation takes exactly the lanes within it: none
/// of them remains, and every other lane does.
pub proof fn lemma_removal_takes_only_what_is_within<V: Copy>(lanes: Seq<AutomationLane<V>>, owner: ParameterOwner)
    ensures
        ({
            let remaining = lanes.filter(
                |lane: AutomationLane<V>| !owner_within(lane.spec_address().spec_owner(), owner),
            );
            &&& forall|k: int|
                0 <= k < remaining.len() ==> !owner_within(
                    (#[trigger] remaining[k]).spec_address().spec_owner(),
                    owner,
                ) && lanes.contains(remaining[k])
            &&& forall|i: int|
                0 <= i < lanes.len() && !owner_within((#[trigger] lanes[i]).spec_address().spec_owner(), owner)
                    ==> remaining.contains(lanes[i])
        }),
{
    let keep = |lane: AutomationLane<V>| !owner_within(lane.spec_address().spec_owner(), owner);
    let remaining = lanes.filter(keep);
    assert forall|k: int| 0 <= k < remaining.len() implies !owner_within(
        (#[trigger] remaining[k]).spec_address().spec_owner(),
        owner,
    ) && lanes.contains(remaining[k]) by {
        lanes.filter_lemma(keep);
        assert(remaining.contains(remaining[k]));
        lanes.lemma_filter_contains_rev(keep, remaining[k]);
    }
    assert forall|i: int|
        0 <= i < lanes.len() && !owner_within((#[trigger] lanes[i]).spec_address().spec_owner(), owner) implies remaining.contains(
        lanes[i],
    ) by {
        lanes.filter_lemma(keep);
        assert(keep(lanes[i]));
    }
}


/// The timeline: clips on lanes, and automation beside them. `V` is what an
/// automation value is; the timeline orders and finds, and never reads one.
#[derive(Debug)]
pub struct Timeline<V> {
    clips: Vec<Clip>,
    automation: Vec<AutomationLane<V>>,
}

impl<V: Copy> Clone for Timeline<V> {
    /// The same clips and the same lanes.
    fn clone(&self) -> (copy: Timeline<V>)
        ensures
            copy.spec_clips() == self.spec_clips(),
            copy.spec_automation().len() == self.spec_automation().len(),
            forall|i: int|
                0 <= i < self.spec_automation().len() ==> (#[trigger] copy.spec_automation()[i]).spec_address()
                    == self.spec_automation()[i].spec_address() && copy.spec_automation()[i].spec_points()
                    == self.spec_automation()[i].spec_points() && copy.spec_automation()[i].spec_enabled()
                    == self.spec_automation()[i].spec_enabled(),
    {
        let mut clips: Vec<Clip> = Vec::new();
        let mut index: usize = 0;
        while index < self.clips.len()
            invariant
                index <= self.clips@.len(),
                clips@ == self.clips@.take(index as int),
            decreases self.clips@.len() - index,
        {
            clips.push(self.clips[index]);
            index += 1;
        }
        let mut automation: Vec<AutomationLane<V>> = Vec::new();
        let mut lane: usize = 0;
        while lane < self.automation.len()
            invariant
                lane <= self.automation@.len(),
                automation@.len() == lane,
                forall|i: int|
                    0 <= i < lane ==> (#[trigger] automation@[i]).spec_address() == self.automation@[i].spec_address()
                        && automation@[i].spec_points() == self.automation@[i].spec_points()
                        && automation@[i].spec_enabled() == self.automation@[i].spec_enabled(),
            decreases self.automation@.len() - lane,
        {
            automation.push(self.automation[lane].clone());
            lane += 1;
        }
        assert(clips@ =~= self.clips@);
        Timeline { clips, automation }
    }
}

impl<V: Copy> Timeline<V> {
    /// The clips, in identifier order.
    pub closed spec fn spec_clips(&self) -> Seq<Clip> {
        self.clips@
    }

    /// The automation lanes, in address order.
    pub closed spec fn spec_automation(&self) -> Seq<AutomationLane<V>> {
        self.automation@
    }

    /// Whether the timeline is valid, as every operation keeps it: a valid
    /// arrangement, and one valid lane per automated parameter in order.
    pub open spec fn well_formed(&self) -> bool {
        arrangement_valid(self.spec_clips()) && lanes_valid(self.spec_automation())
    }

    /// An empty timeline.
    pub fn new() -> (timeline: Timeline<V>)
        ensures
            timeline.well_formed(),
            timeline.spec_clips() == Seq::<Clip>::empty(),
            timeline.spec_automation() == Seq::<AutomationLane<V>>::empty(),
    {
        Timeline { clips: Vec::new(), automation: Vec::new() }
    }

    /// Every clip, in identifier order.
    pub fn clips(&self) -> (clips: &[Clip])
        ensures
            clips@ == self.spec_clips(),
    {
        self.clips.as_slice()
    }

    /// How many clips there are.
    pub fn clip_count(&self) -> (count: usize)
        ensures
            count == self.spec_clips().len(),
    {
        self.clips.len()
    }

    /// The clip with an identifier.
    pub fn clip(&self, id: PlacementId) -> (clip: Option<&Clip>)
        requires
            self.well_formed(),
        ensures
            clip matches Some(found) ==> lookup(self.spec_clips(), id.0) == Some(*found),
            clip is None ==> lookup(self.spec_clips(), id.0) is None,
    {
        let mut index: usize = 0;
        while index < self.clips.len()
            invariant
                ids_ascending(self.clips@),
                index <= self.clips@.len(),
                forall|i: int| 0 <= i < index ==> (#[trigger] self.clips@[i]).id.0 != id.0,
            decreases self.clips@.len() - index,
        {
            if self.clips[index].id.0 == id.0 {
                proof {
                    lemma_lookup_at(self.clips@, index as int);
                }
                return Some(&self.clips[index]);
            }
            index += 1;
        }
        proof {
            lemma_lookup_absent(self.clips@, id.0);
        }
        None
    }

    /// Where a clip with an identifier is, or where it would go.
    fn position_of(&self, id: u64) -> (index: usize)
        requires
            ids_ascending(self.spec_clips()),
        ensures
            index <= self.spec_clips().len(),
            forall|i: int| 0 <= i < index ==> (#[trigger] self.spec_clips()[i]).id.0 < id,
            forall|i: int| index < i < self.spec_clips().len() ==> (#[trigger] self.spec_clips()[i]).id.0 > id,
            index < self.spec_clips().len() ==> self.spec_clips()[index as int].id.0 >= id,
    {
        let mut index: usize = 0;
        while index < self.clips.len() && self.clips[index].id.0 < id
            invariant
                ids_ascending(self.clips@),
                index <= self.clips@.len(),
                forall|i: int| 0 <= i < index ==> (#[trigger] self.clips@[i]).id.0 < id,
            decreases self.clips@.len() - index,
        {
            index += 1;
        }
        proof {
            if index < self.clips@.len() {
                assert forall|i: int| index < i < self.clips@.len() implies (#[trigger] self.clips@[i]).id.0 > id by {
                    assert(self.clips@[index as int].id.0 < self.clips@[i].id.0);
                }
            }
        }
        index
    }

    /// Puts a clip in, in place of any clip with its identifier.
    #[verifier::spinoff_prover]
    fn put(&mut self, clip: Clip)
        requires
            ids_ascending(old(self).spec_clips()),
        ensures
            final(self).spec_automation() == old(self).spec_automation(),
            holds_with(final(self).spec_clips(), old(self).spec_clips(), clip),
            final(self).spec_clips().len() == old(self).spec_clips().len() + (if lookup(
                old(self).spec_clips(),
                clip.id.0,
            ) is None {
                1int
            } else {
                0int
            }),
            forall|i: int|
                0 <= i < final(self).spec_clips().len() ==> #[trigger] final(self).spec_clips()[i] == clip
                    || (old(self).spec_clips().contains(final(self).spec_clips()[i])
                    && final(self).spec_clips()[i].id != clip.id),
            forall|i: int|
                0 <= i < old(self).spec_clips().len() && (#[trigger] old(self).spec_clips()[i]).id != clip.id
                    ==> final(self).spec_clips().contains(old(self).spec_clips()[i]),
    {
        let ghost before = self.clips@;
        let index = self.position_of(clip.id.0);
        if index < self.clips.len() && self.clips[index].id.0 == clip.id.0 {
            proof {
                lemma_lookup_at(before, index as int);
            }
            self.clips.set(index, clip);
            proof {
                let after = self.clips@;
                assert forall|id: u64| #[trigger] lookup(after, id) == (if id == clip.id.0 {
                    Some(clip)
                } else {
                    lookup(before, id)
                }) by {
                    if exists|i: int| 0 <= i < after.len() && (#[trigger] after[i]).id.0 == id {
                        let i = choose|i: int| 0 <= i < after.len() && (#[trigger] after[i]).id.0 == id;
                        lemma_lookup_at(after, i);
                        if i != index {
                            assert(after[i] == before[i]);
                            lemma_lookup_at(before, i);
                        }
                    } else {
                        lemma_lookup_absent(after, id);
                        assert forall|i: int| 0 <= i < before.len() implies (#[trigger] before[i]).id.0 != id by {
                            assert(after[i].id.0 != id);
                            if i != index {
                                assert(after[i] == before[i]);
                            }
                        }
                        lemma_lookup_absent(before, id);
                    }
                }
                assert forall|i: int|
                    0 <= i < after.len() implies #[trigger] after[i] == clip || (before.contains(after[i])
                        && after[i].id != clip.id) by {
                    if i != index {
                        assert(after[i] == before[i]);
                        if i < index {
                            assert(before[i].id.0 < before[index as int].id.0);
                        } else {
                            assert(before[index as int].id.0 < before[i].id.0);
                        }
                    }
                }
                assert forall|i: int|
                    0 <= i < before.len() && (#[trigger] before[i]).id != clip.id implies after.contains(before[i]) by {
                    assert(i != index);
                    assert(after[i] == before[i]);
                }
            }
        } else {
            self.clips.insert(index, clip);
            proof {
                let after = self.clips@;
                assert(after == before.insert(index as int, clip));
                assert forall|i: int| 0 <= i < before.len() implies (#[trigger] before[i]).id.0 != clip.id.0 by {
                    if i < index {
                    } else if i > index {
                    } else {
                    }
                }
                lemma_lookup_absent(before, clip.id.0);
                assert forall|i: int, j: int| 0 <= i < j < after.len() implies after[i].id.0 < after[j].id.0 by {
                    if j < index {
                    } else if j == index {
                    } else if i == index {
                        assert(after[j] == before[j - 1]);
                    } else if i < index {
                        assert(after[j] == before[j - 1]);
                    } else {
                        assert(after[i] == before[i - 1]);
                        assert(after[j] == before[j - 1]);
                    }
                }
                assert forall|id: u64| #[trigger] lookup(after, id) == (if id == clip.id.0 {
                    Some(clip)
                } else {
                    lookup(before, id)
                }) by {
                    if exists|i: int| 0 <= i < after.len() && (#[trigger] after[i]).id.0 == id {
                        let i = choose|i: int| 0 <= i < after.len() && (#[trigger] after[i]).id.0 == id;
                        lemma_lookup_at(after, i);
                        if i < index {
                            assert(after[i] == before[i]);
                            lemma_lookup_at(before, i);
                        } else if i > index {
                            assert(after[i] == before[i - 1]);
                            lemma_lookup_at(before, i - 1);
                        }
                    } else {
                        lemma_lookup_absent(after, id);
                        assert(after[index as int] == clip);
                        assert forall|i: int| 0 <= i < before.len() implies (#[trigger] before[i]).id.0 != id by {
                            if i < index {
                                assert(after[i] == before[i]);
                            } else {
                                assert(after[i + 1] == before[i]);
                            }
                        }
                        lemma_lookup_absent(before, id);
                    }
                }
                assert forall|i: int|
                    0 <= i < after.len() implies #[trigger] after[i] == clip || (before.contains(after[i])
                        && after[i].id != clip.id) by {
                    if i < index {
                        assert(after[i] == before[i]);
                    } else if i > index {
                        assert(after[i] == before[i - 1]);
                    }
                }
                assert forall|i: int|
                    0 <= i < before.len() && (#[trigger] before[i]).id != clip.id implies after.contains(before[i]) by {
                    if i < index {
                        assert(after[i] == before[i]);
                    } else {
                        assert(after[i + 1] == before[i]);
                    }
                }
            }
        }
    }

    /// Adds a clip, its start snapped to the grid.
    ///
    /// Refused for a lane out of range, a length that is not positive, a full
    /// timeline, or a clip already on that span of that lane, in that order.
    /// A clip with the identifier of one already there takes its place.
    pub fn add(&mut self, clip: Clip, grid: &BeatGrid, snap: Snap) -> (result: Result<Edit, EditError>)
        requires
            old(self).well_formed(),
            grid.well_formed(),
        ensures
            final(self).well_formed(),
            final(self).spec_automation() == old(self).spec_automation(),
            ({
                let landed = clip.starting_at(snap.landing(*grid, clip.start.0 as int));
                match add_refusal(old(self).spec_clips(), clip, landed) {
                    Some(error) => result == Err::<Edit, EditError>(error) && final(self).spec_clips() == old(self).spec_clips(),
                    None => result matches Ok(edit) && edit.spec_clips() == seq![landed]
                        && edit.spec_operations() == seq![placing(landed)] && holds_with(
                        final(self).spec_clips(),
                        old(self).spec_clips(),
                        landed,
                    ),
                }
            }),
    {
        if clip.lane >= MAX_LANES {
            return Err(EditError::LaneOutOfRange { lane: clip.lane, maximum: MAX_LANES });
        }
        if clip.length.0 <= 0 {
            return Err(EditError::EmptyClip);
        }
        if self.clips.len() >= MAX_CLIPS && self.clip(clip.id).is_none() {
            return Err(EditError::TooManyClips { maximum: MAX_CLIPS });
        }
        let landed = Clip { start: snap.apply(grid, clip.start), ..clip };
        match self.check_free(landed) {
            Err(error) => {
                return Err(error);
            },
            Ok(()) => {},
        }
        let ghost before = self.clips@;
        self.put(landed);
        proof {
            lemma_put_valid(before, self.clips@, landed);
        }
        let edit = Edit { clips: vec![landed], operations: vec![place(landed)] };
        assert(edit.clips@ =~= seq![landed]);
        assert(edit.operations@ =~= seq![placing(landed)]);
        Ok(edit)
    }

    /// The clip with an identifier, copied out, or the refusal naming it.
    fn existing(&self, id: PlacementId) -> (result: Result<Clip, EditError>)
        requires
            self.well_formed(),
        ensures
            result == (match lookup(self.spec_clips(), id.0) {
                Some(existing) => Ok(existing),
                None => Err(EditError::UnknownClip { clip: id }),
            }),
    {
        match self.clip(id) {
            Some(found) => Ok(*found),
            None => Err(EditError::UnknownClip { clip: id }),
        }
    }

    /// Moves a clip to a lane and a position, the position snapped to the grid.
    ///
    /// Refused for an unknown clip, a lane out of range, or a clip already on
    /// that span of that lane; the clip may overlap where it used to be.
    pub fn move_clip(&mut self, id: PlacementId, lane: u32, start: Frames, grid: &BeatGrid, snap: Snap) -> (result:
        Result<Edit, EditError>)
        requires
            old(self).well_formed(),
            grid.well_formed(),
        ensures
            final(self).well_formed(),
            final(self).spec_automation() == old(self).spec_automation(),
            (match lookup(old(self).spec_clips(), id.0) {
                None => result == Err::<Edit, EditError>(EditError::UnknownClip { clip: id }) && final(self).spec_clips() == old(self).spec_clips(),
                Some(existing) => {
                    let moved = Clip { lane, ..existing.starting_at(snap.landing(*grid, start.0 as int)) };
                    if lane >= MAX_LANES {
                        result == Err::<Edit, EditError>(EditError::LaneOutOfRange { lane, maximum: MAX_LANES })
                            && final(self).spec_clips() == old(self).spec_clips()
                    } else {
                        match first_conflict(old(self).spec_clips(), moved) {
                            Some(other) => result == Err::<Edit, EditError>(EditError::Overlap { existing: other })
                                && final(self).spec_clips() == old(self).spec_clips(),
                            None => result matches Ok(edit) && edit.spec_clips() == seq![moved]
                                && edit.spec_operations() == seq![moving(moved)] && holds_with(
                                final(self).spec_clips(),
                                old(self).spec_clips(),
                                moved,
                            ),
                        }
                    }
                },
            }),
    {
        let existing = match self.existing(id) {
            Ok(found) => found,
            Err(error) => {
                return Err(error);
            },
        };
        if lane >= MAX_LANES {
            return Err(EditError::LaneOutOfRange { lane, maximum: MAX_LANES });
        }
        let moved = Clip { lane, start: snap.apply(grid, start), ..existing };
        match self.check_free(moved) {
            Err(error) => {
                return Err(error);
            },
            Ok(()) => {},
        }
        let ghost before = self.clips@;
        proof {
            lemma_lookup_found(before, id.0);
        }
        self.put(moved);
        proof {
            lemma_put_valid(before, self.clips@, moved);
        }
        let edit = Edit { clips: vec![moved], operations: vec![move_to(moved)] };
        assert(edit.clips@ =~= seq![moved]);
        assert(edit.operations@ =~= seq![moving(moved)]);
        Ok(edit)
    }

    /// Changes where a clip ends, snapped to the grid, keeping its start.
    ///
    /// Refused for an unknown clip, an end not after the start, or a clip
    /// already on the new span of the lane.
    pub fn trim_end(&mut self, id: PlacementId, end: Frames, grid: &BeatGrid, snap: Snap) -> (result: Result<
        Edit,
        EditError,
    >)
        requires
            old(self).well_formed(),
            grid.well_formed(),
        ensures
            final(self).well_formed(),
            final(self).spec_automation() == old(self).spec_automation(),
            (match lookup(old(self).spec_clips(), id.0) {
                None => result == Err::<Edit, EditError>(EditError::UnknownClip { clip: id }) && final(self).spec_clips() == old(self).spec_clips(),
                Some(existing) => {
                    let length = clamp_i64(snap.landing(*grid, end.0 as int) - existing.start.0);
                    let trimmed = Clip { length: Frames(length as i64), ..existing };
                    if length <= 0 {
                        result == Err::<Edit, EditError>(EditError::EmptyClip) && final(self).spec_clips() == old(self).spec_clips()
                    } else {
                        match first_conflict(old(self).spec_clips(), trimmed) {
                            Some(other) => result == Err::<Edit, EditError>(EditError::Overlap { existing: other })
                                && final(self).spec_clips() == old(self).spec_clips(),
                            None => result matches Ok(edit) && edit.spec_clips() == seq![trimmed]
                                && edit.spec_operations() == seq![trimming(trimmed)] && holds_with(
                                final(self).spec_clips(),
                                old(self).spec_clips(),
                                trimmed,
                            ),
                        }
                    }
                },
            }),
    {
        let existing = match self.existing(id) {
            Ok(found) => found,
            Err(error) => {
                return Err(error);
            },
        };
        let landed = snap.apply(grid, end);
        let length = saturating_sub_i64(landed.0, existing.start.0);
        if length <= 0 {
            return Err(EditError::EmptyClip);
        }
        let trimmed = Clip { length: Frames(length), ..existing };
        match self.check_free(trimmed) {
            Err(error) => {
                return Err(error);
            },
            Ok(()) => {},
        }
        let ghost before = self.clips@;
        proof {
            lemma_lookup_found(before, id.0);
        }
        self.put(trimmed);
        proof {
            lemma_put_valid(before, self.clips@, trimmed);
        }
        let edit = Edit { clips: vec![trimmed], operations: vec![trim(trimmed)] };
        assert(edit.clips@ =~= seq![trimmed]);
        assert(edit.operations@ =~= seq![trimming(trimmed)]);
        Ok(edit)
    }

    /// Moves a clip's start, snapped to the grid, without moving what plays:
    /// the source offset moves by as much as the start, never below zero.
    ///
    /// Refused for an unknown clip, a start not before the end, or a clip
    /// already on the new span of the lane.
    pub fn trim_start(&mut self, id: PlacementId, start: Frames, grid: &BeatGrid, snap: Snap) -> (result: Result<
        Edit,
        EditError,
    >)
        requires
            old(self).well_formed(),
            grid.well_formed(),
        ensures
            final(self).well_formed(),
            final(self).spec_automation() == old(self).spec_automation(),
            (match lookup(old(self).spec_clips(), id.0) {
                None => result == Err::<Edit, EditError>(EditError::UnknownClip { clip: id }) && final(self).spec_clips() == old(self).spec_clips(),
                Some(existing) => {
                    let trimmed = front_trimmed(existing, snap.landing(*grid, start.0 as int));
                    if trimmed.length.0 <= 0 {
                        result == Err::<Edit, EditError>(EditError::EmptyClip) && final(self).spec_clips() == old(self).spec_clips()
                    } else {
                        match first_conflict(old(self).spec_clips(), trimmed) {
                            Some(other) => result == Err::<Edit, EditError>(EditError::Overlap { existing: other })
                                && final(self).spec_clips() == old(self).spec_clips(),
                            None => result matches Ok(edit) && edit.spec_clips() == seq![trimmed]
                                && edit.spec_operations() == seq![moving(trimmed), trimming(trimmed), sourcing(trimmed)] && holds_with(
                                final(self).spec_clips(),
                                old(self).spec_clips(),
                                trimmed,
                            ),
                        }
                    }
                },
            }),
    {
        let existing = match self.existing(id) {
            Ok(found) => found,
            Err(error) => {
                return Err(error);
            },
        };
        let landed = snap.apply(grid, start);
        let delta = saturating_sub_i64(landed.0, existing.start.0);
        let length = saturating_sub_i64(existing.length.0, delta);
        if length <= 0 {
            return Err(EditError::EmptyClip);
        }
        let shifted = saturating_add_i64(existing.source_offset.0, delta);
        let offset = if shifted < 0 {
            0
        } else {
            shifted
        };
        let trimmed = Clip { start: landed, length: Frames(length), source_offset: Frames(offset), ..existing };
        assert(trimmed == front_trimmed(existing, landed.0 as int));
        match self.check_free(trimmed) {
            Err(error) => {
                return Err(error);
            },
            Ok(()) => {},
        }
        let ghost before = self.clips@;
        proof {
            lemma_lookup_found(before, id.0);
        }
        self.put(trimmed);
        proof {
            lemma_put_valid(before, self.clips@, trimmed);
        }
        let edit = Edit {
            clips: vec![trimmed],
            operations: vec![move_to(trimmed), trim(trimmed), set_source(trimmed)],
        };
        assert(edit.clips@ =~= seq![trimmed]);
        assert(edit.operations@ =~= seq![moving(trimmed), trimming(trimmed), sourcing(trimmed)]);
        Ok(edit)
    }

    /// Splits a clip in two at a position, snapped to the grid. The first
    /// half keeps the clip's identifier and ends there; the second, given
    /// `new_id`, plays on from there exactly what the whole would have played.
    ///
    /// Refused for an unknown clip, a full timeline, or a position not
    /// strictly inside the clip. A clip already holding `new_id` is replaced
    /// by the second half.
    pub fn split(&mut self, id: PlacementId, at: Frames, new_id: PlacementId, grid: &BeatGrid, snap: Snap) -> (result:
        Result<Edit, EditError>)
        requires
            old(self).well_formed(),
            grid.well_formed(),
        ensures
            final(self).well_formed(),
            final(self).spec_automation() == old(self).spec_automation(),
            (match lookup(old(self).spec_clips(), id.0) {
                None => result == Err::<Edit, EditError>(EditError::UnknownClip { clip: id }) && final(self).spec_clips()
                    == old(self).spec_clips(),
                Some(existing) => {
                    let position = snap.landing(*grid, at.0 as int);
                    let first = first_half(existing, position);
                    let second = second_half(existing, position, new_id);
                    if old(self).spec_clips().len() >= MAX_CLIPS {
                        result == Err::<Edit, EditError>(EditError::TooManyClips { maximum: MAX_CLIPS }) && final(
                            self).spec_clips() == old(self).spec_clips()
                    } else if position <= existing.start.0 || position >= existing.spec_end() {
                        result == Err::<Edit, EditError>(EditError::SplitOutsideClip) && final(self).spec_clips()
                            == old(self).spec_clips()
                    } else {
                        &&& result matches Ok(edit) && edit.spec_clips() == seq![first, second]
                            && edit.spec_operations() == seq![trimming(first), placing(second)]
                        &&& ids_ascending(final(self).spec_clips())
                        &&& forall|other: u64|
                            #[trigger] lookup(final(self).spec_clips(), other) == (if other == new_id.0 {
                                Some(second)
                            } else if other == id.0 {
                                Some(first)
                            } else {
                                lookup(old(self).spec_clips(), other)
                            })
                    }
                },
            }),
    {
        let existing = match self.existing(id) {
            Ok(found) => found,
            Err(error) => {
                return Err(error);
            },
        };
        if self.clips.len() >= MAX_CLIPS {
            return Err(EditError::TooManyClips { maximum: MAX_CLIPS });
        }
        let position = snap.apply(grid, at);
        if position.0 <= existing.start.0 || position.0 >= existing.end().0 {
            return Err(EditError::SplitOutsideClip);
        }
        let ghost before = self.clips@;
        proof {
            lemma_lookup_found(before, id.0);
        }
        let ghost e = choose|i: int| 0 <= i < before.len() && before[i] == existing && before[i].id.0 == id.0;
        let consumed = saturating_sub_i64(position.0, existing.start.0);
        let first = Clip { length: Frames(consumed), ..existing };
        let second = Clip {
            id: new_id,
            track: existing.track,
            start: position,
            length: Frames(saturating_sub_i64(existing.length.0, consumed)),
            source_offset: Frames(saturating_add_i64(existing.source_offset.0, consumed)),
            lane: existing.lane,
        };
        assert(first == first_half(existing, position.0 as int));
        assert(second == second_half(existing, position.0 as int, new_id));
        proof {
            assert forall|k: int| 0 <= k < before.len() implies !conflicts(#[trigger] before[k], first) by {
                if before[k].id != existing.id {
                    assert(!conflicts(before[k], before[e]));
                    lemma_within_span(before[k], existing, first);
                }
            }
            lemma_first_conflict(before, first);
        }
        self.put(first);
        let ghost middle = self.clips@;
        proof {
            lemma_lookup_at(before, e);
            lemma_put_valid(before, middle, first);
            assert forall|k: int| 0 <= k < middle.len() implies !conflicts(#[trigger] middle[k], second) by {
                if middle[k] == first {
                } else {
                    let l = choose|l: int| 0 <= l < before.len() && before[l] == middle[k];
                    assert(before[l].id != existing.id);
                    assert(!conflicts(before[l], before[e]));
                    lemma_within_span(before[l], existing, second);
                }
            }
            lemma_first_conflict(middle, second);
        }
        self.put(second);
        proof {
            lemma_put_valid(middle, self.clips@, second);
        }
        let edit = Edit { clips: vec![first, second], operations: vec![trim(first), place(second)] };
        assert(edit.clips@ =~= seq![first, second]);
        assert(edit.operations@ =~= seq![trimming(first), placing(second)]);
        Ok(edit)
    }

    /// Removes a clip and every automation lane within it, returning the
    /// edit that records both, or `None` when no clip has that identifier.
    /// Automation on the lane the clip sat on stays, because the lane does.
    pub fn remove(&mut self, id: PlacementId) -> (result: Option<Edit>)
        requires
            old(self).well_formed(),
        ensures
            final(self).well_formed(),
            (match lookup(old(self).spec_clips(), id.0) {
                None => result is None && final(self).spec_clips() == old(self).spec_clips()
                    && final(self).spec_automation() == old(self).spec_automation(),
                Some(existing) => {
                    &&& result matches Some(edit) && edit.spec_clips() == seq![existing]
                        && edit.spec_operations() == seq![Operation::RemovePlacement { placement: id }]
                        + automation_removals(old(self).spec_automation(), ParameterOwner::Placement(id))
                    &&& holds_without(final(self).spec_clips(), old(self).spec_clips(), id.0)
                    &&& final(self).spec_clips().len() == old(self).spec_clips().len() - 1
                    &&& final(self).spec_automation() == old(self).spec_automation().filter(
                        |lane: AutomationLane<V>| !owner_within(lane.spec_address().spec_owner(), ParameterOwner::Placement(id)),
                    )
                },
            }),
    {
        let index = self.position_of(id.0);
        if index < self.clips.len() && self.clips[index].id.0 == id.0 {
            let ghost before = self.clips@;
            proof {
                lemma_lookup_at(before, index as int);
                lemma_remove_valid(before, index as int);
            }
            let removed = self.clips.remove(index);
            let owner = ParameterOwner::Placement(id);
            let mut operations: Vec<Operation> = Vec::new();
            operations.push(Operation::RemovePlacement { placement: id });
            let mut lanes: Vec<AutomationLane<V>> = Vec::new();
            std::mem::swap(&mut lanes, &mut self.automation);
            let total: usize = lanes.len();
            let ghost all = lanes@;
            assert(all.len() == total);
            let ghost keep = |lane: AutomationLane<V>| !owner_within(lane.spec_address().spec_owner(), owner);
            let mut kept: Vec<AutomationLane<V>> = Vec::new();
            let mut taken: usize = 0;
            proof {
                reveal(Seq::filter);
                assert(all.take(0) =~= Seq::<AutomationLane<V>>::empty());
                assert(all.skip(0) =~= all);
                assert(operations@ =~= seq![Operation::RemovePlacement { placement: id }] + automation_removals(
                    all.take(0),
                    owner,
                ));
            }
            while lanes.len() > 0
                invariant
                    lanes_valid(all),
                    all.len() <= usize::MAX,
                    taken <= all.len(),
                    lanes@ == all.skip(taken as int),
                    owner == ParameterOwner::Placement(id),
                    keep == (|lane: AutomationLane<V>| !owner_within(lane.spec_address().spec_owner(), owner)),
                    kept@ == all.take(taken as int).filter(keep),
                    lanes_valid(kept@),
                    forall|k: int| 0 <= k < kept@.len() ==> exists|i: int| 0 <= i < taken && all[i] == #[trigger] kept@[k],
                    operations@ == seq![Operation::RemovePlacement { placement: id }] + automation_removals(
                        all.take(taken as int),
                        owner,
                    ),
                decreases lanes@.len(),
            {
                assert(taken < all.len());
                let lane = lanes.remove(0);
                proof {
                    reveal(Seq::filter);
                    assert(lane == all[taken as int]);
                    assert(all.take(taken as int + 1).drop_last() =~= all.take(taken as int));
                    assert(all.take(taken as int + 1).last() == lane);
                    assert(lanes@ =~= all.skip(taken as int + 1));
                }
                if lane.address().is_within(&owner) {
                    let ghost base = operations@;
                    let mut point: usize = 0;
                    while point < lane.points().len()
                        invariant
                            point <= lane.spec_points().len(),
                            operations@ == base + point_removals(lane).take(point as int),
                        decreases lane.spec_points().len() - point,
                    {
                        let position = lane.points()[point].position;
                        let address = lane.address().clone();
                        operations.push(Operation::RemoveAutomationPoint { address, position });
                        proof {
                            assert(point_removals(lane).take(point as int + 1) =~= point_removals(lane).take(
                                point as int,
                            ).push(Operation::RemoveAutomationPoint { address, position }));
                        }
                        point += 1;
                    }
                    proof {
                        assert(point_removals(lane).take(point as int) =~= point_removals(lane));
                    }
                } else {
                    let ghost prior = kept@;
                    proof {
                        assert forall|k: int| 0 <= k < prior.len() implies address_before(
                            (#[trigger] prior[k]).spec_address(),
                            lane.spec_address(),
                        ) by {
                            let i = choose|i: int| 0 <= i < taken && all[i] == prior[k];
                        }
                    }
                    kept.push(lane);
                    proof {
                        assert forall|k: int| 0 <= k < kept@.len() implies exists|i: int|
                            0 <= i < taken + 1 && all[i] == #[trigger] kept@[k] by {
                            if k < prior.len() {
                                assert(kept@[k] == prior[k]);
                                let i = choose|i: int| 0 <= i < taken && all[i] == prior[k];
                            } else {
                                assert(all[taken as int] == kept@[k]);
                            }
                        }
                        assert forall|i: int, j: int| 0 <= i < j < kept@.len() implies address_before(
                            kept@[i].spec_address(),
                            kept@[j].spec_address(),
                        ) by {
                            if j < prior.len() {
                                assert(kept@[i] == prior[i]);
                                assert(kept@[j] == prior[j]);
                            } else {
                                assert(kept@[i] == prior[i]);
                            }
                        }
                        assert forall|i: int| 0 <= i < kept@.len() implies (#[trigger] kept@[i]).well_formed() by {
                            if i < prior.len() {
                                assert(kept@[i] == prior[i]);
                            }
                        }
                    }
                }
                taken += 1;
            }
            proof {
                assert(all.take(all.len() as int) =~= all);
            }
            self.automation = kept;
            let edit = Edit { clips: vec![removed], operations };
            assert(edit.clips@ =~= seq![removed]);
            Some(edit)
        } else {
            proof {
                assert forall|i: int| 0 <= i < self.clips@.len() implies (#[trigger] self.clips@[i]).id.0 != id.0 by {
                    if i < index {
                    } else if i > index {
                    }
                }
                lemma_lookup_absent(self.clips@, id.0);
            }
            None
        }
    }

    /// Every automation lane, in address order.
    pub fn automation(&self) -> (lanes: &[AutomationLane<V>])
        ensures
            lanes@ == self.spec_automation(),
    {
        self.automation.as_slice()
    }

    /// Adds an automation lane, or replaces the one for the same parameter:
    /// one lane per parameter, kept in address order.
    pub fn set_automation(&mut self, lane: AutomationLane<V>)
        requires
            old(self).well_formed(),
        ensures
            final(self).well_formed(),
            final(self).spec_clips() == old(self).spec_clips(),
            forall|i: int|
                0 <= i < old(self).spec_automation().len() && same_address(
                    (#[trigger] old(self).spec_automation()[i]).spec_address(),
                    lane.spec_address(),
                ) ==> final(self).spec_automation() == old(self).spec_automation().update(i, lane),
            (forall|i: int|
                0 <= i < old(self).spec_automation().len() ==> !same_address(
                    (#[trigger] old(self).spec_automation()[i]).spec_address(),
                    lane.spec_address(),
                )) ==> exists|index: int|
                0 <= index <= old(self).spec_automation().len() && final(self).spec_automation() == old(
                    self).spec_automation().insert(index, lane),
    {
        proof {
            use_type_invariant(&lane);
        }
        let ghost before = self.automation@;
        let mut index: usize = 0;
        while index < self.automation.len() && self.automation[index].address().comes_before(lane.address())
            invariant
                self.automation@ == before,
                lanes_valid(before),
                index <= before.len(),
                forall|i: int| 0 <= i < index ==> address_before((#[trigger] before[i]).spec_address(), lane.spec_address()),
            decreases before.len() - index,
        {
            index += 1;
        }
        proof {
            if index < before.len() {
                assert forall|i: int| index < i < before.len() implies !address_before(
                    (#[trigger] before[i]).spec_address(),
                    lane.spec_address(),
                ) by {
                    lemma_address_order(before[index as int].spec_address(), before[i].spec_address(), lane.spec_address());
                }
            }
            assert forall|i: int| 0 <= i < before.len() && i != index implies !same_address(
                (#[trigger] before[i]).spec_address(),
                lane.spec_address(),
            ) by {
                lemma_address_order(before[i].spec_address(), lane.spec_address(), lane.spec_address());
                if i > index {
                    lemma_address_order(before[index as int].spec_address(), before[i].spec_address(), lane.spec_address());
                    lemma_address_order(lane.spec_address(), before[i].spec_address(), before[index as int].spec_address());
                }
            }
        }
        if index < self.automation.len() && self.automation[index].address().same_as(lane.address()) {
            self.automation.set(index, lane);
            proof {
                let after = self.automation@;
                assert forall|i: int, j: int| 0 <= i < j < after.len() implies address_before(
                    after[i].spec_address(),
                    after[j].spec_address(),
                ) by {
                    lemma_same_address_orders_alike(before[index as int].spec_address(), lane.spec_address(), before[i].spec_address());
                    lemma_same_address_orders_alike(before[index as int].spec_address(), lane.spec_address(), before[j].spec_address());
                }
                assert forall|i: int| 0 <= i < after.len() implies (#[trigger] after[i]).well_formed() by {}
            }
        } else {
            self.automation.insert(index, lane);
            proof {
                let after = self.automation@;
                assert(after == before.insert(index as int, lane));
                if index < before.len() {
                    lemma_address_order(before[index as int].spec_address(), lane.spec_address(), lane.spec_address());
                    assert(address_before(lane.spec_address(), before[index as int].spec_address()));
                }
                assert forall|i: int, j: int| 0 <= i < j < after.len() implies address_before(
                    after[i].spec_address(),
                    after[j].spec_address(),
                ) by {
                    if j < index {
                    } else if j == index {
                    } else if i == index {
                        assert(after[j] == before[j - 1]);
                        if j - 1 > index {
                            lemma_address_order(lane.spec_address(), before[index as int].spec_address(), before[j - 1].spec_address());
                        }
                    } else if i < index {
                        assert(after[j] == before[j - 1]);
                    } else {
                        assert(after[i] == before[i - 1]);
                        assert(after[j] == before[j - 1]);
                    }
                }
                assert forall|i: int| 0 <= i < after.len() implies (#[trigger] after[i]).well_formed() by {
                    if i < index {
                        assert(after[i] == before[i]);
                    } else if i > index {
                        assert(after[i] == before[i - 1]);
                    }
                }
            }
        }
    }

    /// The lane for a parameter, if there is one.
    pub fn automation_for(&self, address: &ParameterAddress) -> (lane: Option<&AutomationLane<V>>)
        requires
            self.well_formed(),
        ensures
            lane matches Some(found) ==> exists|i: int|
                0 <= i < self.spec_automation().len() && self.spec_automation()[i] == *found && same_address(
                    found.spec_address(),
                    *address,
                ),
            lane is None ==> forall|i: int|
                0 <= i < self.spec_automation().len() ==> !same_address(
                    (#[trigger] self.spec_automation()[i]).spec_address(),
                    *address,
                ),
    {
        let mut index: usize = 0;
        while index < self.automation.len()
            invariant
                index <= self.automation@.len(),
                forall|i: int|
                    0 <= i < index ==> !same_address((#[trigger] self.automation@[i]).spec_address(), *address),
            decreases self.automation@.len() - index,
        {
            if self.automation[index].address().same_as(address) {
                proof {
                    let found = self.spec_automation()[index as int];
                    assert(0 <= index < self.spec_automation().len() && self.spec_automation()[index as int] == found
                        && same_address(found.spec_address(), *address));
                }
                return Some(&self.automation[index]);
            }
            index += 1;
        }
        None
    }

    /// The lane for a parameter, if there is one, for editing. The timeline
    /// stays well formed as long as the lane does and keeps its parameter,
    /// which every lane's own edits do.
    pub fn automation_for_mut(&mut self, address: &ParameterAddress) -> (lane: Option<&mut AutomationLane<V>>)
        requires
            old(self).well_formed(),
        ensures
            final(self).spec_clips() == old(self).spec_clips(),
            lane is None ==> final(self).spec_automation() == old(self).spec_automation(),
            lane is None ==> forall|i: int|
                0 <= i < old(self).spec_automation().len() ==> !same_address(
                    (#[trigger] old(self).spec_automation()[i]).spec_address(),
                    *address,
                ),
            lane matches Some(found) ==> exists|i: int|
                0 <= i < old(self).spec_automation().len() && old(self).spec_automation()[i] == *found
                    && same_address(found.spec_address(), *address) && final(self).spec_automation()
                    == old(self).spec_automation().update(i, *final(found)),
    {
        let mut index: usize = 0;
        while index < self.automation.len()
            invariant
                index <= self.automation@.len(),
                *self == *old(self),
                forall|i: int|
                    0 <= i < index ==> !same_address((#[trigger] self.automation@[i]).spec_address(), *address),
            decreases self.automation@.len() - index,
        {
            if self.automation[index].address().same_as(address) {
                let ghost i = index as int;
                let lane = &mut self.automation[index];
                assert(*lane == old(self).spec_automation()[i]);
                return Some(lane);
            }
            index += 1;
        }
        None
    }

    /// What every automation lane reads at a position, lane by lane in
    /// address order, for the caller to turn into values; a lane that says
    /// nothing reads `Nothing`.
    pub fn readings_at(&self, position: Frames) -> (readings: Vec<Reading<V>>)
        ensures
            readings@.len() == self.spec_automation().len(),
            forall|i: int|
                0 <= i < readings@.len() ==> #[trigger] readings@[i] == reading_of(
                    self.spec_automation()[i].spec_points(),
                    self.spec_automation()[i].spec_enabled(),
                    position.0,
                ),
    {
        let mut readings: Vec<Reading<V>> = Vec::new();
        let mut index: usize = 0;
        while index < self.automation.len()
            invariant
                index <= self.automation@.len(),
                readings@.len() == index,
                forall|i: int|
                    0 <= i < index ==> #[trigger] readings@[i] == reading_of(
                        self.automation@[i].spec_points(),
                        self.automation@[i].spec_enabled(),
                        position.0,
                    ),
            decreases self.automation@.len() - index,
        {
            let reading = self.automation[index].reading_at(position);
            readings.push(reading);
            index += 1;
        }
        readings
    }

    /// Builds a timeline from the document: its placements in identifier
    /// order, and its automation in address order. Returns it with how many
    /// things it could not hold: placements on a lane out of range, without a
    /// length, beyond the limit, or overlapping one already kept are skipped
    /// rather than clamped; a lane with more points than a lane holds keeps
    /// the earliest and counts once.
    pub fn from_project(placements: &[Placement], automation: &[AutomationTrack<V>]) -> (result: (Timeline<V>, usize))
        requires
            placements_ascending(placements@),
            tracks_ascending(automation@),
            placements@.len() + automation@.len() <= usize::MAX,
        ensures
            result.0.well_formed(),
            result.0.spec_clips() == kept(placements@),
            result.0.spec_automation().len() == automation@.len(),
            forall|i: int|
                0 <= i < automation@.len() ==> (#[trigger] result.0.spec_automation()[i]).spec_address()
                    == automation@[i].address && result.0.spec_automation()[i].spec_enabled() == automation@[i].enabled
                    && result.0.spec_automation()[i].spec_points() == automation@[i].points@.take(
                    kept_points(automation@[i].points@.len()),
                ),
            result.1 == placements@.len() - kept(placements@).len() + overfull(automation@),
    {
        let mut timeline = Timeline::new();
        let mut skipped: usize = 0;
        let mut index: usize = 0;
        assert(placements@.take(0) =~= Seq::<Placement>::empty());
        while index < placements.len()
            invariant
                placements_ascending(placements@),
                index <= placements@.len(),
                timeline.well_formed(),
                timeline.spec_automation() == Seq::<AutomationLane<V>>::empty(),
                timeline.spec_clips() == kept(placements@.take(index as int)),
                skipped + timeline.spec_clips().len() == index,
                forall|j: int|
                    0 <= j < timeline.spec_clips().len() ==> exists|k: int|
                        0 <= k < index && (#[trigger] timeline.spec_clips()[j]).id == placements@[k].id,
            decreases placements@.len() - index,
        {
            let placement = placements[index];
            let clip = Clip::new(placement.id, placement.track, placement.lane, placement.position, placement.length)
                .with_source_offset(placement.source_offset);
            let ghost earlier = timeline.clips@;
            proof {
                assert(placements@.take(index as int + 1).drop_last() =~= placements@.take(index as int));
                assert(placements@.take(index as int + 1).last() == placement);
            }
            let free = timeline.check_free(clip);
            if clip.lane >= MAX_LANES || clip.length.0 <= 0 || timeline.clips.len() >= MAX_CLIPS || free.is_err() {
                skipped += 1;
            } else {
                timeline.clips.push(clip);
                proof {
                    let after = timeline.clips@;
                    assert(after == earlier.push(clip));
                    assert forall|j: int| 0 <= j < earlier.len() implies (#[trigger] earlier[j]).id.0 < clip.id.0 by {
                        let k = choose|k: int| 0 <= k < index && earlier[j].id == placements@[k].id;
                    }
                    lemma_first_conflict(earlier, clip);
                    assert forall|i: int, j: int| 0 <= i < j < after.len() implies after[i].id.0 < after[j].id.0 by {
                        if j == earlier.len() {
                            assert(after[i] == earlier[i]);
                        } else {
                            assert(after[i] == earlier[i]);
                            assert(after[j] == earlier[j]);
                        }
                    }
                    assert forall|i: int|
                        0 <= i < after.len() implies #[trigger] after[i] == clip || (earlier.contains(after[i])
                            && after[i].id != clip.id) by {
                        if i < earlier.len() {
                            assert(after[i] == earlier[i]);
                        }
                    }
                    lemma_put_valid(earlier, after, clip);
                }
            }
            index += 1;
            proof {
                assert forall|j: int|
                    0 <= j < timeline.spec_clips().len() implies exists|k: int|
                        0 <= k < index && (#[trigger] timeline.spec_clips()[j]).id == placements@[k].id by {
                    if j < earlier.len() {
                        assert(timeline.spec_clips()[j] == earlier[j]);
                        let k = choose|k: int| 0 <= k < index - 1 && earlier[j].id == placements@[k].id;
                    } else {
                        assert(timeline.spec_clips()[j].id == placements@[index - 1].id);
                    }
                }
            }
        }
        assert(placements@.take(placements@.len() as int) =~= placements@);
        let ghost kept_count = timeline.clips@.len();
        assert(kept_count <= placements@.len());
        let mut track_index: usize = 0;
        assert(automation@.take(0) =~= Seq::<AutomationTrack<V>>::empty());
        while track_index < automation.len()
            invariant
                tracks_ascending(automation@),
                placements@.len() + automation@.len() <= usize::MAX,
                kept_count <= placements@.len(),
                track_index <= automation@.len(),
                timeline.spec_clips() == kept(placements@),
                arrangement_valid(timeline.spec_clips()),
                kept_count == kept(placements@).len(),
                timeline.spec_automation().len() == track_index,
                lanes_valid(timeline.spec_automation()),
                forall|i: int|
                    0 <= i < track_index ==> (#[trigger] timeline.spec_automation()[i]).spec_address()
                        == automation@[i].address && timeline.spec_automation()[i].spec_enabled()
                        == automation@[i].enabled && timeline.spec_automation()[i].spec_points()
                        == automation@[i].points@.take(kept_points(automation@[i].points@.len())),
                skipped == placements@.len() - kept_count + overfull(automation@.take(track_index as int)),
            decreases automation@.len() - track_index,
        {
            let track = &automation[track_index];
            let (lane, overflowed) = Self::lane_of(track);
            proof {
                assert(automation@.take(track_index as int + 1).drop_last() =~= automation@.take(track_index as int));
                assert(automation@.take(track_index as int + 1).last() == *track);
                lemma_overfull_bounded(automation@.take(track_index as int));
            }
            if overflowed {
                skipped += 1;
            }
            let ghost lanes_before = timeline.automation@;
            timeline.automation.push(lane);
            proof {
                let lanes = timeline.automation@;
                assert forall|i: int, j: int| 0 <= i < j < lanes.len() implies address_before(
                    lanes[i].spec_address(),
                    lanes[j].spec_address(),
                ) by {
                    if j < lanes_before.len() {
                        assert(lanes[i] == lanes_before[i]);
                        assert(lanes[j] == lanes_before[j]);
                    } else {
                        assert(lanes[i] == lanes_before[i]);
                        assert(lanes[i].spec_address() == automation@[i].address);
                    }
                }
                assert forall|i: int| 0 <= i < lanes.len() implies (#[trigger] lanes[i]).well_formed() by {
                    if i < lanes_before.len() {
                        assert(lanes[i] == lanes_before[i]);
                    }
                }
                assert forall|i: int|
                    0 <= i < track_index + 1 implies (#[trigger] lanes[i]).spec_address() == automation@[i].address
                        && lanes[i].spec_enabled() == automation@[i].enabled && lanes[i].spec_points()
                        == automation@[i].points@.take(kept_points(automation@[i].points@.len())) by {
                    if i < track_index {
                        assert(lanes[i] == lanes_before[i]);
                    }
                }
            }
            track_index += 1;
        }
        assert(automation@.take(automation@.len() as int) =~= automation@);
        (timeline, skipped)
    }

    /// The lane a track becomes: its points inserted in order until the lane
    /// is full. Also gives whether any were left out.
    fn lane_of(track: &AutomationTrack<V>) -> (result: (AutomationLane<V>, bool))
        requires
            positions_ascending(track.points@),
        ensures
            result.0.well_formed(),
            result.0.spec_address() == track.address,
            result.0.spec_enabled() == track.enabled,
            result.0.spec_points() == track.points@.take(kept_points(track.points@.len())),
            result.1 == (track.points@.len() > MAX_POINTS),
    {
        let mut lane = AutomationLane::new(track.address.clone());
        lane.set_enabled(track.enabled);
        let mut index: usize = 0;
        let ghost points = track.points@;
        assert(points.take(0) =~= Seq::<AutomationPoint<V>>::empty());
        while index < track.points.len()
            invariant
                points == track.points@,
                positions_ascending(points),
                index <= points.len(),
                index <= MAX_POINTS,
                lane.well_formed(),
                lane.spec_address() == track.address,
                lane.spec_enabled() == track.enabled,
                lane.spec_points() == points.take(index as int),
            decreases points.len() - index,
        {
            let point = track.points[index];
            let ghost before = lane.spec_points();
            proof {
                assert forall|i: int| 0 <= i < before.len() implies (#[trigger] before[i]).position.0 != point.position.0 by {
                    assert(before[i] == points[i]);
                }
            }
            match lane.insert(point) {
                Err(_) => {
                    return (lane, true);
                },
                Ok(()) => {},
            }
            proof {
                let after = lane.spec_points();
                let p = choose|p: int| 0 <= p <= before.len() && after == before.insert(p, point);
                if p < before.len() {
                    assert(after[p] == point);
                    assert(after[p + 1] == before[p]);
                    assert(before[p] == points[p]);
                }
                assert(after =~= points.take(index as int + 1));
            }
            index += 1;
        }
        assert(points.take(points.len() as int) =~= points);
        (lane, false)
    }

    /// Whether one clip is listed before another.
    fn comes_before(a: Clip, b: Clip, by_lane: bool) -> (before: bool)
        ensures
            before == listed_before(a, b, by_lane),
    {
        if by_lane {
            a.lane < b.lane || (a.lane == b.lane && a.id.0 < b.id.0)
        } else {
            a.start.0 < b.start.0 || (a.start.0 == b.start.0 && a.id.0 < b.id.0)
        }
    }

    /// Puts a clip into a list kept in order, where the order puts it.
    fn insert_listed(listed: &mut Vec<Clip>, clip: Clip, by_lane: bool)
        requires
            forall|i: int, j: int| 0 <= i < j < old(listed)@.len() ==> listed_before(old(listed)@[i], old(listed)@[j], by_lane),
            forall|i: int| 0 <= i < old(listed)@.len() ==> (#[trigger] old(listed)@[i]).id != clip.id,
        ensures
            forall|i: int, j: int| 0 <= i < j < final(listed)@.len() ==> listed_before(final(listed)@[i], final(listed)@[j], by_lane),
            final(listed)@.len() == old(listed)@.len() + 1,
            forall|c: Clip| #[trigger] final(listed)@.contains(c) <==> (old(listed)@.contains(c) || c == clip),
    {
        let ghost before = listed@;
        let mut index: usize = 0;
        while index < listed.len() && Self::comes_before(listed[index], clip, by_lane)
            invariant
                listed@ == before,
                index <= before.len(),
                forall|i: int| 0 <= i < index ==> listed_before(#[trigger] before[i], clip, by_lane),
            decreases before.len() - index,
        {
            index += 1;
        }
        listed.insert(index, clip);
        proof {
            let after = listed@;
            assert(after == before.insert(index as int, clip));
            if index < before.len() {
                assert(!listed_before(before[index as int], clip, by_lane));
                assert(before[index as int].id != clip.id);
            }
            assert forall|i: int, j: int| 0 <= i < j < after.len() implies listed_before(after[i], after[j], by_lane) by {
                if j < index {
                } else if j == index {
                } else if i == index {
                    assert(after[j] == before[j - 1]);
                    if j - 1 > index {
                        assert(listed_before(before[index as int], before[j - 1], by_lane));
                    }
                } else if i < index {
                    assert(after[j] == before[j - 1]);
                } else {
                    assert(after[i] == before[i - 1]);
                    assert(after[j] == before[j - 1]);
                }
            }
            assert forall|c: Clip| #[trigger] after.contains(c) <==> (before.contains(c) || c == clip) by {
                if after.contains(c) {
                    let i = choose|i: int| 0 <= i < after.len() && after[i] == c;
                    if i < index {
                        assert(after[i] == before[i]);
                    } else if i > index {
                        assert(after[i] == before[i - 1]);
                    }
                }
                if before.contains(c) {
                    let i = choose|i: int| 0 <= i < before.len() && before[i] == c;
                    if i < index {
                        assert(after[i] == before[i]);
                    } else {
                        assert(after[i + 1] == before[i]);
                    }
                }
                if c == clip {
                    assert(after[index as int] == clip);
                }
            }
        }
    }

    /// The clips on a lane, in time order.
    pub fn clips_on(&self, lane: u32) -> (found: Vec<Clip>)
        requires
            self.well_formed(),
        ensures
            in_time_order(found@),
            forall|c: Clip| #[trigger] found@.contains(c) <==> (self.spec_clips().contains(c) && c.lane == lane),
    {
        let mut found: Vec<Clip> = Vec::new();
        let mut index: usize = 0;
        while index < self.clips.len()
            invariant
                ids_ascending(self.clips@),
                index <= self.clips@.len(),
                in_time_order(found@),
                forall|c: Clip| #[trigger] found@.contains(c) <==> (exists|k: int| 0 <= k < index && self.clips@[k] == c && c.lane == lane),
            decreases self.clips@.len() - index,
        {
            let clip = self.clips[index];
            if clip.lane == lane {
                proof {
                    assert forall|i: int| 0 <= i < found@.len() implies (#[trigger] found@[i]).id != clip.id by {
                        assert(found@.contains(found@[i]));
                        let k = choose|k: int| 0 <= k < index && self.clips@[k] == found@[i] && found@[i].lane == lane;
                        assert(self.clips@[k].id.0 < self.clips@[index as int].id.0);
                    }
                }
                Self::insert_listed(&mut found, clip, false);
            }
            index += 1;
            proof {
                assert forall|c: Clip| #[trigger] found@.contains(c) <==> (exists|k: int| 0 <= k < index && self.clips@[k] == c && c.lane == lane) by {
                    if c == clip && c.lane == lane {
                        assert(self.clips@[index - 1] == c);
                    }
                }
            }
        }
        proof {
            assert forall|c: Clip| #[trigger] found@.contains(c) <==> (self.spec_clips().contains(c) && c.lane == lane) by {
                if self.spec_clips().contains(c) && c.lane == lane {
                    let k = choose|k: int| 0 <= k < self.clips@.len() && self.clips@[k] == c;
                }
            }
        }
        found
    }

    /// Every clip sounding at a position, in lane order. A clip ending at a
    /// position is not sounding there.
    pub fn clips_at(&self, position: Frames) -> (found: Vec<Clip>)
        requires
            self.well_formed(),
        ensures
            in_lane_order(found@),
            forall|c: Clip| #[trigger] found@.contains(c) <==> (self.spec_clips().contains(c) && c.spec_contains(position.0 as int)),
    {
        let mut found: Vec<Clip> = Vec::new();
        let mut index: usize = 0;
        while index < self.clips.len()
            invariant
                ids_ascending(self.clips@),
                index <= self.clips@.len(),
                in_lane_order(found@),
                forall|c: Clip| #[trigger] found@.contains(c) <==> (exists|k: int| 0 <= k < index && self.clips@[k] == c && c.spec_contains(position.0 as int)),
            decreases self.clips@.len() - index,
        {
            let clip = self.clips[index];
            if clip.contains(position) {
                proof {
                    assert forall|i: int| 0 <= i < found@.len() implies (#[trigger] found@[i]).id != clip.id by {
                        assert(found@.contains(found@[i]));
                        let k = choose|k: int| 0 <= k < index && self.clips@[k] == found@[i] && found@[i].spec_contains(position.0 as int);
                        assert(self.clips@[k].id.0 < self.clips@[index as int].id.0);
                    }
                }
                Self::insert_listed(&mut found, clip, true);
            }
            index += 1;
            proof {
                assert forall|c: Clip| #[trigger] found@.contains(c) <==> (exists|k: int| 0 <= k < index && self.clips@[k] == c && c.spec_contains(position.0 as int)) by {
                    if c == clip && c.spec_contains(position.0 as int) {
                        assert(self.clips@[index - 1] == c);
                    }
                }
            }
        }
        proof {
            assert forall|c: Clip| #[trigger] found@.contains(c) <==> (self.spec_clips().contains(c) && c.spec_contains(position.0 as int)) by {
                if self.spec_clips().contains(c) && c.spec_contains(position.0 as int) {
                    let k = choose|k: int| 0 <= k < self.clips@.len() && self.clips@[k] == c;
                }
            }
        }
        found
    }

    /// Where the last clip ends, or zero with no clips.
    pub fn end(&self) -> (end: Frames)
        ensures
            end.0 == latest_end(self.spec_clips()),
            forall|i: int| 0 <= i < self.spec_clips().len() ==> (#[trigger] self.spec_clips()[i]).spec_end() <= end.0,
            self.spec_clips().len() > 0 ==> exists|i: int|
                0 <= i < self.spec_clips().len() && (#[trigger] self.spec_clips()[i]).spec_end() == end.0,
            self.spec_clips().len() == 0 ==> end.0 == 0,
    {
        proof {
            lemma_latest_end_is_the_latest(self.spec_clips());
        }
        if self.clips.len() == 0 {
            return Frames(0);
        }
        let mut latest = self.clips[0].end().0;
        let mut index: usize = 1;
        assert(self.clips@.take(1).drop_last() =~= Seq::<Clip>::empty());
        while index < self.clips.len()
            invariant
                1 <= index <= self.clips@.len(),
                latest == latest_end(self.clips@.take(index as int)),
            decreases self.clips@.len() - index,
        {
            let end = self.clips[index].end().0;
            proof {
                let next = self.clips@.take(index as int + 1);
                assert(next.drop_last() =~= self.clips@.take(index as int));
                assert(next.last() == self.clips@[index as int]);
            }
            if end > latest {
                latest = end;
            }
            index += 1;
        }
        assert(self.clips@.take(self.clips@.len() as int) =~= self.clips@);
        Frames(latest)
    }

    /// Refuses a clip that another on its lane stands in the way of, naming
    /// the first such clip in identifier order.
    fn check_free(&self, clip: Clip) -> (result: Result<(), EditError>)
        ensures
            result == (match first_conflict(self.spec_clips(), clip) {
                None => Ok(()),
                Some(existing) => Err(EditError::Overlap { existing }),
            }),
    {
        let mut index: usize = 0;
        assert(self.clips@.skip(0) =~= self.clips@);
        while index < self.clips.len()
            invariant
                index <= self.clips@.len(),
                first_conflict(self.clips@, clip) == first_conflict(self.clips@.skip(index as int), clip),
            decreases self.clips@.len() - index,
        {
            let existing = self.clips[index];
            proof {
                let rest = self.clips@.skip(index as int);
                assert(rest[0] == existing);
                assert(rest.drop_first() =~= self.clips@.skip(index as int + 1));
            }
            if existing.id.0 != clip.id.0 && existing.lane == clip.lane && existing.overlaps(clip) {
                return Err(EditError::Overlap { existing: existing.id });
            }
            index += 1;
        }
        proof {
            assert(self.clips@.skip(index as int).len() == 0);
        }
        Ok(())
    }
}

} // verus!
