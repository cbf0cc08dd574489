//! How automation moves between points, and why a lane refused a point.

use vstd::prelude::*;

use crate::text::{decimal, push_decimal, push_str};
use crate::time::frames::{clamp_i64, saturating_add_i64, saturating_sub_i64, Frames};
use crate::timeline::parameter::ParameterAddress;

verus! {

/// The most points an automation lane holds.
pub const MAX_POINTS: usize = 16_384;

/// How a value travels from one automation point to the next.
#[derive(Debug, Clone, Copy, PartialEq, Eq, Hash, Structural)]
pub enum Interpolation {
    /// Stays put, then jumps at the next point.
    Hold,
    /// A straight line.
    Linear,
    /// Eases in and out.
    Smooth,
    /// Starts slowly and speeds up.
    Accelerating,
    /// Starts quickly and slows down.
    Decelerating,
}

impl Interpolation {
    /// A stable identifier, for storage and localisation.
    pub fn key(self) -> (key: &'static str)
        ensures
            key@ == (match self {
                Interpolation::Hold => "interpolation.hold"@,
                Interpolation::Linear => "interpolation.linear"@,
                Interpolation::Smooth => "interpolation.smooth"@,
                Interpolation::Accelerating => "interpolation.accelerating"@,
                Interpolation::Decelerating => "interpolation.decelerating"@,
            }),
    {
        match self {
            Interpolation::Hold => "interpolation.hold",
            Interpolation::Linear => "interpolation.linear",
            Interpolation::Smooth => "interpolation.smooth",
            Interpolation::Accelerating => "interpolation.accelerating",
            Interpolation::Decelerating => "interpolation.decelerating",
        }
    }
}

/// Why an automation lane refused a point.
#[derive(Debug, Clone, Copy, PartialEq, Eq, Structural)]
#[non_exhaustive]
pub enum AutomationError {
    /// The lane holds as many points as it may.
    TooManyPoints {
        /// That many.
        maximum: usize,
    },
}

impl AutomationError {
    /// The error as a person reads it.
    pub fn to_text(self) -> (text: String)
        ensures
            text@ == (match self {
                AutomationError::TooManyPoints { maximum } => "an automation lane may hold at most "@ + decimal(
                    maximum as int,
                ) + " points"@,
            }),
    {
        let mut text = String::new();
        match self {
            AutomationError::TooManyPoints { maximum } => {
                push_str(&mut text, "an automation lane may hold at most ");
                push_decimal(&mut text, maximum as i128);
                push_str(&mut text, " points");
            },
        }
        assert(text@ =~= (match self {
            AutomationError::TooManyPoints { maximum } => "an automation lane may hold at most "@ + decimal(
                maximum as int,
            ) + " points"@,
        }));
        text
    }
}

/// One point on an automation lane: where it sits, the value there, and how
/// the value travels to the next point. The lane orders points and finds the
/// segment a position falls in; what a value is, it never reads.
#[derive(Debug, Clone, Copy)]
pub struct AutomationPoint<V> {
    /// Where the point sits.
    pub position: Frames,
    /// The value at the point.
    pub value: V,
    /// How the value approaches the next point: the shape belongs to the
    /// segment that begins here.
    pub interpolation: Interpolation,
}

impl<V: Copy> AutomationPoint<V> {
    /// Where the point sits.
    pub fn position(self) -> (position: Frames)
        ensures
            position == self.position,
    {
        self.position
    }

    /// The value at the point.
    pub fn value(self) -> (value: V)
        ensures
            value == self.value,
    {
        self.value
    }

    /// How the value approaches the next point.
    pub fn interpolation(self) -> (interpolation: Interpolation)
        ensures
            interpolation == self.interpolation,
    {
        self.interpolation
    }
}

/// Points strictly ascending by position: at most one point at a position.
pub open spec fn positions_ascending<V>(points: Seq<AutomationPoint<V>>) -> bool {
    forall|i: int, j: int| 0 <= i < j < points.len() ==> points[i].position.0 < points[j].position.0
}

/// Whether some point sits at a position.
pub open spec fn has_point_at<V>(points: Seq<AutomationPoint<V>>, position: i64) -> bool {
    exists|i: int| 0 <= i < points.len() && (#[trigger] points[i]).position.0 == position
}

/// What a lane reads at a position, before any value is computed.
#[derive(Debug, Clone, Copy)]
pub enum Reading<V> {
    /// Nothing: the lane is disabled or has no points, and the parameter's
    /// own value applies.
    Nothing,
    /// One point's value: at or before the first point, at or after the last.
    Held(V),
    /// Part way between two points.
    Between {
        /// The value at the earlier point.
        from: V,
        /// The value at the later point.
        to: V,
        /// The shape of the segment, the earlier point's.
        interpolation: Interpolation,
        /// How far past the earlier point the position is.
        travelled: i64,
        /// How far apart the two points are, saturating.
        span: i64,
    },
}

/// Whether a position falls in the segment from the point at an index to the
/// next: at or after the one, before the other.
pub open spec fn in_segment<V>(points: Seq<AutomationPoint<V>>, index: int, position: i64) -> bool {
    0 <= index < points.len() - 1 && points[index].position.0 <= position < points[index + 1].position.0
}

/// What the segment from the point at an index reads at a position.
pub open spec fn segment_reading<V>(points: Seq<AutomationPoint<V>>, index: int, position: i64) -> Reading<V> {
    Reading::Between {
        from: points[index].value,
        to: points[index + 1].value,
        interpolation: points[index].interpolation,
        travelled: clamp_i64(position - points[index].position.0) as i64,
        span: clamp_i64(points[index + 1].position.0 - points[index].position.0) as i64,
    }
}

/// What a lane reads at a position: nothing when disabled or empty; the
/// first value up to the first point, the last value from the last point;
/// otherwise the segment the position falls in.
pub open spec fn reading_of<V>(points: Seq<AutomationPoint<V>>, enabled: bool, position: i64) -> Reading<V> {
    if !enabled || points.len() == 0 {
        Reading::Nothing
    } else if position <= points[0].position.0 {
        Reading::Held(points[0].value)
    } else if position >= points.last().position.0 {
        Reading::Held(points.last().value)
    } else {
        segment_reading(points, choose|i: int| #[trigger] in_segment(points, i, position), position)
    }
}

/// Between the first and last points, a lane reads the segment whose earlier
/// point is the last at or before the position.
proof fn lemma_segment<V>(points: Seq<AutomationPoint<V>>, position: i64, index: int)
    requires
        positions_ascending(points),
        1 <= index < points.len(),
        points[0].position.0 < position < points.last().position.0,
        in_segment(points, index - 1, position),
    ensures
        reading_of(points, true, position) == segment_reading(points, index - 1, position),
{
    let chosen = choose|i: int| #[trigger] in_segment(points, i, position);
    assert(in_segment(points, chosen, position));
    if chosen < index - 1 {
        assert(points[chosen + 1].position.0 <= points[index - 1].position.0);
    } else if chosen > index - 1 {
        assert(points[index].position.0 <= points[chosen].position.0);
    }
}

/// Where a point lands when a lane is shifted: moved by the offset,
/// saturating, and never before zero.
pub open spec fn shifted_position(position: i64, offset: i64) -> i64 {
    let moved = clamp_i64(position + offset);
    if moved < 0 {
        0
    } else {
        moved as i64
    }
}

/// A lane's points shifted: each moved, and of points that land together
/// only the earliest kept.
pub open spec fn shifted<V>(points: Seq<AutomationPoint<V>>, offset: i64) -> Seq<AutomationPoint<V>>
    decreases points.len(),
{
    if points.len() == 0 {
        Seq::empty()
    } else {
        let earlier = shifted(points.drop_last(), offset);
        let last = points.last();
        let moved = AutomationPoint { position: Frames(shifted_position(last.position.0, offset)), ..last };
        if earlier.len() > 0 && earlier.last().position == moved.position {
            earlier
        } else {
            earlier.push(moved)
        }
    }
}

/// Inserting the same point again changes nothing: the second insert
/// replaces the point at its position with itself.
pub proof fn lemma_repeating_an_insert_changes_nothing<V>(
    points: Seq<AutomationPoint<V>>,
    index: int,
    point: AutomationPoint<V>,
)
    requires
        0 <= index < points.len(),
        points[index] == point,
    ensures
        points.update(index, point) == points,
{
    assert(points.update(index, point) =~= points);
}

/// A shifted lane never has a point before zero, and loses a point only
/// where two land on one position.
pub proof fn lemma_shifting_never_goes_before_zero<V>(points: Seq<AutomationPoint<V>>, offset: i64)
    ensures
        forall|k: int| 0 <= k < shifted(points, offset).len() ==> #[trigger] shifted(points, offset)[k].position.0 >= 0,
        shifted(points, offset).len() <= points.len(),
    decreases points.len(),
{
    if points.len() > 0 {
        lemma_shifting_never_goes_before_zero(points.drop_last(), offset);
        let earlier = shifted(points.drop_last(), offset);
        assert forall|k: int| 0 <= k < shifted(points, offset).len() implies #[trigger] shifted(
            points,
            offset,
        )[k].position.0 >= 0 by {
            if k < earlier.len() {
                assert(shifted(points, offset)[k] == earlier[k]);
            }
        }
    }
}

/// A parameter's value over time: points in order, and whether the lane is
/// applied. A disabled lane keeps its points.
#[derive(Debug)]
pub struct AutomationLane<V> {
    address: ParameterAddress,
    points: Vec<AutomationPoint<V>>,
    enabled: bool,
}

impl<V: Copy> Clone for AutomationLane<V> {
    /// The same parameter, points and state.
    fn clone(&self) -> (copy: AutomationLane<V>)
        ensures
            copy.spec_address() == self.spec_address(),
            copy.spec_points() == self.spec_points(),
            copy.spec_enabled() == self.spec_enabled(),
    {
        proof {
            use_type_invariant(self);
        }
        let mut points: Vec<AutomationPoint<V>> = Vec::new();
        let mut index: usize = 0;
        while index < self.points.len()
            invariant
                index <= self.points@.len(),
                points@ == self.points@.take(index as int),
                positions_ascending(self.points@),
                self.points@.len() <= MAX_POINTS,
            decreases self.points@.len() - index,
        {
            points.push(self.points[index]);
            index += 1;
        }
        assert(points@ =~= self.points@);
        AutomationLane { address: self.address.clone(), points, enabled: self.enabled }
    }
}

impl<V> AutomationLane<V> {
    /// The points, in order of position.
    pub closed spec fn spec_points(&self) -> Seq<AutomationPoint<V>> {
        self.points@
    }

    /// Whether the lane is applied.
    pub closed spec fn spec_enabled(&self) -> bool {
        self.enabled
    }

    /// Which parameter the lane drives.
    pub closed spec fn spec_address(&self) -> ParameterAddress {
        self.address
    }

    /// Points in order, one per position, no more than the limit: what
    /// every lane holds, from the moment it is made.
    #[verifier::type_invariant]
    pub open spec fn well_formed(&self) -> bool {
        positions_ascending(self.spec_points()) && self.spec_points().len() <= MAX_POINTS
    }
}

impl<V: Copy> AutomationLane<V> {

    /// An empty, enabled lane for a parameter.
    pub fn new(address: ParameterAddress) -> (lane: AutomationLane<V>)
        ensures
            lane.well_formed(),
            lane.spec_address() == address,
            lane.spec_points() == Seq::<AutomationPoint<V>>::empty(),
            lane.spec_enabled(),
    {
        AutomationLane { address, points: Vec::new(), enabled: true }
    }

    /// Which parameter the lane drives.
    pub fn address(&self) -> (address: &ParameterAddress)
        ensures
            *address == self.spec_address(),
    {
        &self.address
    }

    /// The points, in order.
    pub fn points(&self) -> (points: &[AutomationPoint<V>])
        ensures
            points@ == self.spec_points(),
    {
        self.points.as_slice()
    }

    /// Whether the lane is applied.
    pub fn is_enabled(&self) -> (enabled: bool)
        ensures
            enabled == self.spec_enabled(),
    {
        self.enabled
    }

    /// Applies or stops applying the lane, keeping its points.
    pub fn set_enabled(&mut self, enabled: bool)
        ensures
            final(self).spec_enabled() == enabled,
            final(self).spec_points() == old(self).spec_points(),
            final(self).spec_address() == old(self).spec_address(),
    {
        proof {
            use_type_invariant(&*self);
        }
        self.enabled = enabled;
    }

    /// Whether the lane has no points.
    pub fn is_empty(&self) -> (empty: bool)
        ensures
            empty == (self.spec_points().len() == 0),
    {
        self.points.len() == 0
    }

    /// How many points the lane has.
    pub fn len(&self) -> (count: usize)
        ensures
            count == self.spec_points().len(),
    {
        self.points.len()
    }

    /// How many points sit before a position: where a point there goes.
    fn points_before(&self, position: i64) -> (index: usize)
        requires
            positions_ascending(self.spec_points()),
        ensures
            index <= self.spec_points().len(),
            forall|i: int| 0 <= i < index ==> (#[trigger] self.spec_points()[i]).position.0 < position,
            forall|i: int|
                index <= i < self.spec_points().len() ==> (#[trigger] self.spec_points()[i]).position.0 >= position,
    {
        let mut low: usize = 0;
        let mut high: usize = self.points.len();
        while low < high
            invariant
                positions_ascending(self.points@),
                low <= high <= self.points@.len(),
                forall|i: int| 0 <= i < low ==> (#[trigger] self.points@[i]).position.0 < position,
                forall|i: int| high <= i < self.points@.len() ==> (#[trigger] self.points@[i]).position.0 >= position,
            decreases high - low,
        {
            let middle = low + (high - low) / 2;
            if self.points[middle].position.0 < position {
                proof {
                    assert forall|i: int| 0 <= i < middle + 1 implies (#[trigger] self.points@[i]).position.0
                        < position by {
                        if i < middle {
                            assert(self.points@[i].position.0 < self.points@[middle as int].position.0);
                        }
                    }
                }
                low = middle + 1;
            } else {
                proof {
                    assert forall|i: int| middle <= i < self.points@.len() implies (
                    #[trigger] self.points@[i]).position.0 >= position by {
                        if i > middle {
                            assert(self.points@[middle as int].position.0 < self.points@[i].position.0);
                        }
                    }
                }
                high = middle;
            }
        }
        low
    }

    /// Adds a point, or replaces the one already at its position, so that
    /// repeating an edit changes nothing more. Refused only when a new
    /// position would take the lane past its limit.
    pub fn insert(&mut self, point: AutomationPoint<V>) -> (result: Result<(), AutomationError>)
        ensures
            final(self).well_formed(),
            final(self).spec_enabled() == old(self).spec_enabled(),
            final(self).spec_address() == old(self).spec_address(),
            (result is Err) == (!has_point_at(old(self).spec_points(), point.position.0)
                && old(self).spec_points().len() >= MAX_POINTS),
            result is Err ==> result == Err::<(), AutomationError>(AutomationError::TooManyPoints { maximum: MAX_POINTS })
                && final(self).spec_points() == old(self).spec_points(),
            forall|i: int|
                0 <= i < old(self).spec_points().len() && (#[trigger] old(self).spec_points()[i]).position
                    == point.position ==> final(self).spec_points() == old(self).spec_points().update(i, point),
            result is Ok && !has_point_at(old(self).spec_points(), point.position.0) ==> exists|index: int|
                0 <= index <= old(self).spec_points().len() && final(self).spec_points() == old(
                self).spec_points().insert(index, point),
    {
        proof {
            use_type_invariant(&*self);
        }
        let ghost before = self.points@;
        let index = self.points_before(point.position.0);
        if index < self.points.len() && self.points[index].position.0 == point.position.0 {
            let mut points: Vec<AutomationPoint<V>> = Vec::new();
            std::mem::swap(&mut points, &mut self.points);
            points.set(index, point);
            proof {
                let after = points@;
                assert forall|i: int, j: int| 0 <= i < j < after.len() implies after[i].position.0
                    < after[j].position.0 by {
                    assert(before[i].position.0 < before[j].position.0);
                }
                assert forall|i: int|
                    0 <= i < before.len() && (#[trigger] before[i]).position == point.position implies after
                    == before.update(i, point) by {
                    if i < index {
                        assert(before[i].position.0 < before[index as int].position.0);
                    } else if i > index {
                        assert(before[index as int].position.0 < before[i].position.0);
                    }
                }
                assert(has_point_at(before, point.position.0));
            }
            self.points = points;
            return Ok(());
        }
        proof {
            assert forall|i: int| 0 <= i < before.len() implies (#[trigger] before[i]).position.0 != point.position.0 by {
                if i > index {
                    assert(before[index as int].position.0 < before[i].position.0);
                }
            }
        }
        if self.points.len() >= MAX_POINTS {
            return Err(AutomationError::TooManyPoints { maximum: MAX_POINTS });
        }
        let mut points: Vec<AutomationPoint<V>> = Vec::new();
        std::mem::swap(&mut points, &mut self.points);
        points.insert(index, point);
        proof {
            let after = points@;
            assert(after == before.insert(index as int, point));
            assert forall|i: int, j: int| 0 <= i < j < after.len() implies after[i].position.0 < after[j].position.0 by {
                if j < index {
                } else if j == index {
                } else if i == index {
                    assert(after[j] == before[j - 1]);
                } else if i < index {
                    assert(after[j] == before[j - 1]);
                } else {
                    assert(after[i] == before[i - 1]);
                    assert(after[j] == before[j - 1]);
                }
            }
        }
        self.points = points;
        Ok(())
    }
    /// Removes the point at a position, returning whether there was one.
    pub fn remove_at(&mut self, position: Frames) -> (removed: bool)
        ensures
            final(self).well_formed(),
            final(self).spec_enabled() == old(self).spec_enabled(),
            final(self).spec_address() == old(self).spec_address(),
            removed == has_point_at(old(self).spec_points(), position.0),
            !removed ==> final(self).spec_points() == old(self).spec_points(),
            forall|i: int|
                0 <= i < old(self).spec_points().len() && (#[trigger] old(self).spec_points()[i]).position == position
                    ==> final(self).spec_points() == old(self).spec_points().remove(i),
    {
        proof {
            use_type_invariant(&*self);
        }
        let ghost before = self.points@;
        let index = self.points_before(position.0);
        if index < self.points.len() && self.points[index].position.0 == position.0 {
            let mut points: Vec<AutomationPoint<V>> = Vec::new();
            std::mem::swap(&mut points, &mut self.points);
            points.remove(index);
            proof {
                let after = points@;
                assert(after == before.remove(index as int));
                assert forall|i: int, j: int| 0 <= i < j < after.len() implies after[i].position.0
                    < after[j].position.0 by {
                    let k = if i < index {
                        i
                    } else {
                        i + 1
                    };
                    let l = if j < index {
                        j
                    } else {
                        j + 1
                    };
                    assert(after[i] == before[k]);
                    assert(after[j] == before[l]);
                }
                assert forall|i: int|
                    0 <= i < before.len() && (#[trigger] before[i]).position == position implies after
                    == before.remove(i) by {
                    if i < index {
                        assert(before[i].position.0 < before[index as int].position.0);
                    } else if i > index {
                        assert(before[index as int].position.0 < before[i].position.0);
                    }
                }
                assert(has_point_at(before, position.0));
            }
            self.points = points;
            true
        } else {
            proof {
                assert forall|i: int| 0 <= i < before.len() implies (#[trigger] before[i]).position.0 != position.0 by {
                    if i > index {
                        assert(before[index as int].position.0 < before[i].position.0);
                    }
                }
            }
            false
        }
    }

    /// Removes every point from `from` up to but not including `to`, and
    /// returns how many went.
    pub fn remove_range(&mut self, from: Frames, to: Frames) -> (removed: usize)
        ensures
            final(self).well_formed(),
            final(self).spec_enabled() == old(self).spec_enabled(),
            final(self).spec_address() == old(self).spec_address(),
            final(self).spec_points() == old(self).spec_points().filter(
                |point: AutomationPoint<V>| point.position.0 < from.0 || point.position.0 >= to.0,
            ),
            removed == old(self).spec_points().len() - final(self).spec_points().len(),
    {
        proof {
            use_type_invariant(&*self);
        }
        let ghost before = self.points@;
        let ghost keep = |point: AutomationPoint<V>| point.position.0 < from.0 || point.position.0 >= to.0;
        let mut kept: Vec<AutomationPoint<V>> = Vec::new();
        let mut index: usize = 0;
        assert(before.take(0).filter(keep) =~= Seq::<AutomationPoint<V>>::empty()) by {
            reveal(Seq::filter);
        }
        while index < self.points.len()
            invariant
                before == self.points@,
                positions_ascending(before),
                before.len() <= MAX_POINTS,
                index <= before.len(),
                keep == (|point: AutomationPoint<V>| point.position.0 < from.0 || point.position.0 >= to.0),
                kept@ == before.take(index as int).filter(keep),
                kept@.len() <= index,
                positions_ascending(kept@),
                forall|k: int| 0 <= k < kept@.len() ==> exists|i: int| 0 <= i < index && before[i] == #[trigger] kept@[k],
            decreases before.len() - index,
        {
            let point = self.points[index];
            proof {
                reveal(Seq::filter);
                assert(before.take(index as int + 1).drop_last() =~= before.take(index as int));
                assert(before.take(index as int + 1).last() == point);
            }
            if point.position.0 < from.0 || point.position.0 >= to.0 {
                let ghost prior = kept@;
                proof {
                    assert forall|k: int| 0 <= k < prior.len() implies (#[trigger] prior[k]).position.0 < point.position.0 by {
                        let i = choose|i: int| 0 <= i < index && before[i] == prior[k];
                    }
                }
                kept.push(point);
                proof {
                    assert forall|k: int| 0 <= k < kept@.len() implies exists|i: int| 0 <= i < index + 1 && before[i]
                        == #[trigger] kept@[k] by {
                        if k < prior.len() {
                            assert(kept@[k] == prior[k]);
                            let i = choose|i: int| 0 <= i < index && before[i] == prior[k];
                        } else {
                            assert(before[index as int] == kept@[k]);
                        }
                    }
                    assert forall|i: int, j: int| 0 <= i < j < kept@.len() implies kept@[i].position.0
                        < kept@[j].position.0 by {
                        if j < prior.len() {
                            assert(kept@[i] == prior[i]);
                            assert(kept@[j] == prior[j]);
                        } else {
                            assert(kept@[i] == prior[i]);
                        }
                    }
                }
            }
            index += 1;
        }
        assert(before.take(before.len() as int) =~= before);
        let removed = self.points.len() - kept.len();
        self.points = kept;
        removed
    }

    /// What the lane reads at a position, for the caller to turn into a
    /// value: nothing when disabled or empty, a point's value outside the
    /// points, or the segment the position falls in and how far along it is.
    /// Logarithmic in the number of points.
    pub fn reading_at(&self, position: Frames) -> (reading: Reading<V>)
        ensures
            reading == reading_of(self.spec_points(), self.spec_enabled(), position.0),
    {
        proof {
            use_type_invariant(&*self);
        }
        if !self.enabled || self.points.len() == 0 {
            return Reading::Nothing;
        }
        let first = self.points[0];
        if position.0 <= first.position.0 {
            return Reading::Held(first.value);
        }
        let last = self.points[self.points.len() - 1];
        if position.0 >= last.position.0 {
            return Reading::Held(last.value);
        }
        let index = self.points_before(position.0 + 1);
        proof {
            let points = self.points@;
            assert(points[0].position.0 < position.0 + 1);
            assert(points[points.len() - 1].position.0 >= position.0 + 1);
            assert(in_segment(points, index - 1, position.0));
            lemma_segment(points, position.0, index as int);
        }
        let start = self.points[index - 1];
        let end = self.points[index];
        Reading::Between {
            from: start.value,
            to: end.value,
            interpolation: start.interpolation,
            travelled: saturating_sub_i64(position.0, start.position.0),
            span: saturating_sub_i64(end.position.0, start.position.0),
        }
    }

    /// Where the first point sits, if any.
    pub fn start(&self) -> (start: Option<Frames>)
        ensures
            start == (if self.spec_points().len() == 0 {
                None
            } else {
                Some(self.spec_points()[0].position)
            }),
    {
        if self.points.len() == 0 {
            None
        } else {
            Some(self.points[0].position)
        }
    }

    /// Where the last point sits, if any.
    pub fn end(&self) -> (end: Option<Frames>)
        ensures
            end == (if self.spec_points().len() == 0 {
                None
            } else {
                Some(self.spec_points().last().position)
            }),
    {
        if self.points.len() == 0 {
            None
        } else {
            Some(self.points[self.points.len() - 1].position)
        }
    }

    /// Moves every point by an offset. A point that would move before zero
    /// is clamped there rather than dropped; points that land on one position
    /// keep only the earliest of them, and the lane stays in order.
    pub fn shift(&mut self, offset: Frames)
        ensures
            final(self).well_formed(),
            final(self).spec_enabled() == old(self).spec_enabled(),
            final(self).spec_address() == old(self).spec_address(),
            final(self).spec_points() == shifted(old(self).spec_points(), offset.0),
    {
        proof {
            use_type_invariant(&*self);
        }
        let ghost before = self.points@;
        let mut moved: Vec<AutomationPoint<V>> = Vec::new();
        let mut index: usize = 0;
        assert(before.take(0) =~= Seq::<AutomationPoint<V>>::empty());
        while index < self.points.len()
            invariant
                before == self.points@,
                positions_ascending(before),
                before.len() <= MAX_POINTS,
                index <= before.len(),
                moved@ == shifted(before.take(index as int), offset.0),
                moved@.len() <= index,
                positions_ascending(moved@),
                index > 0 ==> moved@.len() > 0 && moved@.last().position.0 == shifted_position(
                    before[index - 1].position.0,
                    offset.0,
                ),
            decreases before.len() - index,
        {
            let point = self.points[index];
            let sum = saturating_add_i64(point.position.0, offset.0);
            let landed = if sum < 0 {
                0
            } else {
                sum
            };
            let next = AutomationPoint { position: Frames(landed), ..point };
            proof {
                assert(before.take(index as int + 1).drop_last() =~= before.take(index as int));
                assert(before.take(index as int + 1).last() == point);
                if index > 0 {
                    assert(before[index - 1].position.0 < point.position.0);
                }
            }
            let count = moved.len();
            if count > 0 && moved[count - 1].position.0 == landed {
            } else {
                let ghost prior = moved@;
                moved.push(next);
                proof {
                    assert forall|i: int, j: int| 0 <= i < j < moved@.len() implies moved@[i].position.0
                        < moved@[j].position.0 by {
                        if j < prior.len() {
                            assert(moved@[i] == prior[i]);
                            assert(moved@[j] == prior[j]);
                        } else if i < prior.len() - 1 {
                            assert(moved@[i] == prior[i]);
                            assert(prior[i].position.0 < prior.last().position.0);
                        } else {
                            assert(moved@[i] == prior[i]);
                        }
                    }
                }
            }
            index += 1;
        }
        assert(before.take(before.len() as int) =~= before);
        self.points = moved;
    }
}

} // verus!
