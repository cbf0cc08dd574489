//! A region of the timeline that repeats.

use vstd::prelude::*;

use crate::time::conversion::div_rem_euclid;
use crate::text::{decimal, push_decimal, push_str};
use crate::time::frames::{clamp_i64, saturating_add_i64, saturating_sub_i64, Frames};

verus! {

/// Where a position lands once a loop from `start` to `end` has acted on it:
/// unchanged while it is before the end, otherwise wrapped back by the
/// remainder of its overshoot, which keeps the phase.
pub open spec fn wrapped_position(start: int, end: int, position: int) -> int {
    let length = clamp_i64(end - start);
    if length <= 0 || position < end {
        position
    } else {
        clamp_i64(start + clamp_i64(position - end) % length)
    }
}

/// A region of the timeline that repeats.
///
/// A region built by `new` always ends after it starts; only an engaged region
/// has positive length.
#[derive(Debug, Clone, Copy, PartialEq, Eq, Structural)]
pub struct LoopRegion {
    start: Frames,
    end: Frames,
    enabled: bool,
}

impl LoopRegion {
    #[verifier::type_invariant]
    spec fn well_formed(self) -> bool {
        &&& self.start.0 <= self.end.0
        &&& self.enabled ==> self.start.0 < self.end.0
    }

    /// The first frame of the region.
    pub closed spec fn spec_start(self) -> i64 {
        self.start.0
    }

    /// One past the last frame of the region.
    pub closed spec fn spec_end(self) -> i64 {
        self.end.0
    }

    /// Whether the loop is engaged.
    pub closed spec fn spec_enabled(self) -> bool {
        self.enabled
    }

    /// Two regions are the same value exactly when their parts are.
    pub proof fn lemma_same_region(self, other: LoopRegion)
        ensures
            self == other <==> (self.spec_start() == other.spec_start() && self.spec_end()
                == other.spec_end() && self.spec_enabled() == other.spec_enabled()),
    {
    }

    /// A disabled region covering nothing.
    pub fn none() -> (region: LoopRegion)
        ensures
            region.spec_start() == 0,
            region.spec_end() == 0,
            !region.spec_enabled(),
    {
        LoopRegion { start: Frames(0), end: Frames(0), enabled: false }
    }

    /// Creates a disabled region, or `None` if `end` is not after `start`.
    pub fn new(start: Frames, end: Frames) -> (region: Option<LoopRegion>)
        ensures
            end.0 <= start.0 ==> region is None,
            end.0 > start.0 ==> (region matches Some(r) && r.spec_start() == start.0
                && r.spec_end() == end.0 && !r.spec_enabled()),
    {
        if end.0 <= start.0 {
            return None;
        }
        Some(LoopRegion { start, end, enabled: false })
    }

    /// Start of the region.
    pub fn start(self) -> (start: Frames)
        ensures
            start.0 == self.spec_start(),
    {
        self.start
    }

    /// End of the region, exclusive.
    pub fn end(self) -> (end: Frames)
        ensures
            end.0 == self.spec_end(),
    {
        self.end
    }

    /// Length in frames, saturating.
    pub fn length(self) -> (length: Frames)
        ensures
            length.0 == clamp_i64(self.spec_end() - self.spec_start()),
    {
        Frames(saturating_sub_i64(self.end.0, self.start.0))
    }

    /// Whether the loop is engaged.
    pub fn is_enabled(self) -> (enabled: bool)
        ensures
            enabled == self.spec_enabled(),
    {
        self.enabled
    }

    /// The region with the loop engaged, unless it has no length.
    pub fn enabled(self) -> (region: LoopRegion)
        ensures
            region.spec_start() == self.spec_start(),
            region.spec_end() == self.spec_end(),
            region.spec_enabled() == (self.spec_end() > self.spec_start()),
    {
        proof {
            use_type_invariant(self);
        }
        LoopRegion { start: self.start, end: self.end, enabled: self.end.0 > self.start.0 }
    }

    /// The region with the loop disengaged.
    pub fn disabled(self) -> (region: LoopRegion)
        ensures
            region.spec_start() == self.spec_start(),
            region.spec_end() == self.spec_end(),
            !region.spec_enabled(),
    {
        proof {
            use_type_invariant(self);
        }
        LoopRegion { start: self.start, end: self.end, enabled: false }
    }

    /// Whether a position falls inside the region; the end is exclusive.
    pub fn contains(self, position: Frames) -> (inside: bool)
        ensures
            inside <==> self.spec_start() <= position.0 < self.spec_end(),
    {
        position.0 >= self.start.0 && position.0 < self.end.0
    }

    /// Wraps a position that has run past the end back into the region by
    /// the remainder of its overshoot, so a loop shorter than a block keeps
    /// its phase.
    pub fn wrap(self, position: Frames) -> (wrapped: Frames)
        ensures
            wrapped.0 == wrapped_position(
                self.spec_start() as int,
                self.spec_end() as int,
                position.0 as int,
            ),
    {
        let length = saturating_sub_i64(self.end.0, self.start.0);
        if length <= 0 || position.0 < self.end.0 {
            return position;
        }
        let overshoot = saturating_sub_i64(position.0, self.end.0);
        let (_, phase) = div_rem_euclid(overshoot as i128, length as i128);
        Frames(saturating_add_i64(self.start.0, phase as i64))
    }

    /// The region as a person reads it: `loop <start>..<end>`, or
    /// `loop off (<start>..<end>)` while disabled.
    pub fn to_text(self) -> (text: String)
        ensures
            text@ == loop_text(self.spec_start() as int, self.spec_end() as int, self.spec_enabled()),
    {
        let mut text = String::new();
        if self.enabled {
            push_str(&mut text, "loop ");
        } else {
            push_str(&mut text, "loop off (");
        }
        push_decimal(&mut text, self.start.0 as i128);
        push_str(&mut text, "..");
        push_decimal(&mut text, self.end.0 as i128);
        if !self.enabled {
            push_str(&mut text, ")");
        }
        text
    }
}

/// How a loop region reads.
pub open spec fn loop_text(start: int, end: int, enabled: bool) -> Seq<char> {
    if enabled {
        "loop "@ + decimal(start) + ".."@ + decimal(end)
    } else {
        "loop off ("@ + decimal(start) + ".."@ + decimal(end) + ")"@
    }
}

/// A position wrapped by a region lands inside it, provided the region's
/// length is representable.
pub proof fn lemma_wrap_lands_inside(start: i64, end: i64, position: i64)
    requires
        start < end,
        end - start <= i64::MAX,
        position >= end,
    ensures
        start <= wrapped_position(start as int, end as int, position as int) < end,
{
    let length = end - start;
    let overshoot = clamp_i64(position - end);
    vstd::arithmetic::div_mod::lemma_mod_bound(overshoot, length);
}

/// A loop keeps the phase: a position before the loop's end is left alone,
/// and one at or past it lands inside the loop at the same offset within the
/// loop's length, that is, a whole number of loop lengths back (where the
/// overshoot past the end is representable).
pub proof fn lemma_wrap_keeps_the_phase(start: i64, end: i64, position: i64)
    requires
        start < end,
        end - start <= i64::MAX,
    ensures
        position < end ==> wrapped_position(start as int, end as int, position as int) == position,
        position >= end && position - end <= i64::MAX ==> {
            let wrapped = wrapped_position(start as int, end as int, position as int);
            &&& start <= wrapped < end
            &&& wrapped <= position
            &&& (position - wrapped) % (end - start) == 0
        },
{
    if position >= end && position - end <= i64::MAX {
        let length = (end - start) as int;
        let overshoot = position - end;
        assert(clamp_i64(overshoot) == overshoot);
        assert(clamp_i64(end - start) == length);
        vstd::arithmetic::div_mod::lemma_fundamental_div_mod(overshoot, length);
        vstd::arithmetic::div_mod::lemma_mod_bound(overshoot, length);
        let q = overshoot / length;
        vstd::arithmetic::div_mod::lemma_div_pos_is_pos(overshoot, length);
        let wrapped = start + overshoot % length;
        assert(clamp_i64(wrapped) == wrapped);
        assert(position - wrapped == length * (q + 1)) by (nonlinear_arith)
            requires
                overshoot == length * q + overshoot % length,
                wrapped == start + overshoot % length,
                overshoot == position - end,
                length == end - start,
        ;
        vstd::arithmetic::div_mod::lemma_mod_multiples_basic(q + 1, length);
        assert(length * (q + 1) == (q + 1) * length) by (nonlinear_arith);
    }
}

} // verus!
