//! Ticks, and positions decomposed into bar, beat and tick.

use vstd::prelude::*;

use crate::text::{decimal, push_char, push_decimal, push_str};
use crate::time::frames::{clamp_i64, saturating_add_i64, saturating_mul_i64, saturating_sub_i64};

verus! {

/// Ticks per beat, where a beat is a quarter note.
///
/// 3840 = 2^8 × 3 × 5 divides exactly by every duple, triplet and quintuplet
/// subdivision a performer uses.
pub const TICKS_PER_BEAT: u32 = 3840;

/// Ticks in a whole note: every power-of-two denominator up to 32 divides it.
pub const TICKS_PER_WHOLE_NOTE: u32 = 15360;

/// A signed position or duration in musical ticks. Arithmetic saturates.
#[derive(Debug, Clone, Copy, PartialEq, Eq, PartialOrd, Ord, Hash, Default, Structural)]
pub struct Ticks(pub i64);

impl Ticks {
    /// Zero ticks.
    pub fn zero() -> (ticks: Ticks)
        ensures
            ticks.0 == 0,
    {
        Ticks(0)
    }

    /// One beat.
    pub fn beat() -> (ticks: Ticks)
        ensures
            ticks.0 == TICKS_PER_BEAT,
    {
        Ticks(3840)
    }

    /// Creates a tick count.
    pub fn new(ticks: i64) -> (result: Ticks)
        ensures
            result.0 == ticks,
    {
        Ticks(ticks)
    }

    /// Returns the raw count.
    pub fn get(self) -> (ticks: i64)
        ensures
            ticks == self.0,
    {
        self.0
    }

    /// Creates a tick count from a whole number of beats, saturating.
    pub fn from_beats(beats: i64) -> (ticks: Ticks)
        ensures
            ticks.0 == clamp_i64(beats * TICKS_PER_BEAT),
    {
        Ticks(saturating_mul_i64(beats, 3840))
    }

    /// The count as a person reads it: `<n> ticks`.
    pub fn to_text(self) -> (text: String)
        ensures
            text@ == decimal(self.0 as int) + " ticks"@,
    {
        let mut text = String::new();
        push_decimal(&mut text, self.0 as i128);
        push_str(&mut text, " ticks");
        text
    }

    /// Adds two counts, saturating.
    pub fn plus(self, other: Ticks) -> (sum: Ticks)
        ensures
            sum.0 == clamp_i64(self.0 + other.0),
    {
        Ticks(saturating_add_i64(self.0, other.0))
    }

    /// Subtracts two counts, saturating.
    pub fn minus(self, other: Ticks) -> (difference: Ticks)
        ensures
            difference.0 == clamp_i64(self.0 - other.0),
    {
        Ticks(saturating_sub_i64(self.0, other.0))
    }
}

impl core::ops::Add for Ticks {
    type Output = Ticks;

    fn add(self, other: Ticks) -> (sum: Ticks) {
        self.plus(other)
    }
}

impl core::ops::Sub for Ticks {
    type Output = Ticks;

    fn sub(self, other: Ticks) -> (difference: Ticks) {
        self.minus(other)
    }
}

impl vstd::std_specs::ops::AddSpecImpl for Ticks {
    open spec fn obeys_add_spec() -> bool {
        true
    }

    open spec fn add_req(self, other: Ticks) -> bool {
        true
    }

    open spec fn add_spec(self, other: Ticks) -> Ticks {
        Ticks(clamp_i64(self.0 + other.0) as i64)
    }
}

impl vstd::std_specs::ops::SubSpecImpl for Ticks {
    open spec fn obeys_sub_spec() -> bool {
        true
    }

    open spec fn sub_req(self, other: Ticks) -> bool {
        true
    }

    open spec fn sub_spec(self, other: Ticks) -> Ticks {
        Ticks(clamp_i64(self.0 - other.0) as i64)
    }
}

/// A musical position: zero-based bar, beat within the bar and tick within
/// the beat. The bar may be negative, for count-ins and early transitions.
#[derive(Debug, Clone, Copy, PartialEq, Eq, PartialOrd, Ord, Hash, Default, Structural)]
pub struct MusicalTime {
    /// Bar index, zero-based, may be negative.
    pub bar: i64,
    /// Quarter-note beat within the bar, zero-based.
    pub beat: u32,
    /// Tick within the beat, zero-based.
    pub tick: u32,
}

/// How a position reads to a performer: `bar.beat.tick`, counting bars and
/// beats from one.
pub open spec fn musical_text(position: MusicalTime) -> Seq<char> {
    decimal(position.bar + 1) + seq!['.'] + decimal(position.beat + 1) + seq!['.']
        + decimal(position.tick as int)
}

impl MusicalTime {
    /// The origin: bar zero, beat zero, tick zero.
    pub fn zero() -> (position: MusicalTime)
        ensures
            position == (MusicalTime { bar: 0, beat: 0, tick: 0 }),
    {
        MusicalTime { bar: 0, beat: 0, tick: 0 }
    }

    /// Creates a musical position.
    pub fn new(bar: i64, beat: u32, tick: u32) -> (position: MusicalTime)
        ensures
            position == (MusicalTime { bar, beat, tick }),
    {
        MusicalTime { bar, beat, tick }
    }

    /// Returns `true` if the position falls exactly on a beat.
    pub fn is_on_beat(self) -> (on_beat: bool)
        ensures
            on_beat <==> self.tick == 0,
    {
        self.tick == 0
    }

    /// Returns `true` if the position falls exactly on a bar line.
    pub fn is_on_bar(self) -> (on_bar: bool)
        ensures
            on_bar <==> self.beat == 0 && self.tick == 0,
    {
        self.beat == 0 && self.tick == 0
    }

    /// The position as a performer reads it: `bar.beat.tick`, bar and beat
    /// counted from one, so the first downbeat is `1.1.0`.
    pub fn to_text(self) -> (text: String)
        ensures
            text@ == musical_text(self),
    {
        let mut text = String::new();
        push_decimal(&mut text, self.bar as i128 + 1);
        push_char(&mut text, '.');
        push_decimal(&mut text, self.beat as i128 + 1);
        push_char(&mut text, '.');
        push_decimal(&mut text, self.tick as i128);
        proof {
            assert(text@ =~= musical_text(self));
        }
        text
    }
}

} // verus!
