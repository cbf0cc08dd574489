//! A musical time signature, such as 4/4 or 6/8.

use vstd::prelude::*;

use crate::text::{decimal, push_decimal, push_str};
use crate::time::conversion::{div_rem_euclid, division_bound};
use crate::time::error::TimeError;
use crate::time::frames::{clamp_i64, saturating_add_i64, saturating_mul_i64};
use crate::time::musical_time::{MusicalTime, Ticks, TICKS_PER_BEAT, TICKS_PER_WHOLE_NOTE};

verus! {

/// How a signature reads: `<numerator>/<denominator>`.
pub open spec fn signature_text(signature: TimeSignature) -> Seq<char> {
    decimal(signature.spec_numerator() as int) + "/"@ + decimal(signature.spec_denominator() as int)
}

/// Whether a denominator is a power of two between 1 and 32.
pub open spec fn is_valid_denominator(denominator: int) -> bool {
    denominator == 1 || denominator == 2 || denominator == 4 || denominator == 8
        || denominator == 16 || denominator == 32
}

/// The length of a bar in ticks.
pub open spec fn bar_ticks(numerator: int, denominator: int) -> int {
    (TICKS_PER_WHOLE_NOTE as int / denominator) * numerator
}

/// An absolute tick position decomposed into bar, beat and tick, flooring so
/// that positions before the origin fall in negative bars.
pub open spec fn decompose(ticks: int, per_bar: int) -> MusicalTime {
    let within = ticks % per_bar;
    MusicalTime {
        bar: (ticks / per_bar) as i64,
        beat: (within / TICKS_PER_BEAT as int) as u32,
        tick: (within % TICKS_PER_BEAT as int) as u32,
    }
}

/// A bar, beat and tick composed into an absolute tick count, each step
/// saturating, so that out-of-range beats and ticks carry into later bars.
pub open spec fn compose(position: MusicalTime, per_bar: int) -> int {
    clamp_i64(
        clamp_i64(clamp_i64(position.bar * per_bar) + position.beat * TICKS_PER_BEAT as int)
            + position.tick,
    )
}

/// A musical time signature.
///
/// Tempo is expressed in quarter notes per minute independently of the
/// signature; the signature decides only how long a bar is. The numerator is
/// never zero and the denominator is a power of two no greater than 32, so
/// every bar is a whole number of ticks.
#[derive(Debug, Clone, Copy, PartialEq, Eq, Hash, Structural)]
pub struct TimeSignature {
    numerator: u8,
    denominator: u8,
}

impl TimeSignature {
    #[verifier::type_invariant]
    spec fn valid(self) -> bool {
        self.numerator >= 1 && is_valid_denominator(self.denominator as int)
    }

    /// How many notes of the denominator's value fit in a bar.
    pub closed spec fn spec_numerator(self) -> u8 {
        self.numerator
    }

    /// The note value that counts as one unit.
    pub closed spec fn spec_denominator(self) -> u8 {
        self.denominator
    }

    /// The length of one bar in ticks.
    pub open spec fn spec_ticks_per_bar(self) -> int {
        bar_ticks(self.spec_numerator() as int, self.spec_denominator() as int)
    }

    /// Two signatures are the same value exactly when both parts are.
    pub proof fn lemma_same_signature(self, other: TimeSignature)
        ensures
            self == other <==> (self.spec_numerator() == other.spec_numerator()
                && self.spec_denominator() == other.spec_denominator()),
    {
    }

    fn known(numerator: u8, denominator: u8) -> (signature: TimeSignature)
        requires
            numerator >= 1,
            is_valid_denominator(denominator as int),
        ensures
            signature.spec_numerator() == numerator,
            signature.spec_denominator() == denominator,
    {
        TimeSignature { numerator, denominator }
    }

    /// Four beats to the bar.
    pub fn four_four() -> (signature: TimeSignature)
        ensures
            signature.spec_numerator() == 4,
            signature.spec_denominator() == 4,
    {
        Self::known(4, 4)
    }

    /// Three beats to the bar.
    pub fn three_four() -> (signature: TimeSignature)
        ensures
            signature.spec_numerator() == 3,
            signature.spec_denominator() == 4,
    {
        Self::known(3, 4)
    }

    /// Six eighth notes to the bar.
    pub fn six_eight() -> (signature: TimeSignature)
        ensures
            signature.spec_numerator() == 6,
            signature.spec_denominator() == 8,
    {
        Self::known(6, 8)
    }

    /// Creates a time signature.
    ///
    /// A zero numerator is refused first; then a denominator that is not a
    /// power of two between 1 and 32.
    pub fn new(numerator: u8, denominator: u8) -> (result: Result<TimeSignature, TimeError>)
        ensures
            numerator == 0 ==> result == Err::<TimeSignature, TimeError>(
                TimeError::InvalidSignatureNumerator { numerator },
            ),
            numerator != 0 && !is_valid_denominator(denominator as int) ==> result == Err::<
                TimeSignature,
                TimeError,
            >(TimeError::InvalidSignatureDenominator { denominator }),
            numerator != 0 && is_valid_denominator(denominator as int) ==> (result matches Ok(
                signature,
            ) && signature.spec_numerator() == numerator && signature.spec_denominator()
                == denominator),
    {
        if numerator == 0 {
            return Err(TimeError::InvalidSignatureNumerator { numerator });
        }
        if !(denominator == 1 || denominator == 2 || denominator == 4 || denominator == 8
            || denominator == 16 || denominator == 32) {
            return Err(TimeError::InvalidSignatureDenominator { denominator });
        }
        Ok(TimeSignature { numerator, denominator })
    }

    /// The numerator.
    pub fn numerator(self) -> (numerator: u8)
        ensures
            numerator == self.spec_numerator(),
            numerator >= 1,
    {
        proof {
            use_type_invariant(self);
        }
        self.numerator
    }

    /// The signature as a person reads it: `<numerator>/<denominator>`.
    pub fn to_text(self) -> (text: String)
        ensures
            text@ == signature_text(self),
    {
        let mut text = String::new();
        push_decimal(&mut text, self.numerator as i128);
        push_str(&mut text, "/");
        push_decimal(&mut text, self.denominator as i128);
        text
    }

    /// The denominator.
    pub fn denominator(self) -> (denominator: u8)
        ensures
            denominator == self.spec_denominator(),
            is_valid_denominator(denominator as int),
    {
        proof {
            use_type_invariant(self);
        }
        self.denominator
    }

    /// The length of one bar in ticks: always exact, and at most 255 whole
    /// notes.
    pub fn ticks_per_bar(self) -> (ticks: u32)
        ensures
            ticks == self.spec_ticks_per_bar(),
            480 <= ticks <= 3_916_800,
    {
        let numerator = self.numerator();
        let denominator = self.denominator();
        let per_unit = TICKS_PER_WHOLE_NOTE / denominator as u32;
        proof {
            if denominator == 1 {
                assert(per_unit == 15360) by (nonlinear_arith)
                    requires
                        denominator == 1,
                        per_unit == TICKS_PER_WHOLE_NOTE / denominator as u32,
                ;
            } else if denominator == 2 {
                assert(per_unit == 7680) by (nonlinear_arith)
                    requires
                        denominator == 2,
                        per_unit == TICKS_PER_WHOLE_NOTE / denominator as u32,
                ;
            } else if denominator == 4 {
                assert(per_unit == 3840) by (nonlinear_arith)
                    requires
                        denominator == 4,
                        per_unit == TICKS_PER_WHOLE_NOTE / denominator as u32,
                ;
            } else if denominator == 8 {
                assert(per_unit == 1920) by (nonlinear_arith)
                    requires
                        denominator == 8,
                        per_unit == TICKS_PER_WHOLE_NOTE / denominator as u32,
                ;
            } else if denominator == 16 {
                assert(per_unit == 960) by (nonlinear_arith)
                    requires
                        denominator == 16,
                        per_unit == TICKS_PER_WHOLE_NOTE / denominator as u32,
                ;
            } else {
                assert(per_unit == 480) by (nonlinear_arith)
                    requires
                        denominator == 32,
                        per_unit == TICKS_PER_WHOLE_NOTE / denominator as u32,
                ;
            }
            assert(480 <= per_unit * numerator <= 15360 * 255) by (nonlinear_arith)
                requires
                    480 <= per_unit <= 15360,
                    1 <= numerator <= 255,
            ;
        }
        per_unit * numerator as u32
    }

    /// Decomposes an absolute tick position into bar, beat and tick.
    ///
    /// Floors rather than truncates: one tick before the origin is the last
    /// tick of bar -1.
    pub fn ticks_to_musical(self, ticks: Ticks) -> (position: MusicalTime)
        ensures
            position == decompose(ticks.0 as int, self.spec_ticks_per_bar()),
            position.beat * (TICKS_PER_BEAT as int) + position.tick < self.spec_ticks_per_bar(),
            position.tick < TICKS_PER_BEAT,
    {
        let per_bar = self.ticks_per_bar() as i128;
        let (bar, within) = div_rem_euclid(ticks.0 as i128, per_bar);
        let (beat, tick) = div_rem_euclid(within, TICKS_PER_BEAT as i128);
        proof {
            lemma_bar_fits(ticks.0 as int, per_bar as int);
        }
        MusicalTime { bar: bar as i64, beat: beat as u32, tick: tick as u32 }
    }

    /// Composes a bar, beat and tick into an absolute tick count.
    ///
    /// Beats and ticks beyond their nominal range carry into the next bar
    /// rather than being rejected; every step saturates.
    pub fn musical_to_ticks(self, position: MusicalTime) -> (ticks: Ticks)
        ensures
            ticks.0 == compose(position, self.spec_ticks_per_bar()),
    {
        let per_bar = self.ticks_per_bar() as i64;
        let from_bars = saturating_mul_i64(position.bar, per_bar);
        let from_beats = position.beat as i64 * TICKS_PER_BEAT as i64;
        Ticks(saturating_add_i64(saturating_add_i64(from_bars, from_beats), position.tick as i64))
    }
}

/// The bar index of any 64-bit tick position fits in 64 bits.
pub proof fn lemma_bar_fits(ticks: int, per_bar: int)
    requires
        480 <= per_bar,
        i64::MIN <= ticks <= i64::MAX,
    ensures
        i64::MIN <= ticks / per_bar <= i64::MAX,
{
    let bar = ticks / per_bar;
    let within = ticks % per_bar;
    vstd::arithmetic::div_mod::lemma_fundamental_div_mod(ticks, per_bar);
    assert(i64::MIN <= bar <= i64::MAX) by (nonlinear_arith)
        requires
            ticks == per_bar * bar + within,
            0 <= within < per_bar,
            per_bar >= 480,
            -0x8000_0000_0000_0000 <= ticks <= 0x7fff_ffff_ffff_ffff,
    ;
}

/// Composing a decomposed position gives back the original tick count,
/// provided its bar line does not fall below the 64-bit range.
pub proof fn lemma_decompose_compose(ticks: int, per_bar: int)
    requires
        480 <= per_bar <= 3_916_800,
        i64::MIN <= ticks <= i64::MAX,
        ticks - ticks % per_bar >= i64::MIN,
    ensures
        compose(decompose(ticks, per_bar), per_bar) == ticks,
{
    let position = decompose(ticks, per_bar);
    let within = ticks % per_bar;
    let bar = ticks / per_bar;
    vstd::arithmetic::div_mod::lemma_fundamental_div_mod(ticks, per_bar);
    vstd::arithmetic::div_mod::lemma_fundamental_div_mod(within, TICKS_PER_BEAT as int);
    assert(0 <= within < per_bar);
    assert(0 <= within % (TICKS_PER_BEAT as int) < TICKS_PER_BEAT);
    assert(bar * per_bar == per_bar * bar) by (nonlinear_arith);
    assert(i64::MIN <= bar <= i64::MAX) by (nonlinear_arith)
        requires
            ticks == per_bar * bar + within,
            0 <= within < per_bar,
            per_bar >= 480,
            -0x8000_0000_0000_0000 <= ticks <= 0x7fff_ffff_ffff_ffff,
    ;
    assert(0 <= within / (TICKS_PER_BEAT as int) <= within);
    assert(position.bar == bar);
    assert(position.beat * (TICKS_PER_BEAT as int) + position.tick == within);
}

impl TimeSignature {
    /// Composing the decomposition of a tick position returns that position,
    /// for every position whose bar line lies inside the 64-bit range.
    pub proof fn lemma_round_trip(self, ticks: Ticks)
        requires
            480 <= self.spec_ticks_per_bar() <= 3_916_800,
            ticks.0 - (ticks.0 as int) % self.spec_ticks_per_bar() >= i64::MIN,
        ensures
            compose(decompose(ticks.0 as int, self.spec_ticks_per_bar()), self.spec_ticks_per_bar())
                == ticks.0,
    {
        lemma_decompose_compose(ticks.0 as int, self.spec_ticks_per_bar());
    }
}

} // verus!
