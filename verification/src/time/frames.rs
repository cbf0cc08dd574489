//! A signed count of sample frames.

use vstd::prelude::*;

use crate::text::{decimal, push_decimal, push_str};

verus! {

/// Clamps an integer into the 64-bit range: what a saturating operation does.
pub open spec fn clamp_i64(value: int) -> int {
    if value > i64::MAX {
        i64::MAX as int
    } else if value < i64::MIN {
        i64::MIN as int
    } else {
        value
    }
}

/// Adds two 64-bit values, saturating at either bound.
pub fn saturating_add_i64(a: i64, b: i64) -> (sum: i64)
    ensures
        sum == clamp_i64(a + b),
{
    let wide = a as i128 + b as i128;
    clamp_i128_to_i64(wide)
}

/// Subtracts two 64-bit values, saturating at either bound.
pub fn saturating_sub_i64(a: i64, b: i64) -> (difference: i64)
    ensures
        difference == clamp_i64(a - b),
{
    let wide = a as i128 - b as i128;
    clamp_i128_to_i64(wide)
}

/// Multiplies two 64-bit values, saturating at either bound.
pub fn saturating_mul_i64(a: i64, b: i64) -> (product: i64)
    ensures
        product == clamp_i64(a * b),
{
    proof {
        lemma_i64_product_fits(a, b);
    }
    let wide = a as i128 * b as i128;
    clamp_i128_to_i64(wide)
}

/// The product of two 64-bit values fits comfortably in 128 bits.
pub proof fn lemma_i64_product_fits(a: i64, b: i64)
    ensures
        -0x4000_0000_0000_0000_0000_0000_0000_0000 <= a * b <= 0x4000_0000_0000_0000_0000_0000_0000_0000,
{
    assert(-0x4000_0000_0000_0000_0000_0000_0000_0000 <= a * b <= 0x4000_0000_0000_0000_0000_0000_0000_0000) by (nonlinear_arith)
        requires
            -0x8000_0000_0000_0000 <= a <= 0x7fff_ffff_ffff_ffff,
            -0x8000_0000_0000_0000 <= b <= 0x7fff_ffff_ffff_ffff,
    ;
}

/// Clamps a 128-bit value into the 64-bit range.
pub fn clamp_i128_to_i64(value: i128) -> (clamped: i64)
    ensures
        clamped == clamp_i64(value as int),
{
    if value > i64::MAX as i128 {
        i64::MAX
    } else if value < i64::MIN as i128 {
        i64::MIN
    } else {
        value as i64
    }
}

/// A signed count of sample frames.
///
/// A frame is one sample across all channels. Signed, because relative offsets
/// are as common as absolute positions. Arithmetic saturates rather than wraps.
#[derive(Debug, Clone, Copy, PartialEq, Eq, PartialOrd, Ord, Hash, Default, Structural)]
pub struct Frames(pub i64);

impl Frames {
    /// Zero frames.
    pub fn zero() -> (frames: Frames)
        ensures
            frames.0 == 0,
    {
        Frames(0)
    }

    /// Creates a frame count.
    pub fn new(frames: i64) -> (result: Frames)
        ensures
            result.0 == frames,
    {
        Frames(frames)
    }

    /// Returns the raw count.
    pub fn get(self) -> (frames: i64)
        ensures
            frames == self.0,
    {
        self.0
    }

    /// Returns `true` if the count is negative.
    pub fn is_negative(self) -> (negative: bool)
        ensures
            negative <==> self.0 < 0,
    {
        self.0 < 0
    }

    /// Returns the absolute count, saturating at `i64::MAX` for `i64::MIN`.
    pub fn abs(self) -> (result: Frames)
        ensures
            result.0 == clamp_i64(if self.0 < 0 { -self.0 } else { self.0 as int }),
    {
        if self.0 < 0 {
            Frames(saturating_sub_i64(0, self.0))
        } else {
            self
        }
    }

    /// Adds two counts, returning `None` on overflow.
    pub fn checked_add(self, other: Frames) -> (sum: Option<Frames>)
        ensures
            i64::MIN <= self.0 + other.0 <= i64::MAX ==> sum == Some(Frames((self.0 + other.0) as i64)),
            !(i64::MIN <= self.0 + other.0 <= i64::MAX) ==> sum is None,
    {
        let wide = self.0 as i128 + other.0 as i128;
        if wide < i64::MIN as i128 || wide > i64::MAX as i128 {
            None
        } else {
            Some(Frames(wide as i64))
        }
    }

    /// Subtracts two counts, returning `None` on overflow.
    pub fn checked_sub(self, other: Frames) -> (difference: Option<Frames>)
        ensures
            i64::MIN <= self.0 - other.0 <= i64::MAX ==> difference == Some(Frames((self.0 - other.0) as i64)),
            !(i64::MIN <= self.0 - other.0 <= i64::MAX) ==> difference is None,
    {
        let wide = self.0 as i128 - other.0 as i128;
        if wide < i64::MIN as i128 || wide > i64::MAX as i128 {
            None
        } else {
            Some(Frames(wide as i64))
        }
    }

    /// Adds two counts, saturating rather than wrapping on overflow.
    pub fn plus(self, other: Frames) -> (sum: Frames)
        ensures
            sum.0 == clamp_i64(self.0 + other.0),
    {
        Frames(saturating_add_i64(self.0, other.0))
    }

    /// Subtracts two counts, saturating rather than wrapping on overflow.
    pub fn minus(self, other: Frames) -> (difference: Frames)
        ensures
            difference.0 == clamp_i64(self.0 - other.0),
    {
        Frames(saturating_sub_i64(self.0, other.0))
    }

    /// Negates the count, saturating at `i64::MAX` for `i64::MIN`.
    pub fn negated(self) -> (negation: Frames)
        ensures
            negation.0 == clamp_i64(-self.0),
    {
        Frames(saturating_sub_i64(0, self.0))
    }

    /// The count as a person reads it: `<n> frames`.
    pub fn to_text(self) -> (text: String)
        ensures
            text@ == frames_text(self.0 as int),
    {
        let mut text = String::new();
        push_decimal(&mut text, self.0 as i128);
        push_str(&mut text, " frames");
        text
    }
}

/// How a count of frames reads.
pub open spec fn frames_text(frames: int) -> Seq<char> {
    decimal(frames) + " frames"@
}

impl core::ops::Add for Frames {
    type Output = Frames;

    fn add(self, other: Frames) -> (sum: Frames)
    {
        self.plus(other)
    }
}

impl core::ops::Sub for Frames {
    type Output = Frames;

    fn sub(self, other: Frames) -> (difference: Frames)
    {
        self.minus(other)
    }
}

impl core::ops::Neg for Frames {
    type Output = Frames;

    fn neg(self) -> (negation: Frames)
    {
        self.negated()
    }
}

impl vstd::std_specs::ops::AddSpecImpl for Frames {
    open spec fn obeys_add_spec() -> bool {
        true
    }

    open spec fn add_req(self, other: Frames) -> bool {
        true
    }

    open spec fn add_spec(self, other: Frames) -> Frames {
        Frames(clamp_i64(self.0 + other.0) as i64)
    }
}

impl vstd::std_specs::ops::SubSpecImpl for Frames {
    open spec fn obeys_sub_spec() -> bool {
        true
    }

    open spec fn sub_req(self, other: Frames) -> bool {
        true
    }

    open spec fn sub_spec(self, other: Frames) -> Frames {
        Frames(clamp_i64(self.0 - other.0) as i64)
    }
}

impl vstd::std_specs::ops::NegSpecImpl for Frames {
    open spec fn obeys_neg_spec() -> bool {
        true
    }

    open spec fn neg_req(self) -> bool {
        true
    }

    open spec fn neg_spec(self) -> Frames {
        Frames(clamp_i64(-self.0) as i64)
    }
}

impl From<i64> for Frames {
    fn from(frames: i64) -> (result: Frames) {
        Frames(frames)
    }
}

impl From<u32> for Frames {
    fn from(frames: u32) -> (result: Frames) {
        Frames(frames as i64)
    }
}


impl vstd::std_specs::convert::FromSpecImpl<i64> for Frames {
    open spec fn obeys_from_spec() -> bool {
        true
    }

    open spec fn from_spec(frames: i64) -> Frames {
        Frames(frames)
    }
}

impl vstd::std_specs::convert::FromSpecImpl<u32> for Frames {
    open spec fn obeys_from_spec() -> bool {
        true
    }

    open spec fn from_spec(frames: u32) -> Frames {
        Frames(frames as i64)
    }
}

} // verus!
