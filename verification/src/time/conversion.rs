//! Exact integer conversion between sample frames and musical ticks.
//!
//! Every conversion uses 128-bit intermediates and rounds to nearest, so the
//! results are bit-identical on every platform.

use vstd::prelude::*;

use crate::time::frames::clamp_i64;
use crate::time::sample_rate::{is_supported_rate, SampleRate};
use crate::time::tempo::{is_supported_tempo, Tempo};

verus! {

/// Microseconds in a second.
pub const MICROS_PER_SECOND: i128 = 1_000_000;

/// Division truncating towards zero, as Rust's `/` on integers does.
pub open spec fn trunc_div(a: int, b: int) -> int {
    if b == 0 {
        0
    } else {
        let a_abs = if a < 0 { -a } else { a };
        let b_abs = if b < 0 { -b } else { b };
        if (a >= 0) == (b > 0) {
            a_abs / b_abs
        } else {
            -(a_abs / b_abs)
        }
    }
}

/// Division rounding to the nearest integer, ties away from zero; zero for a
/// zero denominator. Exactly `(n ± d/2) / d` in truncating arithmetic.
pub open spec fn round_div(numerator: int, denominator: int) -> int {
    if denominator == 0 {
        0
    } else if numerator >= 0 {
        trunc_div(numerator + trunc_div(denominator, 2), denominator)
    } else {
        trunc_div(numerator - trunc_div(denominator, 2), denominator)
    }
}

/// The frames-to-ticks ratio's numerator and denominator, applied to a span.
pub open spec fn spec_ticks_from_frames(frames: int, hz: int, micros: int) -> int {
    clamp_i64(round_div(frames * MICROS_PER_SECOND * 3840, hz * micros))
}

/// The ticks-to-frames conversion of a span.
pub open spec fn spec_frames_from_ticks(ticks: int, hz: int, micros: int) -> int {
    clamp_i64(round_div(ticks * hz * micros, MICROS_PER_SECOND * 3840))
}

/// The largest magnitude the rounding division accepts.
pub open spec fn division_bound() -> int {
    0x2000_0000_0000_0000_0000_0000_0000_0000
}

/// A 128-bit value's magnitude, which always fits in 128 unsigned bits.
fn magnitude(a: i128) -> (m: u128)
    ensures
        m == (if a < 0 { -(a as int) } else { a as int }),
{
    if a < 0 {
        ((-(a + 1)) as u128) + 1
    } else {
        a as u128
    }
}

/// Rust's truncating division, over every pair of 128-bit values whose
/// quotient is one: anything but a zero divisor, or the smallest value
/// divided by minus one.
fn trunc_div_exec(a: i128, b: i128) -> (q: i128)
    requires
        b != 0,
        !(a == i128::MIN && b == -1),
    ensures
        q == trunc_div(a as int, b as int),
{
    let a_abs = magnitude(a);
    let b_abs = magnitude(b);
    let q = a_abs / b_abs;
    proof {
        vstd::arithmetic::div_mod::lemma_div_is_ordered_by_denominator(a_abs as int, 1, b_abs as int);
        if b_abs == 1 {
            assert(q == a_abs) by {
                vstd::arithmetic::div_mod::lemma_div_by_multiple(a_abs as int, 1);
            }
        } else {
            vstd::arithmetic::div_mod::lemma_div_is_ordered_by_denominator(a_abs as int, 2, b_abs as int);
            vstd::arithmetic::div_mod::lemma_div_multiples_vanish(a_abs as int / 2, 2);
            vstd::arithmetic::div_mod::lemma_fundamental_div_mod(a_abs as int, 2);
        }
    }
    if (a >= 0) == (b > 0) {
        q as i128
    } else if q == 0 {
        0
    } else {
        -((q - 1) as i128) - 1
    }
}

/// Whether `div_round_nearest` can take a pair: the numerator moved half the
/// denominator away from zero stays a 128-bit value, and the division of that
/// by the denominator has a 128-bit quotient.
pub open spec fn rounding_fits(numerator: int, denominator: int) -> bool {
    let biased = if numerator >= 0 {
        numerator + trunc_div(denominator, 2)
    } else {
        numerator - trunc_div(denominator, 2)
    };
    denominator == 0 || (i128::MIN <= biased <= i128::MAX && !(biased == i128::MIN && denominator == -1))
}

/// Divides, rounding to the nearest value and away from zero on a tie.
///
/// Rounding to nearest rather than truncating halves the worst-case error and
/// makes the conversion symmetric about zero. A zero denominator gives zero.
/// Defined wherever moving the numerator half the denominator away from zero
/// does not overflow.
pub fn div_round_nearest(numerator: i128, denominator: i128) -> (q: i128)
    requires
        rounding_fits(numerator as int, denominator as int),
    ensures
        q == round_div(numerator as int, denominator as int),
{
    if denominator == 0 {
        return 0;
    }
    let half = trunc_div_exec(denominator, 2);
    if numerator >= 0 {
        trunc_div_exec(numerator + half, denominator)
    } else {
        trunc_div_exec(numerator - half, denominator)
    }
}

/// Within the bound every conversion keeps to, rounding always fits.
pub proof fn lemma_rounding_fits_within_bound(numerator: int, denominator: int)
    requires
        -division_bound() <= numerator <= division_bound(),
        -division_bound() <= denominator <= division_bound(),
    ensures
        rounding_fits(numerator, denominator),
{
}

/// Euclidean division by a positive divisor: the floor of the quotient and a
/// remainder in `0..divisor`, correct for negative dividends.
pub fn div_rem_euclid(dividend: i128, divisor: i128) -> (result: (i128, i128))
    requires
        divisor > 0,
        -division_bound() <= dividend <= division_bound(),
    ensures
        result.0 == dividend as int / divisor as int,
        result.1 == dividend as int % divisor as int,
        0 <= result.1 < divisor,
        result.0 * divisor + result.1 == dividend,
{
    if dividend >= 0 {
        let q = dividend / divisor;
        let r = dividend % divisor;
        proof {
            vstd::arithmetic::div_mod::lemma_fundamental_div_mod(dividend as int, divisor as int);
            vstd::arithmetic::div_mod::lemma_div_is_ordered_by_denominator(dividend as int, 1, divisor as int);
            assert(q * divisor == divisor * q) by (nonlinear_arith);
        }
        (q, r)
    } else {
        let m = -(dividend + 1);
        let mq = m / divisor;
        let mr = m % divisor;
        proof {
            vstd::arithmetic::div_mod::lemma_fundamental_div_mod(m as int, divisor as int);
            vstd::arithmetic::div_mod::lemma_div_is_ordered_by_denominator(m as int, 1, divisor as int);
            assert(mq * divisor == divisor * mq) by (nonlinear_arith);
            let q = -mq - 1;
            let r = divisor - mr - 1;
            assert(dividend == q * divisor + r) by (nonlinear_arith)
                requires
                    m == -(dividend + 1),
                    m == mq * divisor + mr,
                    q == -mq - 1,
                    r == divisor - mr - 1,
            ;
            vstd::arithmetic::div_mod::lemma_fundamental_div_mod_converse(dividend as int, divisor as int, q, r);
        }
        (-mq - 1, divisor - mr - 1)
    }
}

/// Clamps a 128-bit intermediate into the 64-bit domain type.
pub fn saturate_to_i64(value: i128) -> (clamped: i64)
    ensures
        clamped == clamp_i64(value as int),
{
    crate::time::frames::clamp_i128_to_i64(value)
}

/// Products of a frame or tick count with the conversion factors stay well
/// inside the range the rounding division accepts.
pub proof fn lemma_conversion_products(count: i64, hz: int, micros: int)
    requires
        is_supported_rate(hz),
        is_supported_tempo(micros),
    ensures
        -division_bound() <= count * MICROS_PER_SECOND * 3840 <= division_bound(),
        -division_bound() <= count * hz <= division_bound(),
        -division_bound() <= count * hz * micros <= division_bound(),
        0 < hz * micros <= 768_000 * 3_000_000,
{
    assert(-division_bound() <= count * MICROS_PER_SECOND * 3840 <= division_bound())
        by (nonlinear_arith)
        requires
            -0x8000_0000_0000_0000 <= count <= 0x7fff_ffff_ffff_ffff,
    ;
    assert(0 < hz * micros <= 768_000 * 3_000_000) by (nonlinear_arith)
        requires
            8_000 <= hz <= 768_000,
            60_060 <= micros <= 3_000_000,
    ;
    assert(-division_bound() <= count * hz <= division_bound()) by (nonlinear_arith)
        requires
            -0x8000_0000_0000_0000 <= count <= 0x7fff_ffff_ffff_ffff,
            8_000 <= hz <= 768_000,
    ;
    assert(-division_bound() <= count * hz * micros <= division_bound()) by (nonlinear_arith)
        requires
            -0x8000_0000_0000_0000 <= count <= 0x7fff_ffff_ffff_ffff,
            0 < hz * micros <= 768_000 * 3_000_000,
    ;
}

/// The same bounds for any span of up to 2^65 frames or ticks, such as the
/// difference of two 64-bit positions.
pub proof fn lemma_wide_conversion_products(count: int, hz: int, micros: int)
    requires
        is_supported_rate(hz),
        is_supported_tempo(micros),
        -0x2_0000_0000_0000_0000 <= count <= 0x2_0000_0000_0000_0000,
    ensures
        -division_bound() <= count * MICROS_PER_SECOND * 3840 <= division_bound(),
        -division_bound() <= count * hz <= division_bound(),
        -division_bound() <= count * hz * micros <= division_bound(),
        0 < hz * micros <= 768_000 * 3_000_000,
{
    assert(-division_bound() <= count * MICROS_PER_SECOND * 3840 <= division_bound())
        by (nonlinear_arith)
        requires
            -0x2_0000_0000_0000_0000 <= count <= 0x2_0000_0000_0000_0000,
    ;
    assert(0 < hz * micros <= 768_000 * 3_000_000) by (nonlinear_arith)
        requires
            8_000 <= hz <= 768_000,
            60_060 <= micros <= 3_000_000,
    ;
    assert(-division_bound() <= count * hz <= division_bound()) by (nonlinear_arith)
        requires
            -0x2_0000_0000_0000_0000 <= count <= 0x2_0000_0000_0000_0000,
            8_000 <= hz <= 768_000,
    ;
    assert(-division_bound() <= count * hz * micros <= division_bound()) by (nonlinear_arith)
        requires
            -0x2_0000_0000_0000_0000 <= count <= 0x2_0000_0000_0000_0000,
            0 < hz * micros <= 768_000 * 3_000_000,
    ;
}

/// Zero divided by any positive divisor rounds to zero.
pub proof fn lemma_round_div_zero(denominator: int)
    requires
        denominator >= 1,
    ensures
        round_div(0, denominator) == 0,
{
    vstd::arithmetic::div_mod::lemma_basic_div(denominator / 2, denominator);
}

/// A rounded quotient is no larger in magnitude than its dividend when the
/// divisor is at least one.
pub proof fn lemma_round_div_bounded(numerator: int, denominator: int)
    requires
        denominator >= 1,
    ensures
        -numerator - 1 <= round_div(numerator, denominator) <= numerator + 1 || numerator < 0,
        numerator < 0 ==> numerator - 1 <= round_div(numerator, denominator) <= 0,
        numerator >= 0 ==> 0 <= round_div(numerator, denominator) <= numerator + 1,
{
    let half = denominator / 2;
    if numerator >= 0 {
        vstd::arithmetic::div_mod::lemma_div_is_ordered_by_denominator(numerator + half, 1, denominator);
        vstd::arithmetic::div_mod::lemma_div_pos_is_pos(numerator + half, denominator);
        assert(numerator + half <= 2 * numerator + 1 || numerator + half < 2 * denominator);
        vstd::arithmetic::div_mod::lemma_fundamental_div_mod(numerator + half, denominator);
        assert(round_div(numerator, denominator) <= numerator + 1) by (nonlinear_arith)
            requires
                numerator >= 0,
                denominator >= 1,
                half == denominator / 2,
                half <= denominator,
                numerator + half == denominator * round_div(numerator, denominator) + (numerator + half) % denominator,
                0 <= (numerator + half) % denominator,
                round_div(numerator, denominator) >= 0,
        ;
    } else {
        let m = -numerator + half;
        vstd::arithmetic::div_mod::lemma_div_pos_is_pos(m, denominator);
        vstd::arithmetic::div_mod::lemma_fundamental_div_mod(m, denominator);
        assert(m / denominator <= -numerator + 1) by (nonlinear_arith)
            requires
                numerator < 0,
                denominator >= 1,
                half == denominator / 2,
                half <= denominator,
                m == -numerator + half,
                m == denominator * (m / denominator) + m % denominator,
                0 <= m % denominator,
                m / denominator >= 0,
        ;
    }
}

/// Converts a span of frames to a span of ticks at a constant tempo.
pub fn ticks_from_frames(frames: i64, rate: SampleRate, tempo: Tempo) -> (ticks: i64)
    ensures
        ticks == spec_ticks_from_frames(
            frames as int,
            rate.spec_hz() as int,
            tempo.spec_micros() as int,
        ),
{
    let hz = rate.hz_u64();
    let micros = tempo.micros_per_beat();
    proof {
        lemma_conversion_products(frames, hz as int, micros as int);
    }
    let numerator = frames as i128 * MICROS_PER_SECOND * 3840;
    let denominator = hz as i128 * micros as i128;
    saturate_to_i64(div_round_nearest(numerator, denominator))
}

/// Converts a span of ticks to a span of frames at a constant tempo.
pub fn frames_from_ticks(ticks: i64, rate: SampleRate, tempo: Tempo) -> (frames: i64)
    ensures
        frames == spec_frames_from_ticks(
            ticks as int,
            rate.spec_hz() as int,
            tempo.spec_micros() as int,
        ),
{
    let hz = rate.hz_u64();
    let micros = tempo.micros_per_beat();
    proof {
        lemma_conversion_products(ticks, hz as int, micros as int);
    }
    let numerator = ticks as i128 * hz as i128 * micros as i128;
    saturate_to_i64(div_round_nearest(numerator, MICROS_PER_SECOND * 3840))
}

/// Rounding to nearest is off by at most half the divisor: twice the
/// remainder it leaves lies within the divisor either way.
pub proof fn lemma_round_div_error(numerator: int, denominator: int)
    requires
        denominator > 0,
    ensures
        -denominator <= 2 * (numerator - round_div(numerator, denominator) * denominator) <= denominator,
{
    let h = denominator / 2;
    assert(trunc_div(denominator, 2) == h);
    vstd::arithmetic::div_mod::lemma_fundamental_div_mod(denominator, 2);
    let m = if numerator >= 0 { numerator } else { -numerator };
    let q = (m + h) / denominator;
    let r = (m + h) % denominator;
    vstd::arithmetic::div_mod::lemma_fundamental_div_mod(m + h, denominator);
    assert(trunc_div(m + h, denominator) == q);
    if numerator >= 0 {
        assert(round_div(numerator, denominator) == q);
    } else {
        assert(trunc_div(numerator - h, denominator) == -q);
        assert(round_div(numerator, denominator) == -q);
    }
    assert(-denominator <= 2 * (m - q * denominator) <= denominator) by (nonlinear_arith)
        requires
            m + h == denominator * q + r,
            0 <= r < denominator,
            denominator == 2 * h + denominator % 2,
            0 <= denominator % 2 < 2,
    ;
    if numerator < 0 {
        assert(numerator - (-q) * denominator == -(m - q * denominator)) by (nonlinear_arith)
            requires
                numerator == -m,
        ;
    }
}

/// A quotient within less than half the divisor of the exact one is the
/// rounded quotient.
pub proof fn lemma_round_div_unique(numerator: int, denominator: int, quotient: int)
    requires
        denominator > 0,
        -denominator < 2 * (numerator - quotient * denominator) < denominator,
    ensures
        round_div(numerator, denominator) == quotient,
{
    lemma_round_div_error(numerator, denominator);
    let rounded = round_div(numerator, denominator);
    assert(rounded == quotient) by (nonlinear_arith)
        requires
            denominator > 0,
            -denominator < 2 * (numerator - quotient * denominator) < denominator,
            -denominator <= 2 * (numerator - rounded * denominator) <= denominator,
    ;
}

/// Frames and ticks round trip: a tick span converted to frames and back is
/// the span again, whenever one tick lasts at least one frame, that is,
/// whenever the sample rate times the beat length in microseconds is at
/// least the microseconds in a second times the ticks in a beat.
pub proof fn lemma_ticks_frames_ticks(ticks: int, hz: int, micros: int)
    requires
        hz * micros >= MICROS_PER_SECOND * 3840,
    ensures
        round_div(round_div(ticks * hz * micros, MICROS_PER_SECOND * 3840) * MICROS_PER_SECOND * 3840, hz * micros)
            == ticks,
{
    let c = MICROS_PER_SECOND * 3840;
    let k = hz * micros;
    let frames = round_div(ticks * k, c);
    assert(ticks * hz * micros == ticks * k) by (nonlinear_arith)
        requires
            k == hz * micros,
    ;
    assert(frames * MICROS_PER_SECOND * 3840 == frames * c) by (nonlinear_arith)
        requires
            c == MICROS_PER_SECOND * 3840,
    ;
    lemma_round_div_error(ticks * k, c);
    assert(-k < 2 * (frames * c - ticks * k) < k) by (nonlinear_arith)
        requires
            -c <= 2 * (ticks * k - frames * c) <= c,
            k >= c,
            c > 0,
    ;
    lemma_round_div_unique(frames * c, k, ticks);
}

} // verus!
