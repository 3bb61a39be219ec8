//! Mapping of raw scalar samples onto 8-bit channel values.

use vstd::prelude::*;
use crate::fixed::ONE;

verus! {

/// The channel value of a raw sample `v` (a fixed-point number): the value
/// `(v + 1.0) * 0.5 * 255.0`, rounded to the nearest integer (a tie goes up)
/// and then clamped to `0..=255`.
pub open spec fn normalized(raw: int) -> int {
    // With `1.0` as 2^32: ((raw + 2^32) * 255 + 2^32) / 2^33.
    let t = ((raw + 0x1_0000_0000) * 255 + 0x1_0000_0000) / 0x2_0000_0000;
    if t < 0 {
        0
    } else if t > 255 {
        255
    } else {
        t
    }
}

/// Every channel value lies in `0..=255`, samples at or beyond `1.0` give
/// 255 and samples at or below `-1.0` give 0: a sample outside the
/// conventional range is clamped, never wrapped.
pub proof fn lemma_normalized_clamps(raw: int)
    ensures
        0 <= normalized(raw) <= 255,
        raw >= ONE as int ==> normalized(raw) == 255,
        raw <= -(ONE as int) ==> normalized(raw) == 0,
{
    let one: int = 0x1_0000_0000;
    let n: int = (raw + one) * 255 + one;
    let t: int = n / (2 * one);
    if raw >= one {
        assert(n >= 255 * (2 * one));
        assert(t >= 255) by (nonlinear_arith)
            requires
                n >= 255 * (2 * one),
                t == n / (2 * one),
                one == 0x1_0000_0000,
        ;
    }
    if raw <= -one {
        assert(n <= one);
        assert(t <= 0) by (nonlinear_arith)
            requires
                n <= one,
                t == n / (2 * one),
                one == 0x1_0000_0000,
        ;
    }
}

/// Maps a raw sample onto a channel value, clamping before narrowing.
pub fn normalize_to_byte(raw: i64) -> (b: u8)
    ensures
        b as int == normalized(raw as int),
        raw >= ONE ==> b == 255,
        raw <= -ONE ==> b == 0,
{
    proof {
        lemma_normalized_clamps(raw as int);
    }
    if raw <= -ONE {
        0
    } else if raw >= ONE {
        255
    } else {
        let shifted: u64 = (raw + ONE) as u64;
        let t: u64 = (shifted * 255 + 0x1_0000_0000u64) / 0x2_0000_0000u64;
        assert(t <= 255) by (nonlinear_arith)
            requires
                t == (shifted * 255 + 0x1_0000_0000) / 0x2_0000_0000,
                shifted < 0x2_0000_0000,
        ;
        t as u8
    }
}

} // verus!
