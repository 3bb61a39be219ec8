//! Signed fixed-point numbers with 32 fractional bits.
//!
//! A raw value `r` of type `i64` stands for the real number `r / 2^32`.
//! Products are rounded to the nearest representable value and every
//! operation saturates at the ends of the `i64` range instead of wrapping.

use vstd::prelude::*;

verus! {

/// The raw value that stands for `1.0`.
pub const ONE: i64 = 0x1_0000_0000;

/// The raw value that stands for `0.5`.
pub const HALF: i64 = 0x8000_0000;

/// The nearest value to `v` that an `i64` can hold.
pub open spec fn saturate(v: int) -> int {
    if v < i64::MIN as int {
        i64::MIN as int
    } else if v > i64::MAX as int {
        i64::MAX as int
    } else {
        v
    }
}

/// The saturated sum of two raw values.
pub open spec fn fx_add_spec(a: int, b: int) -> int {
    saturate(a + b)
}

/// The product of two fixed-point numbers as a raw value: the exact product
/// `a * b / 2^32`, rounded to the nearest integer (a tie goes up), then
/// saturated.
pub open spec fn fx_mul_spec(a: int, b: int) -> int {
    // With `1.0` as 2^32 and `0.5` as 2^31.
    saturate((a * b + 0x8000_0000) / 0x1_0000_0000)
}

/// `base` raised to the power `exp` by repeated fixed-point multiplication,
/// starting from `1.0`.
pub open spec fn fx_pow_spec(base: int, exp: nat) -> int
    decreases exp,
{
    if exp == 0 {
        0x1_0000_0000
    } else {
        fx_mul_spec(fx_pow_spec(base, (exp - 1) as nat), base)
    }
}

/// Adds two raw values, saturating at the ends of the range.
pub fn fx_add(a: i64, b: i64) -> (r: i64)
    ensures
        r as int == fx_add_spec(a as int, b as int),
{
    let wide: i128 = a as i128 + b as i128;
    clamp_to_raw(wide)
}

/// Brings a wide intermediate result back into the `i64` range.
fn clamp_to_raw(wide: i128) -> (r: i64)
    ensures
        r as int == saturate(wide as int),
{
    if wide < i64::MIN as i128 {
        i64::MIN
    } else if wide > i64::MAX as i128 {
        i64::MAX
    } else {
        wide as i64
    }
}

/// Floor division of a wide value by `2^32`.
fn floor_div_one(wide: i128) -> (q: i128)
    requires
        wide > i128::MIN,
    ensures
        q as int == (wide as int) / (ONE as int),
{
    if wide >= 0 {
        let n: u128 = wide as u128;
        let q: u128 = n / 0x1_0000_0000u128;
        q as i128
    } else {
        // For a negative numerator the floor is minus the ceiling of the
        // magnitude.
        let m: u128 = (-wide) as u128;
        let c: u128 = (m + 0xffff_ffffu128) / 0x1_0000_0000u128;
        proof {
            let mi: int = m as int;
            let ci: int = c as int;
            assert(ci * 0x1_0000_0000 <= mi + 0xffff_ffff);
            assert(mi + 0xffff_ffff < (ci + 1) * 0x1_0000_0000) by (nonlinear_arith)
                requires
                    ci == (mi + 0xffff_ffff) / 0x1_0000_0000,
            ;
            // -ci * 2^32 <= wide < (-ci + 1) * 2^32
            vstd::arithmetic::div_mod::lemma_fundamental_div_mod_converse(
                wide as int,
                0x1_0000_0000,
                -ci,
                wide as int + ci * 0x1_0000_0000,
            );
        }
        -(c as i128)
    }
}

/// Multiplies two fixed-point numbers, rounding to nearest and saturating.
pub fn fx_mul(a: i64, b: i64) -> (r: i64)
    ensures
        r as int == fx_mul_spec(a as int, b as int),
{
    assert(-0x4000_0000_0000_0000_0000_0000_0000_0000 <= (a as int) * (b as int)
        <= 0x4000_0000_0000_0000_0000_0000_0000_0000) by (nonlinear_arith)
        requires
            -0x8000_0000_0000_0000 <= a as int <= 0x7fff_ffff_ffff_ffff,
            -0x8000_0000_0000_0000 <= b as int <= 0x7fff_ffff_ffff_ffff,
    ;
    let product: i128 = (a as i128) * (b as i128);
    let rounded: i128 = floor_div_one(product + 0x8000_0000i128);
    clamp_to_raw(rounded)
}

/// Raises `base` to the power `exp` by repeated multiplication from `1.0`.
pub fn fx_pow(base: i64, exp: usize) -> (r: i64)
    ensures
        r as int == fx_pow_spec(base as int, exp as nat),
{
    let mut r: i64 = ONE;
    let mut i: usize = 0;
    while i < exp
        invariant
            i <= exp,
            r as int == fx_pow_spec(base as int, i as nat),
        decreases exp - i,
    {
        r = fx_mul(r, base);
        i = i + 1;
    }
    r
}

} // verus!
