use node_helpers::fbm::{channel_seeds, fbm, octave_frequency, GAIN, LACUNARITY, OCTAVES};
use node_helpers::fixed::{fx_add, fx_mul, fx_pow, HALF, ONE};
use node_helpers::normalize::normalize_to_byte;

#[test]
fn one_is_two_to_the_thirty_two() {
    assert_eq!(ONE, 1i64 << 32);
    assert_eq!(HALF * 2, ONE);
}

#[test]
fn product_of_simple_values_is_exact() {
    assert_eq!(fx_mul(ONE, ONE), ONE);
    assert_eq!(fx_mul(HALF, HALF), ONE / 4);
    assert_eq!(fx_mul(3 * ONE, -2 * ONE), -6 * ONE);
    assert_eq!(fx_mul(0, i64::MAX), 0);
}

#[test]
fn product_rounds_to_nearest_with_ties_up() {
    // 1 * 0.5 raw units is half a unit: the tie goes up.
    assert_eq!(fx_mul(1, HALF), 1);
    assert_eq!(fx_mul(-1, HALF), 0);
    assert_eq!(fx_mul(1, HALF - 1), 0);
    assert_eq!(fx_mul(-3, HALF), -1);
    assert_eq!(fx_mul(-1, HALF + 1), -1);
}

#[test]
fn product_saturates_at_both_ends() {
    assert_eq!(fx_mul(i64::MAX, i64::MAX), i64::MAX);
    assert_eq!(fx_mul(i64::MIN, i64::MIN), i64::MAX);
    assert_eq!(fx_mul(i64::MIN, i64::MAX), i64::MIN);
}

#[test]
fn sum_saturates_at_both_ends() {
    assert_eq!(fx_add(ONE, HALF), ONE + HALF);
    assert_eq!(fx_add(i64::MAX, 1), i64::MAX);
    assert_eq!(fx_add(i64::MIN, -1), i64::MIN);
    assert_eq!(fx_add(i64::MAX, i64::MIN), -1);
}

#[test]
fn power_multiplies_from_one() {
    assert_eq!(fx_pow(LACUNARITY, 0), ONE);
    assert_eq!(fx_pow(LACUNARITY, 3), 8 * ONE);
    assert_eq!(fx_pow(GAIN, 3), ONE / 8);
    assert_eq!(fx_pow(LACUNARITY, 40), i64::MAX);
    assert_eq!(fx_pow(0, 0), ONE);
    assert_eq!(fx_pow(0, 2), 0);
}

#[test]
fn octave_frequencies_double() {
    let f: Vec<i64> = (0..OCTAVES).map(|o| octave_frequency(o, LACUNARITY)).collect();
    assert_eq!(f, vec![ONE, 2 * ONE, 4 * ONE, 8 * ONE]);
}

#[test]
fn engine_constants() {
    assert_eq!(OCTAVES, 4);
    assert_eq!(LACUNARITY, 2 * ONE);
    assert_eq!(GAIN, ONE / 2);
}

#[test]
fn channel_seeds_are_successors() {
    assert_eq!(channel_seeds(7), [7, 8, 9]);
    assert_eq!(channel_seeds(0), [0, 1, 2]);
}

#[test]
fn channel_seeds_wrap_around() {
    assert_eq!(channel_seeds(u32::MAX), [u32::MAX, 0, 1]);
    assert_eq!(channel_seeds(u32::MAX - 1), [u32::MAX - 1, u32::MAX, 0]);
}

#[test]
fn fbm_of_no_octave_is_zero() {
    assert_eq!(fbm(&[], GAIN), 0);
    assert_eq!(fbm(&[], 5 * ONE), 0);
}

#[test]
fn fbm_weights_octaves_by_falling_amplitude() {
    // 1 * 0.8 + 0.5 * -0.4 + 0.25 * 0.2 + 0.125 * 1.0, in eighths of a unit.
    let eighth = ONE / 8;
    let samples = [8 * eighth, -4 * eighth, 2 * eighth, 8 * eighth];
    assert_eq!(fbm(&samples, GAIN), 8 * eighth - 2 * eighth + eighth / 2 + eighth);
    assert_eq!(fbm(&samples[..1], GAIN), ONE);
    assert_eq!(fbm(&[ONE, ONE], 3 * ONE), 4 * ONE);
}

#[test]
fn fbm_sum_can_leave_the_unit_range() {
    let total = fbm(&[ONE, ONE, ONE, ONE], GAIN);
    assert_eq!(total, ONE + HALF + ONE / 4 + ONE / 8);
    assert!(total > ONE);
    assert_eq!(normalize_to_byte(total), 255);
    let low = fbm(&[-ONE, -ONE, -ONE, -ONE], GAIN);
    assert!(low < -ONE);
    assert_eq!(normalize_to_byte(low), 0);
}

#[test]
fn normalization_of_chosen_values() {
    assert_eq!(normalize_to_byte(-ONE), 0);
    assert_eq!(normalize_to_byte(ONE), 255);
    // (0 + 1) * 127.5 = 127.5, and the tie goes up.
    assert_eq!(normalize_to_byte(0), 128);
    assert_eq!(normalize_to_byte(-1), 127);
    // 1.5 * 127.5 = 191.25 and 0.5 * 127.5 = 63.75.
    assert_eq!(normalize_to_byte(HALF), 191);
    assert_eq!(normalize_to_byte(-HALF), 64);
}

#[test]
fn normalization_clamps_instead_of_wrapping() {
    assert_eq!(normalize_to_byte(ONE + 1), 255);
    assert_eq!(normalize_to_byte(3 * ONE), 255);
    assert_eq!(normalize_to_byte(i64::MAX), 255);
    assert_eq!(normalize_to_byte(-ONE - 1), 0);
    assert_eq!(normalize_to_byte(-3 * ONE), 0);
    assert_eq!(normalize_to_byte(i64::MIN), 0);
}

#[test]
fn normalization_never_decreases() {
    let mut last = 0u8;
    let step = ONE / 512;
    let mut raw = -2 * ONE;
    while raw <= 2 * ONE {
        let b = normalize_to_byte(raw);
        assert!(b >= last);
        last = b;
        raw += step;
    }
    assert_eq!(last, 255);
}
