//! Fractal composition: octaves of a noise field, each at a higher frequency
//! and a lower amplitude than the one before, summed into one scalar.
//!
//! The noise field itself is sampled by the caller. For octave `i` the field
//! is read at `(x * f, y * f)` with `f = octave_frequency(i, lacunarity)`;
//! the samples, in ascending octave order, are then composed by [`fbm`].

use vstd::prelude::*;
use crate::fixed::{fx_add, fx_add_spec, fx_mul, fx_mul_spec, fx_pow, fx_pow_spec, ONE};

verus! {

/// Number of octaves of the engine's fractal mode.
pub const OCTAVES: usize = 4;

/// Frequency multiplier between two octaves of the engine's fractal mode
/// (`2.0`).
pub const LACUNARITY: i64 = 0x2_0000_0000;

/// Amplitude multiplier between two octaves of the engine's fractal mode
/// (`0.5`).
pub const GAIN: i64 = 0x8000_0000;

/// The frequency of octave `octave`: `1.0` for the first one, multiplied by
/// `lacunarity` from each octave to the next.
pub open spec fn octave_frequency_spec(octave: nat, lacunarity: int) -> int {
    fx_pow_spec(lacunarity, octave)
}

/// The amplitude of octave `octave`: `1.0` for the first one, multiplied by
/// `gain` from each octave to the next.
pub open spec fn octave_amplitude_spec(octave: nat, gain: int) -> int {
    fx_pow_spec(gain, octave)
}

/// The sum of the first `samples.len()` octaves: each sample weighted by the
/// amplitude of its octave, accumulated in ascending octave order.
pub open spec fn fbm_total(samples: Seq<i64>, gain: int) -> int
    decreases samples.len(),
{
    if samples.len() == 0 {
        0
    } else {
        let last = (samples.len() - 1) as nat;
        fx_add_spec(
            fbm_total(samples.drop_last(), gain),
            fx_mul_spec(samples[last as int] as int, octave_amplitude_spec(last, gain)),
        )
    }
}

/// The seeds of the red, green and blue noise fields that belong to one
/// caller-given seed: the seed itself and its two successors, wrapping
/// around at the end of the range.
pub open spec fn channel_seeds_spec(seed: u32) -> Seq<u32> {
    seq![seed, ((seed + 1) % 0x1_0000_0000) as u32, ((seed + 2) % 0x1_0000_0000) as u32]
}

/// Derives the seeds of the three colour channels from one seed.
pub fn channel_seeds(seed: u32) -> (seeds: [u32; 3])
    ensures
        seeds@ == channel_seeds_spec(seed),
{
    let seeds: [u32; 3] = [seed, seed.wrapping_add(1), seed.wrapping_add(2)];
    assert(seeds@ =~= channel_seeds_spec(seed));
    seeds
}

/// The frequency at which octave `octave` reads the noise field.
pub fn octave_frequency(octave: usize, lacunarity: i64) -> (f: i64)
    ensures
        f as int == octave_frequency_spec(octave as nat, lacunarity as int),
{
    fx_pow(lacunarity, octave)
}

/// Composes the samples of successive octaves into one scalar. No octave at
/// all gives zero.
pub fn fbm(samples: &[i64], gain: i64) -> (total: i64)
    ensures
        total as int == fbm_total(samples@, gain as int),
        samples@.len() == 0 ==> total == 0,
{
    let mut total: i64 = 0;
    let mut amplitude: i64 = ONE;
    let mut i: usize = 0;
    while i < samples.len()
        invariant
            i <= samples@.len(),
            total as int == fbm_total(samples@.take(i as int), gain as int),
            amplitude as int == octave_amplitude_spec(i as nat, gain as int),
        decreases samples@.len() - i,
    {
        proof {
            let next = samples@.take(i as int + 1);
            assert(next.drop_last() =~= samples@.take(i as int));
            assert(next[i as int] == samples@[i as int]);
        }
        total = fx_add(total, fx_mul(samples[i], amplitude));
        amplitude = fx_mul(amplitude, gain);
        i = i + 1;
    }
    proof {
        assert(samples@.take(samples@.len() as int) =~= samples@);
    }
    total
}

} // verus!
