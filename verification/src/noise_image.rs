//! The two noise modes: a table of raw samples becomes an RGB buffer.
//!
//! The samples are read from the noise field by the caller, in row-major
//! pixel order. The grayscale mode takes one sample per pixel. The fractal
//! mode takes, for each pixel, the octave samples of its red, green and blue
//! field one after the other: sample number
//! `(pixel * 3 + channel) * OCTAVES + octave`.

use vstd::prelude::*;
use crate::fbm::{fbm, fbm_total, GAIN, OCTAVES};
use crate::normalize::{lemma_normalized_clamps, normalize_to_byte, normalized};
use crate::raster::{buffer_len, pixel_count, GenerationError};

verus! {

/// The grayscale image of a table of samples: every pixel carries the
/// channel value of its sample three times.
pub open spec fn grayscale_pixels(samples: Seq<i64>) -> Seq<u8> {
    Seq::new(3 * samples.len(), |k: int| normalized(samples[k / 3] as int) as u8)
}

/// The octave samples of byte `k` of a fractal image.
pub open spec fn octave_samples(samples: Seq<i64>, k: int) -> Seq<i64> {
    samples.subrange(k * OCTAVES as int, (k + 1) * OCTAVES as int)
}

/// The fractal image of a table of octave samples: every byte is the channel
/// value of the composition of its octaves.
pub open spec fn fractal_pixels(samples: Seq<i64>) -> Seq<u8> {
    Seq::new(
        samples.len() / (OCTAVES as nat),
        |k: int| normalized(fbm_total(octave_samples(samples, k), GAIN as int)) as u8,
    )
}

/// What the grayscale mode owes for a request: the image of the table where
/// the dimensions are positive and the table holds one sample per pixel, and
/// otherwise the failure that names the first thing wrong.
pub open spec fn simplex_noise_outcome(width: usize, height: usize, samples: Seq<i64>) -> Result<
    Seq<u8>,
    GenerationError,
> {
    if width == 0 || height == 0 {
        Err(GenerationError::InvalidDimensions)
    } else if samples.len() != width * height {
        Err(GenerationError::SampleCountMismatch)
    } else {
        Ok(grayscale_pixels(samples))
    }
}

/// What the fractal mode owes for a request: as for the grayscale mode, with
/// `3 * OCTAVES` samples per pixel.
pub open spec fn colorful_fbm_outcome(width: usize, height: usize, samples: Seq<i64>) -> Result<
    Seq<u8>,
    GenerationError,
> {
    if width == 0 || height == 0 {
        Err(GenerationError::InvalidDimensions)
    } else if samples.len() != width * height * 3 * OCTAVES {
        Err(GenerationError::SampleCountMismatch)
    } else {
        Ok(fractal_pixels(samples))
    }
}

/// Tells whether a returned value is the outcome that was owed.
pub open spec fn is_outcome(r: Result<Vec<u8>, GenerationError>, owed: Result<Seq<u8>, GenerationError>) -> bool {
    match (r, owed) {
        (Ok(buf), Ok(pixels)) => buf@ == pixels,
        (Err(e), Err(f)) => e == f,
        _ => false,
    }
}

/// A grayscale image has three bytes per sample, and the three bytes of a
/// pixel are equal to one another.
pub proof fn lemma_grayscale_channels_equal(samples: Seq<i64>, pixel: int)
    requires
        0 <= pixel < samples.len(),
    ensures
        grayscale_pixels(samples).len() == 3 * samples.len(),
        grayscale_pixels(samples)[3 * pixel] == grayscale_pixels(samples)[3 * pixel + 1],
        grayscale_pixels(samples)[3 * pixel] == grayscale_pixels(samples)[3 * pixel + 2],
        grayscale_pixels(samples)[3 * pixel] as int == normalized(samples[pixel] as int),
{
    lemma_normalized_clamps(samples[pixel] as int);
    assert((3 * pixel) / 3 == pixel);
    assert((3 * pixel + 1) / 3 == pixel);
    assert((3 * pixel + 2) / 3 == pixel);
}

/// The buffer of a successful request of either noise mode has exactly
/// `width * height * 3` bytes.
pub proof fn lemma_noise_buffer_length(width: usize, height: usize, samples: Seq<i64>)
    ensures
        simplex_noise_outcome(width, height, samples) matches Ok(pixels) ==> pixels.len()
            == buffer_len(width as int, height as int),
        colorful_fbm_outcome(width, height, samples) matches Ok(pixels) ==> pixels.len()
            == buffer_len(width as int, height as int),
{
    if colorful_fbm_outcome(width, height, samples) is Ok {
        let bytes: int = width * height * 3;
        assert(samples.len() == bytes * 4);
        assert((bytes * 4) / 4 == bytes);
    }
}

/// Two answers to one request of a noise mode are the same, byte for byte:
/// the outcome depends on nothing but the dimensions and the samples.
pub proof fn lemma_noise_deterministic(
    width: usize,
    height: usize,
    samples: Seq<i64>,
    first: Result<Vec<u8>, GenerationError>,
    second: Result<Vec<u8>, GenerationError>,
)
    requires
        is_outcome(first, simplex_noise_outcome(width, height, samples)) && is_outcome(
            second,
            simplex_noise_outcome(width, height, samples),
        ) || is_outcome(first, colorful_fbm_outcome(width, height, samples)) && is_outcome(
            second,
            colorful_fbm_outcome(width, height, samples),
        ),
    ensures
        first is Ok <==> second is Ok,
        first is Ok ==> first->Ok_0@ == second->Ok_0@,
        first is Err ==> first->Err_0 == second->Err_0,
{
}

/// Writes the grayscale image of a table of samples.
fn grayscale_buffer(samples: &[i64]) -> (buf: Vec<u8>)
    ensures
        buf@ == grayscale_pixels(samples@),
{
    let count: usize = samples.len();
    let mut buf: Vec<u8> = Vec::new();
    let mut p: usize = 0;
    while p < count
        invariant
            count == samples@.len(),
            p <= count,
            buf@.len() == 3 * p,
            forall|q: int|
                0 <= q < p ==> buf@[3 * q] as int == normalized(#[trigger] samples@[q] as int)
                    && buf@[3 * q + 1] == buf@[3 * q] && buf@[3 * q + 2] == buf@[3 * q],
        decreases count - p,
    {
        let byte: u8 = normalize_to_byte(samples[p]);
        buf.push(byte);
        buf.push(byte);
        buf.push(byte);
        p = p + 1;
    }
    proof {
        assert forall|k: int| 0 <= k < 3 * count implies buf@[k] == grayscale_pixels(samples@)[k] by {
            let q: int = k / 3;
            assert(0 <= q < count && 3 * q <= k < 3 * q + 3);
            assert(buf@[3 * q] as int == normalized(samples@[q] as int));
        }
        assert(buf@ =~= grayscale_pixels(samples@));
    }
    buf
}

/// Renders single-channel noise as a grayscale RGB image.
///
/// `samples` holds one raw sample per pixel, row by row. The request fails
/// with `InvalidDimensions` where a dimension is zero, and with
/// `SampleCountMismatch` where the table does not hold `width * height`
/// samples; otherwise every pixel gets the channel value of its sample in
/// all three bytes.
pub fn simplex_noise_rgb(width: usize, height: usize, samples: &[i64]) -> (r: Result<
    Vec<u8>,
    GenerationError,
>)
    ensures
        is_outcome(r, simplex_noise_outcome(width, height, samples@)),
        r matches Ok(buf) ==> buf@.len() == buffer_len(width as int, height as int),
        r matches Ok(buf) ==> forall|p: int|
            0 <= p < samples@.len() ==> buf@[3 * p] as int == normalized(
                #[trigger] samples@[p] as int,
            ) && buf@[3 * p + 1] == buf@[3 * p] && buf@[3 * p + 2] == buf@[3 * p],
{
    if width == 0 || height == 0 {
        return Err(GenerationError::InvalidDimensions);
    }
    let count: usize = samples.len();
    match pixel_count(width, height) {
        Some(n) => {
            if n != count {
                return Err(GenerationError::SampleCountMismatch);
            }
        },
        None => {
            return Err(GenerationError::SampleCountMismatch);
        },
    }
    let buf: Vec<u8> = grayscale_buffer(samples);
    proof {
        assert(buf@.len() == 3 * count);
        assert forall|q: int| 0 <= q < samples@.len() implies buf@[3 * q] as int == normalized(
            #[trigger] samples@[q] as int,
        ) && buf@[3 * q + 1] == buf@[3 * q] && buf@[3 * q + 2] == buf@[3 * q] by {
            lemma_grayscale_channels_equal(samples@, q);
        }
    }
    Ok(buf)
}

/// Renders three-channel fractal noise as an RGB image.
///
/// `samples` holds, pixel by pixel and row by row, the `OCTAVES` samples of
/// the red field, then those of the green and of the blue one. The request
/// fails with `InvalidDimensions` where a dimension is zero, and with
/// `SampleCountMismatch` where the table does not hold
/// `width * height * 3 * OCTAVES` samples; otherwise every byte is the
/// channel value of the composition of its octaves with the engine's gain.
pub fn colorful_fbm_noise(width: usize, height: usize, samples: &[i64]) -> (r: Result<
    Vec<u8>,
    GenerationError,
>)
    ensures
        is_outcome(r, colorful_fbm_outcome(width, height, samples@)),
        r matches Ok(buf) ==> buf@.len() == buffer_len(width as int, height as int),
        r matches Ok(buf) ==> forall|k: int|
            0 <= k < buf@.len() ==> #[trigger] buf@[k] as int == normalized(
                fbm_total(octave_samples(samples@, k), GAIN as int),
            ),
{
    if width == 0 || height == 0 {
        return Err(GenerationError::InvalidDimensions);
    }
    let count: usize = samples.len();
    let pixels: usize = match pixel_count(width, height) {
        Some(n) => n,
        None => {
            return Err(GenerationError::SampleCountMismatch);
        },
    };
    let bytes: usize = match pixels.checked_mul(3) {
        Some(n) => n,
        None => {
            return Err(GenerationError::SampleCountMismatch);
        },
    };
    match bytes.checked_mul(OCTAVES) {
        Some(n) => {
            if n != count {
                return Err(GenerationError::SampleCountMismatch);
            }
        },
        None => {
            return Err(GenerationError::SampleCountMismatch);
        },
    }
    assert(count == bytes * 4);
    assert((bytes * 4) / 4 == bytes);
    let mut buf: Vec<u8> = Vec::new();
    let mut k: usize = 0;
    while k < bytes
        invariant
            count == samples@.len(),
            count == bytes * 4,
            k <= bytes,
            buf@.len() == k,
            forall|j: int|
                0 <= j < k ==> #[trigger] buf@[j] as int == normalized(
                    fbm_total(octave_samples(samples@, j), GAIN as int),
                ),
        decreases bytes - k,
    {
        let from: usize = k * OCTAVES;
        let octaves: &[i64] = &samples[from..from + OCTAVES];
        let total: i64 = fbm(octaves, GAIN);
        let byte: u8 = normalize_to_byte(total);
        buf.push(byte);
        k = k + 1;
    }
    proof {
        assert forall|j: int| 0 <= j < bytes implies buf@[j] == fractal_pixels(samples@)[j] by {
            lemma_normalized_clamps(fbm_total(octave_samples(samples@, j), GAIN as int));
        }
        assert(buf@ =~= fractal_pixels(samples@));
    }
    Ok(buf)
}

} // verus!
