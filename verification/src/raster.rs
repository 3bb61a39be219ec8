//! What all generation modes share: the failures of a request and the
//! layout of a row-major RGB buffer.

use vstd::prelude::*;

verus! {

/// Why a generation request was turned down. A request that fails yields no
/// buffer at all.
#[derive(Debug, Clone, Copy, PartialEq, Eq, Structural)]
pub enum GenerationError {
    /// The width or the height is zero.
    InvalidDimensions,
    /// A Voronoi partition was asked for without any seed point.
    InvalidSeedCount,
    /// The table of samples does not hold what the dimensions call for.
    SampleCountMismatch,
}

/// The length of the buffer of a `width` by `height` image.
pub open spec fn buffer_len(width: int, height: int) -> int {
    width * height * 3
}

/// The offset of the first byte of pixel `(x, y)` in a buffer of the given
/// width: rows from top to bottom, pixels from left to right, three bytes
/// each.
pub open spec fn pixel_offset(width: int, x: int, y: int) -> int {
    (y * width + x) * 3
}

/// Pixels are laid out row by row: pixel `(x, y)` is number `y * width + x`,
/// and the numbers of a `width` by `height` image fill `0..width * height`.
pub proof fn lemma_pixel_number(width: int, height: int, x: int, y: int)
    requires
        0 <= x < width,
        0 <= y < height,
    ensures
        0 <= y * width + x < width * height,
        (y * width + x) % width == x,
        (y * width + x) / width == y,
{
    assert(0 <= y * width) by (nonlinear_arith)
        requires
            0 <= y,
            0 <= width,
    ;
    assert(y * width + x < width * height) by (nonlinear_arith)
        requires
            0 <= x < width,
            0 <= y < height,
    ;
    vstd::arithmetic::div_mod::lemma_fundamental_div_mod_converse(y * width + x, width, y, x);
}

/// Each pixel owns three bytes of the buffer, inside its bounds, and the
/// bytes of two different pixels never overlap.
pub proof fn lemma_pixel_ranges_disjoint(
    width: int,
    height: int,
    x1: int,
    y1: int,
    x2: int,
    y2: int,
)
    requires
        0 <= x1 < width,
        0 <= y1 < height,
        0 <= x2 < width,
        0 <= y2 < height,
        (x1, y1) != (x2, y2),
    ensures
        0 <= pixel_offset(width, x1, y1),
        pixel_offset(width, x1, y1) + 3 <= buffer_len(width, height),
        pixel_offset(width, x1, y1) + 3 <= pixel_offset(width, x2, y2) || pixel_offset(
            width,
            x2,
            y2,
        ) + 3 <= pixel_offset(width, x1, y1),
{
    lemma_pixel_number(width, height, x1, y1);
    lemma_pixel_number(width, height, x2, y2);
    if y1 * width + x1 == y2 * width + x2 {
        assert(x1 == x2);
        assert(y1 == y2);
    }
}

/// Tells whether the dimensions of a request are acceptable: both must be
/// positive.
pub fn validate_dimensions(width: usize, height: usize) -> (r: Result<(), GenerationError>)
    ensures
        r is Ok <==> width > 0 && height > 0,
        r is Err ==> r == Err::<(), GenerationError>(GenerationError::InvalidDimensions),
{
    if width == 0 || height == 0 {
        Err(GenerationError::InvalidDimensions)
    } else {
        Ok(())
    }
}

/// The number of pixels of an image, or `None` where it exceeds `usize`.
pub fn pixel_count(width: usize, height: usize) -> (r: Option<usize>)
    ensures
        match r {
            Some(n) => n == width * height,
            None => width * height > usize::MAX,
        },
{
    width.checked_mul(height)
}

/// Reads pixel `(x, y)` out of a buffer of the given width, or `None` where
/// the buffer has no such pixel.
pub fn pixel_at(buf: &[u8], width: usize, x: usize, y: usize) -> (p: Option<[u8; 3]>)
    ensures
        p is Some <==> x < width && pixel_offset(width as int, x as int, y as int) + 3
            <= buf@.len(),
        p matches Some(rgb) ==> forall|c: int|
            0 <= c < 3 ==> rgb[c] == buf@[pixel_offset(width as int, x as int, y as int) + c],
{
    let len: usize = buf.len();
    if x >= width {
        return None;
    }
    assert(0 <= y * width) by (nonlinear_arith)
        requires
            0 <= y,
            0 <= width,
    ;
    let row: usize = match y.checked_mul(width) {
        Some(v) => v,
        None => { return None; },
    };
    let number: usize = match row.checked_add(x) {
        Some(v) => v,
        None => { return None; },
    };
    let at: usize = match number.checked_mul(3) {
        Some(v) => v,
        None => { return None; },
    };
    if at > len || len - at < 3 {
        return None;
    }
    Some([buf[at], buf[at + 1], buf[at + 2]])
}

} // verus!
