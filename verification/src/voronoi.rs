//! Voronoi partitions: every pixel takes the colour of its nearest seed
//! point.
//!
//! Positions are unsigned fixed-point numbers with 16 fractional bits: a
//! coordinate `c` stands for `c / 65536` pixels, and pixel `(x, y)` sits at
//! `(x * 65536, y * 65536)`. Distances are compared by their exact squares.
//! Of several seeds at the same smallest distance the one with the lowest
//! index wins.

use vstd::prelude::*;
use crate::random::{random_below, random_byte, thread_rng};
use crate::raster::{buffer_len, lemma_pixel_number, pixel_offset, GenerationError};

verus! {

/// Number of position units in one pixel.
pub const SUBPIXEL: u64 = 0x1_0000;

/// The largest side of an image that the rasterizer takes: below it the
/// square of every distance, in position units, fits in 128 bits.
pub const MAX_SIDE: u64 = 0x8000_0000_0000;

/// A seed of the partition: a position and the colour of its region.
#[derive(Debug, Clone, Copy)]
pub struct SeedPoint {
    /// Horizontal position, in units of 1/65536 pixel.
    pub x: u64,
    /// Vertical position, in units of 1/65536 pixel.
    pub y: u64,
    /// Red, green and blue.
    pub color: [u8; 3],
}

impl SeedPoint {
    /// The seed lies inside the rectangle of a `width` by `height` image.
    pub open spec fn within(&self, width: int, height: int) -> bool {
        self.x < width * SUBPIXEL && self.y < height * SUBPIXEL
    }

    /// The square of the Euclidean distance from pixel `(px, py)` to the
    /// seed, in position units.
    pub open spec fn distance_squared(&self, px: int, py: int) -> int {
        let dx = px * SUBPIXEL - self.x;
        let dy = py * SUBPIXEL - self.y;
        dx * dx + dy * dy
    }

    /// A seed that sits exactly on pixel `(px, py)`.
    pub fn at_pixel(px: u32, py: u32, color: [u8; 3]) -> (seed: SeedPoint)
        ensures
            seed.x == px * SUBPIXEL,
            seed.y == py * SUBPIXEL,
            seed.color == color,
            seed.distance_squared(px as int, py as int) == 0,
    {
        let x: u64 = px as u64 * SUBPIXEL;
        let y: u64 = py as u64 * SUBPIXEL;
        SeedPoint { x, y, color }
    }
}

/// The dimensions that the Voronoi mode can take: the buffer length fits in
/// `usize` and no side exceeds `MAX_SIDE`.
pub open spec fn within_limits(width: usize, height: usize) -> bool {
    &&& buffer_len(width as int, height as int) <= usize::MAX
    &&& width <= MAX_SIDE
    &&& height <= MAX_SIDE
}

/// Every seed lies inside the rectangle of the image.
pub open spec fn all_within(seeds: Seq<SeedPoint>, width: int, height: int) -> bool {
    forall|i: int| 0 <= i < seeds.len() ==> (#[trigger] seeds[i]).within(width, height)
}

/// Seed `i` is the one that pixel `(px, py)` belongs to: no seed is nearer,
/// and every seed before it is strictly farther.
pub open spec fn is_nearest(seeds: Seq<SeedPoint>, px: int, py: int, i: int) -> bool {
    &&& 0 <= i < seeds.len()
    &&& forall|j: int|
        0 <= j < seeds.len() ==> seeds[i].distance_squared(px, py) <= (
        #[trigger] seeds[j]).distance_squared(px, py)
    &&& forall|j: int|
        0 <= j < i ==> seeds[i].distance_squared(px, py) < (#[trigger] seeds[j]).distance_squared(
            px,
            py,
        )
}

/// The index of the seed that pixel `(px, py)` belongs to.
pub open spec fn nearest_seed_spec(seeds: Seq<SeedPoint>, px: int, py: int) -> int {
    choose|i: int| is_nearest(seeds, px, py, i)
}

/// The colour of pixel `(px, py)`.
pub open spec fn voronoi_color(seeds: Seq<SeedPoint>, px: int, py: int) -> [u8; 3] {
    seeds[nearest_seed_spec(seeds, px, py)].color
}

/// The partition as a row-major RGB buffer.
pub open spec fn voronoi_pixels(width: int, height: int, seeds: Seq<SeedPoint>) -> Seq<u8> {
    Seq::new(
        buffer_len(width, height) as nat,
        |k: int| voronoi_color(seeds, (k / 3) % width, (k / 3) / width)[k % 3],
    )
}

/// A pixel belongs to at most one seed.
pub proof fn lemma_nearest_unique(seeds: Seq<SeedPoint>, px: int, py: int, i: int, j: int)
    requires
        is_nearest(seeds, px, py, i),
        is_nearest(seeds, px, py, j),
    ensures
        i == j,
{
    if i < j {
        assert(seeds[j].distance_squared(px, py) < seeds[i].distance_squared(px, py));
        assert(seeds[j].distance_squared(px, py) >= seeds[i].distance_squared(px, py));
    } else if j < i {
        assert(seeds[i].distance_squared(px, py) < seeds[j].distance_squared(px, py));
        assert(seeds[i].distance_squared(px, py) >= seeds[j].distance_squared(px, py));
    }
}

/// Among one or more seeds every pixel has a nearest one.
pub proof fn lemma_nearest_exists(seeds: Seq<SeedPoint>, px: int, py: int) -> (i: int)
    requires
        seeds.len() > 0,
    ensures
        is_nearest(seeds, px, py, i),
        i == nearest_seed_spec(seeds, px, py),
    decreases seeds.len(),
{
    let last = seeds.len() - 1;
    let i = if last == 0 {
        0
    } else {
        let front = seeds.drop_last();
        let best = lemma_nearest_exists(front, px, py);
        assert forall|j: int| 0 <= j < front.len() implies front[j] == seeds[j] by {}
        assert(front[best] == seeds[best]);
        let i = if seeds[last].distance_squared(px, py) < seeds[best].distance_squared(px, py) {
            last
        } else {
            best
        };
        assert forall|j: int| 0 <= j < seeds.len() implies seeds[i].distance_squared(px, py) <= (
        #[trigger] seeds[j]).distance_squared(px, py) by {
            if j < last {
                assert(front[j] == seeds[j]);
                assert(front[best].distance_squared(px, py) <= front[j].distance_squared(px, py));
            }
        }
        assert forall|j: int| 0 <= j < i implies seeds[i].distance_squared(px, py) < (
        #[trigger] seeds[j]).distance_squared(px, py) by {
            assert(front[j] == seeds[j]);
            if i == last {
                assert(front[best].distance_squared(px, py) <= front[j].distance_squared(px, py));
            } else {
                assert(front[best].distance_squared(px, py) < front[j].distance_squared(px, py));
            }
        }
        i
    };
    assert(is_nearest(seeds, px, py, i));
    lemma_nearest_unique(seeds, px, py, i, nearest_seed_spec(seeds, px, py));
    i
}

/// Every pixel of the partition carries the colour of one seed, and that
/// seed is at least as near as every other one and strictly nearer than
/// every seed with a lower index.
pub proof fn lemma_pixel_takes_nearest_color(
    width: int,
    height: int,
    seeds: Seq<SeedPoint>,
    x: int,
    y: int,
    c: int,
)
    requires
        seeds.len() > 0,
        0 <= x < width,
        0 <= y < height,
        0 <= c < 3,
    ensures
        voronoi_pixels(width, height, seeds).len() == buffer_len(width, height),
        is_nearest(seeds, x, y, nearest_seed_spec(seeds, x, y)),
        voronoi_pixels(width, height, seeds)[(y * width + x) * 3 + c] == seeds[nearest_seed_spec(
            seeds,
            x,
            y,
        )].color[c],
{
    lemma_pixel_number(width, height, x, y);
    lemma_nearest_exists(seeds, x, y);
    let p: int = y * width + x;
    let k: int = p * 3 + c;
    assert(k / 3 == p && k % 3 == c);
    assert(0 <= k < width * height * 3) by (nonlinear_arith)
        requires
            0 <= p < width * height,
            0 <= c < 3,
            k == p * 3 + c,
    ;
    assert(width * height * 3 >= 0);
}

/// Between two seeds a pixel goes to the nearer one, and to the first where
/// both are equally far.
pub proof fn lemma_two_seeds(a: SeedPoint, b: SeedPoint, px: int, py: int)
    ensures
        nearest_seed_spec(seq![a, b], px, py) == if a.distance_squared(px, py)
            <= b.distance_squared(px, py) {
            0int
        } else {
            1int
        },
{
    let seeds = seq![a, b];
    let i: int = if a.distance_squared(px, py) <= b.distance_squared(px, py) {
        0
    } else {
        1
    };
    assert(seeds[0] == a && seeds[1] == b);
    assert(is_nearest(seeds, px, py, i));
    lemma_nearest_unique(seeds, px, py, i, nearest_seed_spec(seeds, px, py));
}

/// A pixel on which a seed sits takes the colour of the first such seed.
pub proof fn lemma_pixel_on_seed(seeds: Seq<SeedPoint>, px: int, py: int, i: int)
    requires
        0 <= i < seeds.len(),
        seeds[i].distance_squared(px, py) == 0,
        forall|j: int| 0 <= j < i ==> (#[trigger] seeds[j]).distance_squared(px, py) != 0,
    ensures
        nearest_seed_spec(seeds, px, py) == i,
{
    assert forall|j: int| 0 <= j < seeds.len() implies 0 <= (#[trigger] seeds[j]).distance_squared(
        px,
        py,
    ) by {
        let dx: int = px * SUBPIXEL - seeds[j].x;
        let dy: int = py * SUBPIXEL - seeds[j].y;
        assert(dx * dx >= 0 && dy * dy >= 0) by (nonlinear_arith);
    }
    assert(is_nearest(seeds, px, py, i));
    lemma_nearest_unique(seeds, px, py, i, nearest_seed_spec(seeds, px, py));
}

/// The exact squared distance from a pixel to a seed.
fn distance_squared(seed: &SeedPoint, px: usize, py: usize) -> (d: u128)
    requires
        px < MAX_SIDE,
        py < MAX_SIDE,
        seed.x < MAX_SIDE * SUBPIXEL,
        seed.y < MAX_SIDE * SUBPIXEL,
    ensures
        d == seed.distance_squared(px as int, py as int),
{
    let sx: u64 = px as u64 * SUBPIXEL;
    let sy: u64 = py as u64 * SUBPIXEL;
    let dx: u64 = if sx >= seed.x {
        sx - seed.x
    } else {
        seed.x - sx
    };
    let dy: u64 = if sy >= seed.y {
        sy - seed.y
    } else {
        seed.y - sy
    };
    proof {
        let ex: int = px * SUBPIXEL - seed.x;
        let ey: int = py * SUBPIXEL - seed.y;
        assert(dx * dx == ex * ex) by (nonlinear_arith)
            requires
                dx == ex || dx == -ex,
        ;
        assert(dy * dy == ey * ey) by (nonlinear_arith)
            requires
                dy == ey || dy == -ey,
        ;
        assert(dx * dx <= 0x3fff_ffff_ffff_ffff_ffff_ffff_ffff_ffff) by (nonlinear_arith)
            requires
                0 <= dx < 0x8000_0000_0000_0000,
        ;
        assert(dy * dy <= 0x3fff_ffff_ffff_ffff_ffff_ffff_ffff_ffff) by (nonlinear_arith)
            requires
                0 <= dy < 0x8000_0000_0000_0000,
        ;
    }
    (dx as u128) * (dx as u128) + (dy as u128) * (dy as u128)
}

/// Finds the seed that pixel `(px, py)` belongs to.
fn nearest_seed(seeds: &[SeedPoint], px: usize, py: usize) -> (best: usize)
    requires
        seeds@.len() > 0,
        px < MAX_SIDE,
        py < MAX_SIDE,
        all_within(seeds@, MAX_SIDE as int, MAX_SIDE as int),
    ensures
        is_nearest(seeds@, px as int, py as int, best as int),
        best as int == nearest_seed_spec(seeds@, px as int, py as int),
{
    let mut best: usize = 0;
    let mut least: u128 = distance_squared(&seeds[0], px, py);
    let mut i: usize = 1;
    while i < seeds.len()
        invariant
            1 <= i <= seeds@.len(),
            px < MAX_SIDE,
            py < MAX_SIDE,
            all_within(seeds@, MAX_SIDE as int, MAX_SIDE as int),
            best < i,
            least == seeds@[best as int].distance_squared(px as int, py as int),
            forall|j: int|
                0 <= j < i ==> least <= (#[trigger] seeds@[j]).distance_squared(
                    px as int,
                    py as int,
                ),
            forall|j: int|
                0 <= j < best ==> least < (#[trigger] seeds@[j]).distance_squared(
                    px as int,
                    py as int,
                ),
        decreases seeds@.len() - i,
    {
        let d: u128 = distance_squared(&seeds[i], px, py);
        if d < least {
            least = d;
            best = i;
        }
        i = i + 1;
    }
    proof {
        lemma_nearest_unique(
            seeds@,
            px as int,
            py as int,
            best as int,
            nearest_seed_spec(seeds@, px as int, py as int),
        );
    }
    best
}

/// The buffer holds, for every pixel `(x, y)` of the image, at offset
/// `(y * width + x) * 3`, the three bytes of the colour of the seed that the
/// pixel belongs to.
pub open spec fn is_partition(buf: Seq<u8>, width: int, height: int, seeds: Seq<SeedPoint>) -> bool {
    forall|x: int, y: int, i: int|
        0 <= x < width && 0 <= y < height && #[trigger] is_nearest(seeds, x, y, i) ==> {
            let at = pixel_offset(width, x, y);
            &&& 0 <= at && at + 3 <= buf.len()
            &&& buf[at] == seeds[i].color[0]
            &&& buf[at + 1] == seeds[i].color[1]
            &&& buf[at + 2] == seeds[i].color[2]
        }
}

/// What the rasterizer owes for a request: the partition where the
/// dimensions are positive and there is a seed, and otherwise the failure
/// that names the first thing wrong.
pub open spec fn voronoi_outcome(width: usize, height: usize, seeds: Seq<SeedPoint>) -> Result<
    Seq<u8>,
    GenerationError,
> {
    if width == 0 || height == 0 {
        Err(GenerationError::InvalidDimensions)
    } else if seeds.len() == 0 {
        Err(GenerationError::InvalidSeedCount)
    } else {
        Ok(voronoi_pixels(width as int, height as int, seeds))
    }
}

/// Tells whether the dimensions are within the limits of the Voronoi mode.
pub fn check_limits(width: usize, height: usize) -> (ok: bool)
    ensures
        ok == within_limits(width, height),
{
    if width as u64 > MAX_SIDE || height as u64 > MAX_SIDE {
        return false;
    }
    match width.checked_mul(height) {
        Some(pixels) => {
            assert(pixels * 3 == buffer_len(width as int, height as int));
            pixels.checked_mul(3).is_some()
        },
        None => {
            assert(width * height * 3 >= width * height) by (nonlinear_arith)
                requires
                    width * height >= 0,
            ;
            false
        },
    }
}

/// Tells whether every seed lies inside the rectangle of the image.
pub fn check_seeds(seeds: &[SeedPoint], width: usize, height: usize) -> (ok: bool)
    ensures
        ok == all_within(seeds@, width as int, height as int),
{
    let right: u128 = width as u128 * SUBPIXEL as u128;
    let bottom: u128 = height as u128 * SUBPIXEL as u128;
    let mut i: usize = 0;
    while i < seeds.len()
        invariant
            i <= seeds@.len(),
            right == width * SUBPIXEL,
            bottom == height * SUBPIXEL,
            all_within(seeds@.take(i as int), width as int, height as int),
        decreases seeds@.len() - i,
    {
        if seeds[i].x as u128 >= right || seeds[i].y as u128 >= bottom {
            assert(!seeds@[i as int].within(width as int, height as int));
            return false;
        }
        proof {
            let next = seeds@.take(i as int + 1);
            assert forall|j: int| 0 <= j < next.len() implies (#[trigger] next[j]).within(
                width as int,
                height as int,
            ) by {
                if j < i {
                    assert(seeds@.take(i as int)[j] == next[j]);
                }
            }
        }
        i = i + 1;
    }
    assert(seeds@.take(seeds@.len() as int) =~= seeds@);
    true
}

/// Colours every pixel of a `width` by `height` image with the colour of
/// its nearest seed.
///
/// The request fails with `InvalidDimensions` where a dimension is zero and
/// with `InvalidSeedCount` where there is no seed. Otherwise pixel `(x, y)`
/// takes, at offset `(y * width + x) * 3`, the colour of the seed at the
/// smallest Euclidean distance, and of the lowest index among several such.
pub fn compute_voronoi_rgb(width: usize, height: usize, seeds: &[SeedPoint]) -> (r: Result<
    Vec<u8>,
    GenerationError,
>)
    requires
        within_limits(width, height),
        all_within(seeds@, width as int, height as int),
    ensures
        match r {
            Ok(buf) => voronoi_outcome(width, height, seeds@) == Ok::<Seq<u8>, GenerationError>(
                buf@,
            ),
            Err(e) => voronoi_outcome(width, height, seeds@) == Err::<Seq<u8>, GenerationError>(e),
        },
        r matches Ok(buf) ==> buf@.len() == buffer_len(width as int, height as int),
        r matches Ok(buf) ==> is_partition(buf@, width as int, height as int, seeds@),
{
    if width == 0 || height == 0 {
        return Err(GenerationError::InvalidDimensions);
    }
    if seeds.len() == 0 {
        return Err(GenerationError::InvalidSeedCount);
    }
    proof {
        assert forall|i: int| 0 <= i < seeds@.len() implies (#[trigger] seeds@[i]).within(
            MAX_SIDE as int,
            MAX_SIDE as int,
        ) by {
            assert(seeds@[i].within(width as int, height as int));
            assert(width * SUBPIXEL <= MAX_SIDE * SUBPIXEL) by (nonlinear_arith)
                requires
                    width <= MAX_SIDE,
            ;
            assert(height * SUBPIXEL <= MAX_SIDE * SUBPIXEL) by (nonlinear_arith)
                requires
                    height <= MAX_SIDE,
            ;
        }
        assert(width * height <= width * height * 3) by (nonlinear_arith)
            requires
                width * height >= 0,
        ;
    }
    let mut buf: Vec<u8> = Vec::with_capacity(width * height * 3);
    let mut y: usize = 0;
    while y < height
        invariant
            0 < width <= MAX_SIDE,
            height <= MAX_SIDE,
            seeds@.len() > 0,
            all_within(seeds@, MAX_SIDE as int, MAX_SIDE as int),
            y <= height,
            buf@.len() == y * width * 3,
            forall|p: int, c: int|
                0 <= p < y * width && 0 <= c < 3 ==> #[trigger] buf@[p * 3 + c] == voronoi_color(
                    seeds@,
                    p % (width as int),
                    p / (width as int),
                )[c],
        decreases height - y,
    {
        let mut x: usize = 0;
        while x < width
            invariant
                0 < width <= MAX_SIDE,
                y < height <= MAX_SIDE,
                seeds@.len() > 0,
                all_within(seeds@, MAX_SIDE as int, MAX_SIDE as int),
                x <= width,
                buf@.len() == (y * width + x) * 3,
                forall|p: int, c: int|
                    0 <= p < y * width + x && 0 <= c < 3 ==> #[trigger] buf@[p * 3 + c]
                        == voronoi_color(seeds@, p % (width as int), p / (width as int))[c],
            decreases width - x,
        {
            let i: usize = nearest_seed(seeds, x, y);
            let color: [u8; 3] = seeds[i].color;
            let ghost before = buf@;
            buf.push(color[0]);
            buf.push(color[1]);
            buf.push(color[2]);
            proof {
                let here: int = y * width + x;
                lemma_pixel_number(width as int, height as int, x as int, y as int);
                assert(voronoi_color(seeds@, x as int, y as int) == color);
                assert forall|p: int, c: int| 0 <= p < here + 1 && 0 <= c < 3 implies #[trigger] buf@[p
                    * 3 + c] == voronoi_color(seeds@, p % (width as int), p / (width as int))[c] by {
                    if p < here {
                        assert(buf@[p * 3 + c] == before[p * 3 + c]);
                    }
                }
            }
            x = x + 1;
        }
        proof {
            assert(y * width + width == (y + 1) * width) by (nonlinear_arith);
        }
        y = y + 1;
    }
    proof {
        let w: int = width as int;
        let h: int = height as int;
        let pixels = voronoi_pixels(w, h, seeds@);
        assert(h * w * 3 == w * h * 3) by (nonlinear_arith);
        assert(buf@.len() == pixels.len());
        assert forall|k: int| 0 <= k < buf@.len() implies buf@[k] == pixels[k] by {
            let p: int = k / 3;
            let c: int = k % 3;
            assert(k == p * 3 + c);
            assert(buf@[p * 3 + c] == voronoi_color(seeds@, p % w, p / w)[c]);
        }
        assert(buf@ =~= pixels);
        assert forall|x: int, y: int, i: int|
            0 <= x < w && 0 <= y < h && #[trigger] is_nearest(seeds@, x, y, i) implies ({
            let at = pixel_offset(w, x, y);
            &&& 0 <= at && at + 3 <= buf@.len()
            &&& buf@[at] == seeds@[i].color[0]
            &&& buf@[at + 1] == seeds@[i].color[1]
            &&& buf@[at + 2] == seeds@[i].color[2]
        }) by {
            lemma_pixel_number(w, h, x, y);
            lemma_pixel_takes_nearest_color(w, h, seeds@, x, y, 0);
            lemma_pixel_takes_nearest_color(w, h, seeds@, x, y, 1);
            lemma_pixel_takes_nearest_color(w, h, seeds@, x, y, 2);
            lemma_nearest_unique(seeds@, x, y, i, nearest_seed_spec(seeds@, x, y));
        }
    }
    Ok(buf)
}

/// Draws `num_seeds` seed points for a `width` by `height` image from the
/// random source of the calling thread: each position anywhere inside the
/// rectangle of the image, each colour channel any byte. Two calls need not
/// agree.
pub fn generate_seeds_with_colors(num_seeds: usize, width: usize, height: usize) -> (seeds: Vec<
    SeedPoint,
>)
    requires
        0 < width <= MAX_SIDE,
        0 < height <= MAX_SIDE,
    ensures
        seeds@.len() == num_seeds,
        all_within(seeds@, width as int, height as int),
{
    let right: u64 = width as u64 * SUBPIXEL;
    let bottom: u64 = height as u64 * SUBPIXEL;
    let mut rng = thread_rng();
    let mut seeds: Vec<SeedPoint> = Vec::new();
    let mut i: usize = 0;
    while i < num_seeds
        invariant
            i <= num_seeds,
            0 < right == width * SUBPIXEL,
            0 < bottom == height * SUBPIXEL,
            seeds@.len() == i,
            all_within(seeds@, width as int, height as int),
        decreases num_seeds - i,
    {
        let x: u64 = random_below(&mut rng, right);
        let y: u64 = random_below(&mut rng, bottom);
        let red: u8 = random_byte(&mut rng);
        let green: u8 = random_byte(&mut rng);
        let blue: u8 = random_byte(&mut rng);
        seeds.push(SeedPoint { x, y, color: [red, green, blue] });
        i = i + 1;
    }
    seeds
}

/// Renders a Voronoi partition of `num_seeds` randomly placed and randomly
/// coloured seeds.
///
/// The request fails with `InvalidDimensions` where a dimension is zero and
/// with `InvalidSeedCount` where `num_seeds` is zero. Otherwise the buffer is
/// the partition of some `num_seeds` seeds inside the image; which seeds is
/// left to the random source.
pub fn voronoi_rgb(width: usize, height: usize, num_seeds: usize) -> (r: Result<
    Vec<u8>,
    GenerationError,
>)
    requires
        within_limits(width, height),
    ensures
        (width == 0 || height == 0) <==> r == Err::<Vec<u8>, GenerationError>(
            GenerationError::InvalidDimensions,
        ),
        (width > 0 && height > 0 && num_seeds == 0) <==> r == Err::<Vec<u8>, GenerationError>(
            GenerationError::InvalidSeedCount,
        ),
        (width > 0 && height > 0 && num_seeds > 0) <==> r is Ok,
        r matches Ok(buf) ==> buf@.len() == buffer_len(width as int, height as int),
        r matches Ok(buf) ==> exists|seeds: Seq<SeedPoint>|
            seeds.len() == num_seeds && all_within(seeds, width as int, height as int) && buf@
                == #[trigger] voronoi_pixels(width as int, height as int, seeds),
{
    if width == 0 || height == 0 {
        return Err(GenerationError::InvalidDimensions);
    }
    if num_seeds == 0 {
        return Err(GenerationError::InvalidSeedCount);
    }
    let seeds: Vec<SeedPoint> = generate_seeds_with_colors(num_seeds, width, height);
    let r = compute_voronoi_rgb(width, height, seeds.as_slice());
    r
}

} // verus!
