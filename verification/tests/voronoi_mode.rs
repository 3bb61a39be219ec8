use node_helpers::raster::{pixel_at, GenerationError};
use node_helpers::voronoi::{
    check_limits, check_seeds, compute_voronoi_rgb, generate_seeds_with_colors, voronoi_rgb,
    SeedPoint, MAX_SIDE, SUBPIXEL,
};

const A: [u8; 3] = [10, 20, 30];
const B: [u8; 3] = [200, 100, 50];
const C: [u8; 3] = [1, 2, 3];

#[test]
fn two_seeds_in_opposite_corners() {
    let seeds = [SeedPoint::at_pixel(0, 0, A), SeedPoint::at_pixel(3, 3, B)];
    let buf = compute_voronoi_rgb(4, 4, &seeds).unwrap();
    assert_eq!(buf.len(), 48);
    assert_eq!(pixel_at(&buf, 4, 0, 0), Some(A));
    assert_eq!(pixel_at(&buf, 4, 3, 3), Some(B));
    for y in 0..4usize {
        for x in 0..4usize {
            let to_a = x * x + y * y;
            let to_b = (3 - x) * (3 - x) + (3 - y) * (3 - y);
            let expected = if to_a <= to_b { A } else { B };
            assert_eq!(pixel_at(&buf, 4, x, y), Some(expected));
        }
    }
}

#[test]
fn ties_go_to_the_lowest_index() {
    let seeds = [SeedPoint::at_pixel(0, 0, A), SeedPoint::at_pixel(3, 3, B)];
    let swapped = [SeedPoint::at_pixel(3, 3, B), SeedPoint::at_pixel(0, 0, A)];
    let buf = compute_voronoi_rgb(4, 4, &seeds).unwrap();
    let other = compute_voronoi_rgb(4, 4, &swapped).unwrap();
    for y in 0..4usize {
        for x in 0..4usize {
            if x + y == 3 {
                // The midline: both seeds are equally far.
                assert_eq!(pixel_at(&buf, 4, x, y), Some(A));
                assert_eq!(pixel_at(&other, 4, x, y), Some(B));
            } else {
                assert_eq!(pixel_at(&buf, 4, x, y), pixel_at(&other, 4, x, y));
            }
        }
    }
}

#[test]
fn seeds_on_one_spot_show_the_first() {
    let seeds =
        [SeedPoint::at_pixel(1, 1, A), SeedPoint::at_pixel(1, 1, B), SeedPoint::at_pixel(1, 1, C)];
    let buf = compute_voronoi_rgb(3, 3, &seeds).unwrap();
    for px in buf.chunks(3) {
        assert_eq!(px, A);
    }
}

#[test]
fn positions_between_pixels_count() {
    // The first seed lies a little right of the middle between pixels 0 and 1.
    let seeds = [
        SeedPoint { x: SUBPIXEL / 2 + 1, y: 0, color: A },
        SeedPoint { x: 0, y: 0, color: B },
        SeedPoint { x: 2 * SUBPIXEL + SUBPIXEL / 4, y: 0, color: C },
    ];
    let buf = compute_voronoi_rgb(4, 1, &seeds).unwrap();
    assert_eq!(buf, [B, A, C, C].concat());
}

#[test]
fn rows_come_one_after_the_other() {
    let seeds = [SeedPoint::at_pixel(0, 0, A), SeedPoint::at_pixel(0, 2, B)];
    let buf = compute_voronoi_rgb(2, 3, &seeds).unwrap();
    assert_eq!(buf, [A, A, A, A, B, B].concat());
    let wide = [SeedPoint::at_pixel(0, 0, A), SeedPoint::at_pixel(2, 0, B)];
    let buf = compute_voronoi_rgb(3, 2, &wide).unwrap();
    assert_eq!(buf, [A, A, B, A, A, B].concat());
}

#[test]
fn rasterizer_rejects_bad_requests() {
    let seeds = [SeedPoint::at_pixel(0, 0, A)];
    assert_eq!(compute_voronoi_rgb(0, 4, &[]), Err(GenerationError::InvalidDimensions));
    assert_eq!(compute_voronoi_rgb(4, 0, &[]), Err(GenerationError::InvalidDimensions));
    assert_eq!(compute_voronoi_rgb(4, 4, &[]), Err(GenerationError::InvalidSeedCount));
    assert!(compute_voronoi_rgb(1, 1, &seeds).is_ok());
}

#[test]
fn voronoi_rejects_bad_requests() {
    assert_eq!(voronoi_rgb(0, 4, 3), Err(GenerationError::InvalidDimensions));
    assert_eq!(voronoi_rgb(4, 0, 3), Err(GenerationError::InvalidDimensions));
    assert_eq!(voronoi_rgb(0, 0, 0), Err(GenerationError::InvalidDimensions));
    assert_eq!(voronoi_rgb(4, 4, 0), Err(GenerationError::InvalidSeedCount));
}

#[test]
fn voronoi_has_three_bytes_per_pixel() {
    for (w, h, n) in [(1usize, 1usize, 1usize), (4, 4, 2), (7, 3, 5), (3, 9, 40)] {
        let buf = voronoi_rgb(w, h, n).unwrap();
        assert_eq!(buf.len(), w * h * 3);
    }
}

#[test]
fn one_seed_colours_everything() {
    let buf = voronoi_rgb(6, 5, 1).unwrap();
    let first = [buf[0], buf[1], buf[2]];
    for px in buf.chunks(3) {
        assert_eq!(px, first);
    }
}

#[test]
fn voronoi_shows_at_most_as_many_colours_as_seeds() {
    let buf = voronoi_rgb(12, 12, 3).unwrap();
    let mut seen: Vec<[u8; 3]> = Vec::new();
    for px in buf.chunks(3) {
        let c = [px[0], px[1], px[2]];
        if !seen.contains(&c) {
            seen.push(c);
        }
    }
    assert!(!seen.is_empty() && seen.len() <= 3);
}

#[test]
fn drawn_seeds_lie_inside_the_image() {
    for (w, h) in [(1usize, 1usize), (4, 3), (1, 100), (640, 480)] {
        let seeds = generate_seeds_with_colors(200, w, h);
        assert_eq!(seeds.len(), 200);
        for s in &seeds {
            assert!(s.x < w as u64 * SUBPIXEL);
            assert!(s.y < h as u64 * SUBPIXEL);
        }
        assert!(check_seeds(&seeds, w, h));
    }
    assert!(generate_seeds_with_colors(0, 3, 3).is_empty());
}

#[test]
fn drawn_seeds_differ() {
    let seeds = generate_seeds_with_colors(64, 1000, 1000);
    let first = seeds[0];
    assert!(seeds.iter().any(|s| s.x != first.x || s.y != first.y));
    assert!(seeds.iter().any(|s| s.color != first.color));
}

#[test]
fn limits_of_the_voronoi_mode() {
    assert!(check_limits(0, 0));
    assert!(check_limits(4, 4));
    assert!(check_limits(MAX_SIDE as usize, 1));
    assert!(!check_limits(MAX_SIDE as usize + 1, 1));
    assert!(!check_limits(1, MAX_SIDE as usize + 1));
    assert!(!check_limits(MAX_SIDE as usize, MAX_SIDE as usize));
    assert!(!check_limits(usize::MAX, usize::MAX));
    assert!(!check_limits(usize::MAX / 3 + 1, 1));
}

#[test]
fn seeds_outside_the_image_are_told() {
    let inside = SeedPoint { x: 4 * SUBPIXEL - 1, y: 3 * SUBPIXEL - 1, color: A };
    let right = SeedPoint { x: 4 * SUBPIXEL, y: 0, color: A };
    let below = SeedPoint { x: 0, y: 3 * SUBPIXEL, color: A };
    assert!(check_seeds(&[], 4, 3));
    assert!(check_seeds(&[inside], 4, 3));
    assert!(!check_seeds(&[inside, right], 4, 3));
    assert!(!check_seeds(&[below, inside], 4, 3));
    assert!(!check_seeds(&[inside], 0, 0));
    assert!(check_seeds(&[inside], usize::MAX, usize::MAX));
}

#[test]
fn seed_on_a_pixel() {
    let s = SeedPoint::at_pixel(3, 2, C);
    assert_eq!(s.x, 3 * SUBPIXEL);
    assert_eq!(s.y, 2 * SUBPIXEL);
    assert_eq!(s.color, C);
    let far = SeedPoint::at_pixel(u32::MAX, u32::MAX, A);
    assert_eq!(far.x, u32::MAX as u64 * SUBPIXEL);
}
