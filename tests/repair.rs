use pixelfix::extract::{extract_edges, Sample};
use pixelfix::fill::{fill_clear, fix_transparent, FixOutcome};
use pixelfix::formats::valid_extension;
use pixelfix::grid::{Pixel, PixelGrid};
use pixelfix::nearest::nearest_sample;

const RED: Pixel = Pixel { r: 255, g: 0, b: 0, a: 255 };
const BLUE: Pixel = Pixel { r: 0, g: 0, b: 255, a: 255 };
const CLEAR: Pixel = Pixel { r: 0, g: 0, b: 0, a: 0 };

fn grid(width: u32, height: u32, pixels: Vec<Pixel>) -> PixelGrid {
    PixelGrid::from_pixels(width, height, pixels).expect("length matches")
}

fn red_over_clear() -> PixelGrid {
    let mut pixels = Vec::new();
    for y in 0..4 {
        for _ in 0..4 {
            pixels.push(if y < 2 { RED } else { CLEAR });
        }
    }
    grid(4, 4, pixels)
}

#[test]
fn red_block_fills_rows_below() {
    let mut g = red_over_clear();
    assert_eq!(fix_transparent(&mut g, false), FixOutcome::Filled);
    for y in 0..4 {
        for x in 0..4 {
            let p = g.get(x, y).unwrap();
            if y < 2 {
                assert_eq!(p, RED);
            } else {
                assert_eq!(p, Pixel { r: 255, g: 0, b: 0, a: 0 });
            }
        }
    }
}

#[test]
fn red_block_fills_rows_below_in_debug() {
    let mut g = red_over_clear();
    assert_eq!(fix_transparent(&mut g, true), FixOutcome::Filled);
    for y in 0..4 {
        for x in 0..4 {
            assert_eq!(g.get(x, y).unwrap(), RED);
        }
    }
}

#[test]
fn nearer_opaque_colour_wins() {
    let mut g = grid(6, 1, vec![RED, CLEAR, CLEAR, CLEAR, CLEAR, BLUE]);
    assert_eq!(fix_transparent(&mut g, false), FixOutcome::Filled);
    assert_eq!(g.get(1, 0).unwrap(), Pixel { r: 255, g: 0, b: 0, a: 0 });
    assert_eq!(g.get(2, 0).unwrap(), Pixel { r: 255, g: 0, b: 0, a: 0 });
    assert_eq!(g.get(3, 0).unwrap(), Pixel { r: 0, g: 0, b: 255, a: 0 });
    assert_eq!(g.get(4, 0).unwrap(), Pixel { r: 0, g: 0, b: 255, a: 0 });
    assert_eq!(g.get(0, 0).unwrap(), RED);
    assert_eq!(g.get(5, 0).unwrap(), BLUE);
}

#[test]
fn equal_distance_goes_to_first_sample() {
    let mut g = grid(5, 1, vec![RED, CLEAR, CLEAR, CLEAR, BLUE]);
    fix_transparent(&mut g, true);
    assert_eq!(g.get(2, 0).unwrap(), RED);
    assert_eq!(g.get(3, 0).unwrap(), BLUE);
}

#[test]
fn alpha_stays_zero_without_debug() {
    let mut g = grid(2, 1, vec![BLUE, CLEAR]);
    fix_transparent(&mut g, false);
    assert_eq!(g.get(1, 0).unwrap().a, 0);
    assert_eq!(g.get(1, 0).unwrap().b, 255);
}

#[test]
fn alpha_becomes_full_with_debug() {
    let mut g = grid(2, 1, vec![BLUE, CLEAR]);
    fix_transparent(&mut g, true);
    assert_eq!(g.get(1, 0).unwrap().a, 255);
    assert_eq!(g.get(1, 0).unwrap().b, 255);
}

#[test]
fn partial_alpha_counts_as_opaque() {
    let half = Pixel { r: 10, g: 20, b: 30, a: 1 };
    let mut g = grid(2, 1, vec![half, CLEAR]);
    assert_eq!(fix_transparent(&mut g, false), FixOutcome::Filled);
    assert_eq!(g.get(0, 0).unwrap(), half);
    assert_eq!(g.get(1, 0).unwrap(), Pixel { r: 10, g: 20, b: 30, a: 0 });
}

#[test]
fn single_sample_colours_every_clear_pixel() {
    let mut g = grid(4, 1, vec![RED, CLEAR, CLEAR, CLEAR]);
    let (samples, clear) = extract_edges(&g);
    assert_eq!(samples.len(), 1);
    assert_eq!(clear.len(), 3);
    assert_eq!(fix_transparent(&mut g, false), FixOutcome::Filled);
    for x in 1..4 {
        assert_eq!(g.get(x, 0).unwrap(), Pixel { r: 255, g: 0, b: 0, a: 0 });
    }
}

#[test]
fn single_sample_away_from_origin() {
    let mut pixels = vec![CLEAR; 9];
    pixels[8] = BLUE;
    pixels[5] = CLEAR;
    let mut g = grid(3, 3, pixels);
    let (samples, _) = extract_edges(&g);
    assert_eq!(samples.len(), 3);
    fix_transparent(&mut g, true);
    for i in 0..8u32 {
        assert_eq!(g.get(i % 3, i / 3).unwrap(), BLUE);
    }
}

#[test]
fn opaque_grid_is_left_alone() {
    let original = grid(2, 2, vec![RED, BLUE, BLUE, RED]);
    let mut g = original.clone();
    assert_eq!(fix_transparent(&mut g, true), FixOutcome::NoTransparency);
    assert_eq!(g.pixels, original.pixels);
}

#[test]
fn clear_grid_has_no_samples() {
    let mut g = grid(3, 2, vec![Pixel { r: 7, g: 8, b: 9, a: 0 }; 6]);
    assert_eq!(fix_transparent(&mut g, true), FixOutcome::NoSamples);
    assert_eq!(g.pixels, vec![Pixel { r: 7, g: 8, b: 9, a: 0 }; 6]);
}

#[test]
fn empty_grid_has_no_transparency() {
    let mut g = grid(0, 0, Vec::new());
    assert_eq!(fix_transparent(&mut g, false), FixOutcome::NoTransparency);
    assert!(g.pixels.is_empty());
}

#[test]
fn second_pass_changes_nothing() {
    for debug in [false, true] {
        let mut g = grid(
            4,
            3,
            vec![
                RED, CLEAR, CLEAR, BLUE, CLEAR, CLEAR, CLEAR, CLEAR, CLEAR, BLUE, CLEAR, RED,
            ],
        );
        fix_transparent(&mut g, debug);
        let once = g.pixels.clone();
        fix_transparent(&mut g, debug);
        assert_eq!(g.pixels, once);
    }
}

#[test]
fn repaired_colours_come_from_samples() {
    let green = Pixel { r: 0, g: 200, b: 0, a: 255 };
    let original = grid(
        4,
        3,
        vec![
            RED, CLEAR, CLEAR, BLUE, CLEAR, CLEAR, CLEAR, CLEAR, green, CLEAR, CLEAR, CLEAR,
        ],
    );
    let (samples, clear) = extract_edges(&original);
    let mut g = original.clone();
    fix_transparent(&mut g, false);
    for (x, y) in clear {
        let p = g.get(x, y).unwrap();
        assert!(samples.iter().any(|s| s.r == p.r && s.g == p.g && s.b == p.b));
    }
}

#[test]
fn samples_follow_neighbour_order() {
    // NW is red, E is blue, S is green; the clear pixel sits in the middle.
    let green = Pixel { r: 0, g: 200, b: 0, a: 255 };
    let g = grid(
        3,
        3,
        vec![RED, CLEAR, CLEAR, CLEAR, CLEAR, BLUE, CLEAR, green, CLEAR],
    );
    let (samples, clear) = extract_edges(&g);
    let centre: Vec<&Sample> = samples.iter().filter(|s| s.x == 1 && s.y == 1).collect();
    assert_eq!(centre.len(), 3);
    assert_eq!((centre[0].r, centre[0].g, centre[0].b), (255, 0, 0));
    assert_eq!((centre[1].r, centre[1].g, centre[1].b), (0, 0, 255));
    assert_eq!((centre[2].r, centre[2].g, centre[2].b), (0, 200, 0));
    assert_eq!(clear, vec![(1, 0), (2, 0), (0, 1), (1, 1), (0, 2), (2, 2)]);
    // (1, 0) sees blue to the SE before red to the W.
    assert_eq!(samples[0], Sample { x: 1, y: 0, r: 0, g: 0, b: 255 });
    assert_eq!(samples[1], Sample { x: 1, y: 0, r: 255, g: 0, b: 0 });
}

#[test]
fn nearest_sample_picks_smallest_distance() {
    let samples = vec![
        Sample { x: 10, y: 10, r: 1, g: 0, b: 0 },
        Sample { x: 2, y: 3, r: 2, g: 0, b: 0 },
        Sample { x: 3, y: 2, r: 3, g: 0, b: 0 },
        Sample { x: 0, y: 0, r: 4, g: 0, b: 0 },
    ];
    assert_eq!(nearest_sample(&samples, 3, 3), Some(1));
    assert_eq!(nearest_sample(&samples, 0, 1), Some(3));
    assert_eq!(nearest_sample(&samples, 9, 12), Some(0));
    assert_eq!(nearest_sample(&Vec::new(), 0, 0), None);
}

#[test]
fn nearest_sample_far_coordinates() {
    let samples = vec![
        Sample { x: u32::MAX, y: u32::MAX, r: 1, g: 0, b: 0 },
        Sample { x: 0, y: 0, r: 2, g: 0, b: 0 },
    ];
    assert_eq!(nearest_sample(&samples, u32::MAX, 0), Some(0));
    assert_eq!(nearest_sample(&samples, 0, u32::MAX - 1), Some(1));
    // Exactly as far from both: the earlier sample wins.
    assert_eq!(nearest_sample(&samples, 1, u32::MAX - 1), Some(0));
}

#[test]
fn fill_skips_outside_and_without_samples() {
    let mut g = grid(2, 1, vec![CLEAR, CLEAR]);
    let samples = vec![Sample { x: 0, y: 0, r: 9, g: 8, b: 7 }];
    fill_clear(&mut g, &vec![(5, 0), (1, 0)], &samples, false);
    assert_eq!(g.pixels, vec![CLEAR, Pixel { r: 9, g: 8, b: 7, a: 0 }]);
    let mut h = grid(2, 1, vec![CLEAR, CLEAR]);
    fill_clear(&mut h, &vec![(0, 0), (1, 0)], &Vec::new(), true);
    assert_eq!(h.pixels, vec![CLEAR, CLEAR]);
}

#[test]
fn grid_construction_and_access() {
    assert!(PixelGrid::from_pixels(2, 2, vec![RED; 3]).is_none());
    let mut g = PixelGrid::filled(3, 2, BLUE).unwrap();
    assert_eq!((g.width(), g.height()), (3, 2));
    assert_eq!(g.pixels.len(), 6);
    assert!(g.set(2, 1, RED));
    assert!(!g.set(3, 1, RED));
    assert_eq!(g.get(2, 1), Some(RED));
    assert_eq!(g.pixels[5], RED);
    assert_eq!(g.get(0, 2), None);
}

#[test]
fn accepted_extensions() {
    for ext in ["jpg", "png", "bmp", "tif"] {
        assert!(valid_extension(ext));
    }
    for ext in ["", "jpeg", "PNG", "gif", "tiff", "pn", "tif "] {
        assert!(!valid_extension(ext));
    }
}
