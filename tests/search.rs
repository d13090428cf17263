use wonfy_tools::params::{CheckDirection, MatchMode, Order, Position};
use wonfy_tools::raster::Raster;
use wonfy_tools::scoring::{check_search, find_stitch_region, pixel_as_value, row_diff_score};
use wonfy_tools::compose::stitch_images;
use wonfy_tools::error::StitchError;

/// Rows of distinct grey levels: row `r` has level `step * r + base`.
fn ramp(width: u32, height: u32, base: u8, step: u8) -> Raster {
    let mut pixels = Vec::new();
    for y in 0..height {
        for _ in 0..width {
            let v = base + step * y as u8;
            pixels.push([v, v, v, 255]);
        }
    }
    Raster::from_raw(width, height, pixels).unwrap()
}

#[test]
fn identical_images_match_at_full_score() {
    let a = ramp(4, 6, 0, 20);
    let b = ramp(4, 6, 0, 20);
    let found = find_stitch_region(&a, &b, CheckDirection::Vertical, Order::Ordered, 2, MatchMode::Normal, 0, None);
    assert_eq!(found.score, u64::MAX / 2);
    assert_eq!(found.position, Position { x: 0, y: 0 });
    assert!(!found.flipped);
}

#[test]
fn identical_images_unordered_flip_on_tie() {
    let a = ramp(4, 6, 0, 20);
    let b = ramp(4, 6, 0, 20);
    let found = find_stitch_region(&a, &b, CheckDirection::Vertical, Order::Unordered, 3, MatchMode::Normal, 0, None);
    assert_eq!(found.score, u64::MAX / 3);
    assert!(found.flipped);
}

#[test]
fn identical_images_horizontal_and_sideways() {
    let a = ramp(5, 5, 10, 30);
    let found = find_stitch_region(&a, &a.clone(), CheckDirection::Horizontal, Order::Ordered, 2, MatchMode::Normal, 0, None);
    assert_eq!(found.score, u64::MAX / 2);
    assert_eq!(found.position.y, 0);
    let found = find_stitch_region(&a, &a.clone(), CheckDirection::Sideways, Order::Ordered, 2, MatchMode::Normal, 0, None);
    assert_eq!(found.score, u64::MAX / 2);
    assert_eq!(found.position, Position { x: 0, y: 0 });
}

#[test]
fn search_finds_the_shifted_rows() {
    let a = ramp(3, 8, 0, 10);
    let b = ramp(3, 4, 30, 10);
    let found = find_stitch_region(&a, &b, CheckDirection::Vertical, Order::Ordered, 2, MatchMode::Normal, 0, None);
    assert_eq!(found.position, Position { x: 0, y: 3 });
    assert_eq!(found.score, u64::MAX / 2);
}

#[test]
fn window_score_formula() {
    let a = ramp(2, 2, 0, 0);
    let b = ramp(2, 2, 9, 0);
    let found = find_stitch_region(&a, &b, CheckDirection::Vertical, Order::Ordered, 1, MatchMode::Normal, 0, None);
    assert_eq!(found.score, u64::MAX - 18);
    assert_eq!(found.position, Position { x: 0, y: 1 });
}

#[test]
fn skip_bound_starts_the_search_later() {
    let a = ramp(3, 8, 0, 10);
    let b = ramp(3, 4, 0, 10);
    let found = find_stitch_region(&a, &b, CheckDirection::Vertical, Order::Ordered, 2, MatchMode::Normal, 0, Some(Position { x: 0, y: 2 }));
    assert_eq!(found.position.y, 2);
    assert!(found.score < u64::MAX / 2);
}

#[test]
fn round_trip_recovers_the_offset() {
    let a = ramp(4, 6, 0, 10);
    let b = ramp(4, 5, 100, 7);
    let composite = stitch_images(&a, &b, &Position { x: 0, y: 3 }, false, 0, CheckDirection::Vertical);
    assert_eq!(composite.height(), 8);
    let found = find_stitch_region(&composite, &b, CheckDirection::Vertical, Order::Ordered, 2, MatchMode::Normal, 0, None);
    assert_eq!(found.score, u64::MAX / 2);
    assert_eq!(found.position, Position { x: 0, y: 3 });
}

#[test]
fn pixel_intensity_drops_alpha() {
    assert_eq!(pixel_as_value([30, 60, 90, 200]), 60);
    assert_eq!(pixel_as_value([255, 255, 254, 0]), 254);
}

#[test]
fn row_difference_with_shift() {
    let r1 = vec![10u64, 20, 30];
    let r2 = vec![10u64, 20, 30];
    assert_eq!(row_diff_score(&r1, &r2, 0), 0);
    // shift 1: [10, 20, 30, 0] against [0, 10, 20, 30]
    assert_eq!(row_diff_score(&r1, &r2, 1), 10 + 10 + 10 + 30);
    // shift -1: [0, 10, 20, 30] against [10, 20, 30, 0]
    assert_eq!(row_diff_score(&r1, &r2, -1), 10 + 10 + 10 + 30);
    let short = vec![5u64];
    assert_eq!(row_diff_score(&r1, &short, 0), 5);
}

#[test]
fn search_preconditions_are_reported() {
    let a = ramp(3, 3, 0, 10);
    assert_eq!(check_search(&a, &a, CheckDirection::Vertical, 4, 0), Err(StitchError::NotEnoughRows));
    assert_eq!(check_search(&a, &a, CheckDirection::Vertical, 2, 2), Err(StitchError::NotEnoughRows));
    assert_eq!(check_search(&a, &a, CheckDirection::Sideways, 1, 2), Ok(()));
    let narrow = ramp(2, 8, 0, 10);
    assert_eq!(check_search(&narrow, &narrow, CheckDirection::Sideways, 2, 2), Err(StitchError::CropTooLarge));
}

#[test]
fn round_trip_with_crop_margin() {
    let a = ramp(4, 6, 0, 10);
    let b = ramp(4, 7, 100, 7);
    let composite = stitch_images(&a, &b, &Position { x: 0, y: 3 }, false, 1, CheckDirection::Vertical);
    assert_eq!(composite.height(), 9);
    let found = find_stitch_region(&composite, &b, CheckDirection::Vertical, Order::Ordered, 2, MatchMode::Normal, 1, None);
    assert_eq!(found.score, u64::MAX / 2);
    assert_eq!(found.position, Position { x: 0, y: 3 });
}

#[test]
fn round_trip_with_negative_offset() {
    let a = ramp(4, 6, 0, 10);
    let b = ramp(4, 7, 100, 7);
    let composite = stitch_images(&a, &b, &Position { x: 0, y: -2 }, false, 1, CheckDirection::Vertical);
    assert_eq!(composite.height(), 7);
    let found = find_stitch_region(&composite, &b, CheckDirection::Vertical, Order::Ordered, 2, MatchMode::Normal, 1, None);
    assert_eq!(found.score, u64::MAX / 2);
    assert_eq!(found.position, Position { x: 0, y: 0 });
}
