use wonfy_tools::builder::ImageStitcherBuilder;
use wonfy_tools::error::StitchError;
use wonfy_tools::params::{CheckDirection, MatchMode, Order, Position};
use wonfy_tools::raster::{Raster, Rgba};
use wonfy_tools::stitcher::ImageStitcher;

fn solid(width: u32, height: u32, color: Rgba) -> Raster {
    Raster::from_raw(width, height, vec![color; (width * height) as usize]).unwrap()
}

const RED: Rgba = [255, 0, 0, 255];
const GREEN: Rgba = [0, 255, 0, 255];
const BLUE: Rgba = [0, 0, 255, 255];

#[test]
fn three_solid_images_ordered_vertical() {
    let images = vec![solid(10, 10, RED), solid(10, 10, GREEN), solid(10, 10, BLUE)];
    let stitcher = ImageStitcher::new(images, Order::Ordered, CheckDirection::Vertical, 2, MatchMode::Normal, 0);
    let (image, positions) = stitcher.stitch().unwrap();
    assert_eq!(image.width(), 10);
    assert_eq!(image.height(), 26);
    assert_eq!(positions.len(), 2);
    assert_eq!(positions[0], Position { x: 0, y: 16 });
    assert_eq!(positions[1], Position { x: 0, y: 8 });
    assert_eq!(image.get_pixel(5, 0), RED);
    assert_eq!(image.get_pixel(5, 7), RED);
    assert_eq!(image.get_pixel(5, 8), GREEN);
    assert_eq!(image.get_pixel(5, 15), GREEN);
    assert_eq!(image.get_pixel(5, 16), BLUE);
    assert_eq!(image.get_pixel(9, 25), BLUE);
}

#[test]
fn unordered_run_merges_n_minus_one_times() {
    let images = vec![solid(6, 6, RED), solid(6, 6, GREEN), solid(6, 6, BLUE), solid(6, 6, RED)];
    let stitcher = ImageStitcher::new(images, Order::Unordered, CheckDirection::Vertical, 2, MatchMode::Normal, 0);
    let (_, positions) = stitcher.stitch().unwrap();
    assert_eq!(positions.len(), 3);
}

#[test]
fn unordered_run_of_two_images() {
    let images = vec![solid(4, 5, RED), solid(4, 5, GREEN)];
    let stitcher = ImageStitcher::new(images, Order::Unordered, CheckDirection::Horizontal, 1, MatchMode::Edges, 0);
    let (image, positions) = stitcher.stitch().unwrap();
    assert_eq!(positions.len(), 1);
    assert_eq!(image.height(), 5);
}

#[test]
fn too_few_images_is_an_error() {
    let stitcher = ImageStitcher::new(vec![solid(4, 4, RED)], Order::Ordered, CheckDirection::Vertical, 2, MatchMode::Normal, 0);
    assert_eq!(stitcher.stitch().unwrap_err(), StitchError::TooFewImages);
    let stitcher = ImageStitcher::new(vec![], Order::Unordered, CheckDirection::Vertical, 2, MatchMode::Normal, 0);
    assert_eq!(stitcher.stitch().unwrap_err(), StitchError::TooFewImages);
}

#[test]
fn window_taller_than_images_is_an_error() {
    let images = vec![solid(4, 3, RED), solid(4, 3, GREEN)];
    let stitcher = ImageStitcher::new(images, Order::Ordered, CheckDirection::Vertical, 4, MatchMode::Normal, 0);
    assert_eq!(stitcher.stitch().unwrap_err(), StitchError::NotEnoughRows);
}

#[test]
fn empty_window_is_an_error() {
    let images = vec![solid(4, 3, RED), solid(4, 3, GREEN)];
    let stitcher = ImageStitcher::new(images, Order::Unordered, CheckDirection::Vertical, 0, MatchMode::Normal, 0);
    assert_eq!(stitcher.stitch().unwrap_err(), StitchError::NotEnoughRows);
}

#[test]
fn sideways_crop_wider_than_images_is_an_error() {
    let images = vec![solid(3, 10, RED), solid(3, 10, GREEN)];
    let stitcher = ImageStitcher::new(images, Order::Ordered, CheckDirection::Sideways, 2, MatchMode::Normal, 3);
    assert_eq!(stitcher.stitch().unwrap_err(), StitchError::CropTooLarge);
}

#[test]
fn ordered_sideways_run() {
    let images = vec![solid(5, 8, RED), solid(5, 8, GREEN)];
    let stitcher = ImageStitcher::new(images, Order::Ordered, CheckDirection::Sideways, 2, MatchMode::Normal, 1);
    let (image, positions) = stitcher.stitch().unwrap();
    assert_eq!(positions.len(), 1);
    assert!(image.width() >= 4);
}

#[test]
fn builder_reports_first_missing_field() {
    let err = ImageStitcherBuilder::new().build().unwrap_err();
    assert_eq!(err.0, "images");
    let err = ImageStitcherBuilder::new().images(vec![]).build().unwrap_err();
    assert_eq!(err.0, "order");
    let err = ImageStitcherBuilder::new().images(vec![]).order(Order::Ordered).build().unwrap_err();
    assert_eq!(err.0, "direction");
    let err = ImageStitcherBuilder::new()
        .images(vec![])
        .order(Order::Ordered)
        .direction(CheckDirection::Vertical)
        .build()
        .unwrap_err();
    assert_eq!(err.0, "window_size");
    let err = ImageStitcherBuilder::new()
        .images(vec![])
        .order(Order::Ordered)
        .direction(CheckDirection::Vertical)
        .window_size(6)
        .build()
        .unwrap_err();
    assert_eq!(err.0, "match_mode");
}

#[test]
fn builder_defaults_crop_to_zero() {
    let stitcher = ImageStitcherBuilder::new()
        .images(vec![solid(2, 2, RED)])
        .order(Order::Unordered)
        .direction(CheckDirection::Horizontal)
        .window_size(6)
        .match_mode(MatchMode::Edges)
        .build()
        .unwrap();
    assert_eq!(stitcher.crop, 0);
    assert_eq!(stitcher.window_size, 6);
    assert_eq!(stitcher.order, Order::Unordered);
    let stitcher = ImageStitcherBuilder::new()
        .images(vec![])
        .order(Order::Ordered)
        .direction(CheckDirection::Vertical)
        .window_size(1)
        .match_mode(MatchMode::Normal)
        .crop(3)
        .build()
        .unwrap();
    assert_eq!(stitcher.crop, 3);
}

#[test]
fn ordered_positions_go_in_front() {
    let mut positions = vec![Position { x: 1, y: 2 }];
    ImageStitcher::add_to_positions_ordered(&mut positions, Position { x: 3, y: 4 }, false);
    assert_eq!(positions, vec![Position { x: 3, y: 4 }, Position { x: 1, y: 2 }]);
    ImageStitcher::add_to_positions_ordered(&mut positions, Position { x: 10, y: 20 }, true);
    assert_eq!(
        positions,
        vec![Position { x: 13, y: 24 }, Position { x: 11, y: 22 }, Position { x: 10, y: 20 }]
    );
    let mut empty = vec![];
    ImageStitcher::add_to_positions_ordered(&mut empty, Position { x: 5, y: 5 }, true);
    assert_eq!(empty, vec![Position { x: 5, y: 5 }]);
}

#[test]
fn unordered_records_move_with_their_image() {
    let mut records = vec![(0usize, Position { x: 1, y: 1 }), (1usize, Position { x: 2, y: 2 }), (7usize, Position { x: 3, y: 3 })];
    ImageStitcher::add_to_positions_unordered(&mut records, Position { x: 10, y: 20 }, false, 9, (0, 1));
    assert_eq!(
        records,
        vec![
            (9, Position { x: 1, y: 1 }),
            (9, Position { x: 12, y: 22 }),
            (7, Position { x: 3, y: 3 }),
            (9, Position { x: 10, y: 20 }),
        ]
    );
}

#[test]
fn default_builder_has_nothing_set() {
    let b = ImageStitcherBuilder::default();
    assert!(b.images.is_none() && b.order.is_none() && b.crop.is_none());
}
