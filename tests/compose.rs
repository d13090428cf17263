use wonfy_tools::compose::{check_stitch, stack_images_with_overlap, stitch_images};
use wonfy_tools::error::StitchError;
use wonfy_tools::geometry::{rotate90, ImageCrop};
use wonfy_tools::params::{CheckDirection, Position};
use wonfy_tools::raster::{Raster, Rgba};

fn solid(width: u32, height: u32, color: Rgba) -> Raster {
    Raster::from_raw(width, height, vec![color; (width * height) as usize]).unwrap()
}

const RED: Rgba = [255, 0, 0, 255];
const BLUE: Rgba = [0, 0, 255, 255];
const CLEAR: Rgba = [0, 0, 0, 0];

#[test]
fn overlap_keeps_the_second_image() {
    let top = solid(4, 4, RED);
    let bottom = solid(4, 4, BLUE);
    let out = stack_images_with_overlap(&top, &bottom, &Position { x: 0, y: 2 }, false);
    assert_eq!((out.width(), out.height()), (4, 6));
    for y in 0..6 {
        for x in 0..4 {
            let expected = if y < 2 { RED } else { BLUE };
            assert_eq!(out.get_pixel(x, y), expected);
        }
    }
}

#[test]
fn flipped_roles_draw_the_first_argument_last() {
    let a = solid(3, 3, RED);
    let b = solid(3, 3, BLUE);
    let out = stack_images_with_overlap(&a, &b, &Position { x: 0, y: 1 }, true);
    assert_eq!(out.height(), 4);
    assert_eq!(out.get_pixel(0, 0), BLUE);
    assert_eq!(out.get_pixel(0, 1), RED);
    assert_eq!(out.get_pixel(0, 3), RED);
}

#[test]
fn negative_offsets_shift_the_first_image() {
    let top = solid(2, 2, RED);
    let bottom = solid(3, 1, BLUE);
    let out = stack_images_with_overlap(&top, &bottom, &Position { x: -1, y: -1 }, false);
    assert_eq!((out.width(), out.height()), (3, 3));
    assert_eq!(out.get_pixel(0, 0), BLUE);
    assert_eq!(out.get_pixel(2, 0), BLUE);
    assert_eq!(out.get_pixel(0, 1), CLEAR);
    assert_eq!(out.get_pixel(1, 1), RED);
    assert_eq!(out.get_pixel(2, 2), RED);
}

#[test]
fn canvas_never_smaller_than_first_image() {
    let top = solid(5, 4, RED);
    let bottom = solid(2, 2, BLUE);
    for (x, y) in [(0, 0), (1, 1), (-1, 0), (0, -3), (3, 2), (-6, -5), (6, 5)] {
        let out = stack_images_with_overlap(&top, &bottom, &Position { x, y }, false);
        assert!(out.width() >= 5);
        assert!(out.height() >= 4);
    }
}

#[test]
fn canvas_size_formula() {
    let top = solid(5, 4, RED);
    let bottom = solid(2, 2, BLUE);
    let out = stack_images_with_overlap(&top, &bottom, &Position { x: 4, y: 3 }, false);
    assert_eq!((out.width(), out.height()), (6, 5));
    let out = stack_images_with_overlap(&top, &bottom, &Position { x: -2, y: -1 }, false);
    assert_eq!((out.width(), out.height()), (7, 5));
}

#[test]
fn stitch_crops_the_glued_edges() {
    let a = solid(4, 5, RED);
    let b = solid(4, 5, BLUE);
    let out = stitch_images(&a, &b, &Position { x: 0, y: 3 }, false, 1, CheckDirection::Vertical);
    assert_eq!((out.width(), out.height()), (4, 7));
    assert_eq!(out.get_pixel(0, 2), RED);
    assert_eq!(out.get_pixel(0, 3), BLUE);
    let out = stitch_images(&a, &b, &Position { x: 2, y: 0 }, false, 1, CheckDirection::Horizontal);
    assert_eq!((out.width(), out.height()), (5, 5));
}

#[test]
fn stitch_preconditions_are_reported() {
    let a = solid(4, 5, RED);
    let b = solid(4, 5, BLUE);
    assert_eq!(check_stitch(&a, &b, &Position { x: 0, y: 3 }, false, 1, CheckDirection::Vertical), Ok(()));
    assert_eq!(
        check_stitch(&a, &b, &Position { x: 0, y: 8 }, false, 1, CheckDirection::Vertical),
        Err(StitchError::OffsetOutOfRange)
    );
    assert_eq!(
        check_stitch(&a, &b, &Position { x: 0, y: 1 }, false, 6, CheckDirection::Vertical),
        Err(StitchError::CropTooLarge)
    );
}

#[test]
fn crop_margins_and_their_mirror() {
    let c = ImageCrop { top: 1, bottom: 2, left: 3, right: 4 };
    assert_eq!(c.reverse(), ImageCrop { top: 2, bottom: 1, left: 4, right: 3 });
    let mut pixels = Vec::new();
    for i in 0..12u8 {
        pixels.push([i, 0, 0, 255]);
    }
    let image = Raster::from_raw(4, 3, pixels).unwrap();
    let out = ImageCrop { top: 1, bottom: 0, left: 1, right: 1 }.crop_image(&image);
    assert_eq!((out.width(), out.height()), (2, 2));
    assert_eq!(out.get_pixel(0, 0)[0], 5);
    assert_eq!(out.get_pixel(1, 1)[0], 10);
}

#[test]
fn quarter_turn_clockwise() {
    let mut pixels = Vec::new();
    for i in 0..6u8 {
        pixels.push([i, 0, 0, 255]);
    }
    // 3 wide, 2 high: row 0 = 0 1 2, row 1 = 3 4 5
    let image = Raster::from_raw(3, 2, pixels).unwrap();
    let out = rotate90(&image);
    assert_eq!((out.width(), out.height()), (2, 3));
    // column 0 of the result is row 1 of the input, top to bottom
    assert_eq!(out.get_pixel(0, 0)[0], 3);
    assert_eq!(out.get_pixel(1, 0)[0], 0);
    assert_eq!(out.get_pixel(0, 2)[0], 5);
    assert_eq!(out.get_pixel(1, 2)[0], 2);
}
