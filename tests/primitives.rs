use wonfy_tools::dhash::DHash;
use wonfy_tools::edges::edge_detection;
use wonfy_tools::encode_format::EncodeFormat;
use wonfy_tools::overlap::reflect_iter_map;
use wonfy_tools::padded_iter::{PadExt, PaddedIter, PaddingSide};
use wonfy_tools::parsing::parse_first_number;
use wonfy_tools::raster::{Raster, Rgba};
use wonfy_tools::windows_iter::{IterWindows, Windows};

#[test]
fn padded_iter_front_and_back() {
    let mut it = PaddedIter::new(vec![1, 2, 3], 0, 2, PaddingSide::Start);
    assert_eq!(it.size_hint(), (5, Some(5)));
    assert_eq!(it.next(), Some(0));
    assert_eq!(it.next_back(), Some(3));
    assert_eq!(it.next(), Some(0));
    assert_eq!(it.next(), Some(1));
    assert_eq!(it.next(), Some(2));
    assert_eq!(it.next(), None);
    assert_eq!(it.next_back(), None);
    let mut it = vec![7, 8].pad_end(9, 1);
    assert_eq!(it.next_back(), Some(9));
    assert_eq!(it.next_back(), Some(8));
    assert_eq!(it.next(), Some(7));
    assert_eq!(it.next(), None);
    let mut it = vec![4].pad_start(5, 0);
    assert_eq!(it.next(), Some(4));
    assert_eq!(it.next(), None);
}

#[test]
fn windows_slide_one_step() {
    let mut w = Windows::new(vec![1, 2, 3, 4], 2);
    assert_eq!(w.next(), Some(vec![1, 2]));
    assert_eq!(w.next(), Some(vec![2, 3]));
    assert_eq!(w.next(), Some(vec![3, 4]));
    assert_eq!(w.next(), None);
    let mut short = vec![1, 2].windows(3);
    assert_eq!(short.size_hint(), (0, Some(0)));
    assert_eq!(short.next(), None);
    let mut w = vec![1].windows(2);
    assert_eq!(w.size_hint(), (0, Some(0)));
    assert_eq!(w.next(), None);
    let mut exact = vec![4, 5, 6].windows(3);
    assert_eq!(exact.size_hint(), (1, Some(1)));
    assert_eq!(exact.next(), Some(vec![4, 5, 6]));
    assert_eq!(exact.next(), None);
    let mut empty = Vec::<u8>::new().windows(1);
    assert_eq!(empty.next(), None);
}

fn solid(width: u32, height: u32, color: Rgba) -> Raster {
    Raster::from_raw(width, height, vec![color; (width * height) as usize]).unwrap()
}

#[test]
fn flat_image_has_no_edges() {
    let out = edge_detection(&solid(5, 4, [12, 200, 7, 255]));
    assert_eq!((out.width(), out.height()), (5, 4));
    for y in 0..4 {
        for x in 0..5 {
            assert_eq!(out.get_pixel(x, y), [0, 0, 0, 255]);
        }
    }
}

#[test]
fn edges_follow_luma_gradient() {
    // columns: black, red (luma 54), white (luma 255)
    let row: Vec<Rgba> = vec![[0, 0, 0, 255], [255, 0, 0, 255], [255, 255, 255, 255]];
    let mut pixels = Vec::new();
    for _ in 0..3 {
        pixels.extend(row.iter().copied());
    }
    let out = edge_detection(&Raster::from_raw(3, 3, pixels).unwrap());
    for y in 0..3 {
        assert_eq!(out.get_pixel(0, y), [54, 54, 54, 255]);
        assert_eq!(out.get_pixel(1, y), [255, 255, 255, 255]);
        assert_eq!(out.get_pixel(2, y), [201, 201, 201, 255]);
    }
}

#[test]
fn first_number_in_text() {
    assert_eq!(parse_first_number("img_0042_v7.png"), Some(42));
    assert_eq!(parse_first_number("123"), Some(123));
    assert_eq!(parse_first_number("no digits"), None);
    assert_eq!(parse_first_number(""), None);
    assert_eq!(parse_first_number("x18446744073709551615y"), Some(u64::MAX));
    assert_eq!(parse_first_number("x18446744073709551616y"), None);
    assert_eq!(parse_first_number("a99999999999999999999999 5"), None);
}

#[test]
fn reflect_mirrors_around_first_item() {
    assert_eq!(reflect_iter_map(vec![1, 2, 3], |x: i32| x * 10), vec![30, 20, 1, 2, 3]);
    assert_eq!(reflect_iter_map(vec![5], |x: i32| x + 1), vec![5]);
    assert_eq!(reflect_iter_map(Vec::<i32>::new(), |x: i32| x), Vec::<i32>::new());
}

#[test]
fn dhash_of_flat_and_graded_images() {
    let flat = vec![100u8; 18 * 8 * 3];
    let h = DHash::new(&flat, 18, 8, 3);
    assert_eq!(h.hash, 0);
    // each row darkens from left to right: every cell is brighter than its right neighbour
    let mut graded = Vec::new();
    for _ in 0..8 {
        for x in 0..9u8 {
            graded.push(250 - 20 * x);
        }
    }
    let g = DHash::new(&graded, 9, 8, 1);
    assert_eq!(g.hash, u64::MAX);
    assert_eq!(h.hamming_distance(&g), 64);
    assert_eq!(g.hamming_distance(&g), 0);
    assert_eq!(DHash { hash: 0b1011 }.hamming_distance(&DHash { hash: 0b0001 }), 2);
}

#[test]
fn encode_format_names() {
    assert_eq!(EncodeFormat::Png.content_type(), "image/png");
    assert_eq!(EncodeFormat::Jpeg.content_type(), "image/jpeg");
    assert_eq!(EncodeFormat::Gif.file_extension(), "gif");
    assert_eq!(EncodeFormat::WebP.file_extension(), "webp");
    assert_eq!(EncodeFormat::WebP.content_type(), "image/webp");
}

#[test]
fn dhash_without_channels_reads_nothing() {
    assert_eq!(DHash::new(&[], 18, 8, 0).hash, 0);
}

#[test]
fn dhash_equality_tolerates_ten_bits() {
    assert!(DHash { hash: 0 } == DHash { hash: 0b11_1111_1111 });
    assert!(DHash { hash: 0 } != DHash { hash: 0b111_1111_1111 });
    assert!(DHash { hash: u64::MAX } == DHash { hash: u64::MAX });
}
