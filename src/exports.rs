use crate::params::Position;
use vstd::prelude::*;

verus! {

/// How a preview of the composite is sized: scaled by a factor, or held to
/// a width or a height.
#[derive(Debug, Clone, Copy, PartialEq, Eq, Structural)]
pub enum PreviewType {
    Resize,
    MaxWidth,
    MaxHeight,
}

/// An encoded composite with its size and the positions of its merges.
#[derive(Debug, Clone)]
pub struct StitchedImage {
    pub image: Vec<u8>,
    pub stitch_positions: Vec<Position>,
    pub width: u32,
    pub height: u32,
}

impl StitchedImage {
    pub fn new(image: Vec<u8>, width: u32, height: u32, stitch_positions: Vec<Position>) -> (r: StitchedImage)
        ensures
            r.image@ == image@,
            r.width == width,
            r.height == height,
            r.stitch_positions@ == stitch_positions@,
    {
        StitchedImage { image, stitch_positions, width, height }
    }
}

/// A composite and, when one was asked for, its preview.
#[derive(Debug, Clone)]
pub struct StitchReturn(pub StitchedImage, pub Option<StitchedImage>);

impl StitchReturn {
    pub fn new(image: StitchedImage, image_preview: Option<StitchedImage>) -> (r: StitchReturn)
        ensures
            r.0 == image,
            r.1 == image_preview,
    {
        StitchReturn(image, image_preview)
    }
}

} // verus!
