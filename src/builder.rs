use crate::error::MissingFieldError;
use crate::params::{CheckDirection, MatchMode, Order};
use crate::raster::Raster;
use crate::stitcher::ImageStitcher;
use vstd::prelude::*;

verus! {

/// Collects the settings of an `ImageStitcher`; `build` checks that every
/// required one was given.
#[derive(Debug)]
pub struct ImageStitcherBuilder {
    pub images: Option<Vec<Raster>>,
    pub order: Option<Order>,
    pub direction: Option<CheckDirection>,
    pub window_size: Option<usize>,
    pub match_mode: Option<MatchMode>,
    pub crop: Option<u32>,
}

impl Default for ImageStitcherBuilder {
    fn default() -> (r: ImageStitcherBuilder)
        ensures
            r.images is None,
            r.order is None,
            r.direction is None,
            r.window_size is None,
            r.match_mode is None,
            r.crop is None,
    {
        ImageStitcherBuilder::new()
    }
}

impl ImageStitcherBuilder {
    /// A builder with no setting given.
    pub fn new() -> (r: ImageStitcherBuilder)
        ensures
            r.images is None,
            r.order is None,
            r.direction is None,
            r.window_size is None,
            r.match_mode is None,
            r.crop is None,
    {
        ImageStitcherBuilder { images: None, order: None, direction: None, window_size: None, match_mode: None, crop: None }
    }

    pub fn images(self, images: Vec<Raster>) -> (r: ImageStitcherBuilder)
        ensures
            r == (ImageStitcherBuilder { images: Some(images), ..self }),
    {
        ImageStitcherBuilder { images: Some(images), ..self }
    }

    pub fn order(self, order: Order) -> (r: ImageStitcherBuilder)
        ensures
            r == (ImageStitcherBuilder { order: Some(order), ..self }),
    {
        ImageStitcherBuilder { order: Some(order), ..self }
    }

    pub fn direction(self, direction: CheckDirection) -> (r: ImageStitcherBuilder)
        ensures
            r == (ImageStitcherBuilder { direction: Some(direction), ..self }),
    {
        ImageStitcherBuilder { direction: Some(direction), ..self }
    }

    pub fn window_size(self, window_size: usize) -> (r: ImageStitcherBuilder)
        ensures
            r == (ImageStitcherBuilder { window_size: Some(window_size), ..self }),
    {
        ImageStitcherBuilder { window_size: Some(window_size), ..self }
    }

    pub fn match_mode(self, match_mode: MatchMode) -> (r: ImageStitcherBuilder)
        ensures
            r == (ImageStitcherBuilder { match_mode: Some(match_mode), ..self }),
    {
        ImageStitcherBuilder { match_mode: Some(match_mode), ..self }
    }

    pub fn crop(self, crop: u32) -> (r: ImageStitcherBuilder)
        ensures
            r == (ImageStitcherBuilder { crop: Some(crop), ..self }),
    {
        ImageStitcherBuilder { crop: Some(crop), ..self }
    }

    /// The stitcher, or the first of images, order, direction, window size
    /// and match mode that was not given. The crop margin defaults to zero.
    pub fn build(self) -> (r: Result<ImageStitcher, MissingFieldError>)
        ensures
            self.images is None ==> (r matches Err(e) && e.0@ == "images"@),
            self.images is Some && self.order is None ==> (r matches Err(e) && e.0@ == "order"@),
            self.images is Some && self.order is Some && self.direction is None ==> (r matches Err(e) && e.0@
                == "direction"@),
            self.images is Some && self.order is Some && self.direction is Some && self.window_size is None
                ==> (r matches Err(e) && e.0@ == "window_size"@),
            self.images is Some && self.order is Some && self.direction is Some && self.window_size is Some
                && self.match_mode is None ==> (r matches Err(e) && e.0@ == "match_mode"@),
            r matches Ok(s) ==> {
                &&& self.images matches Some(images) && s.images@ == images@
                &&& self.order == Some(s.order)
                &&& self.direction == Some(s.direction)
                &&& self.window_size == Some(s.window_size)
                &&& self.match_mode == Some(s.match_mode)
                &&& s.crop == match self.crop {
                    Some(c) => c,
                    None => 0u32,
                }
            },
            r is Ok <==> self.images is Some && self.order is Some && self.direction is Some && self.window_size is Some
                && self.match_mode is Some,
    {
        let images = match self.images {
            Some(v) => v,
            None => return Err(MissingFieldError("images".to_owned())),
        };
        let order = match self.order {
            Some(v) => v,
            None => return Err(MissingFieldError("order".to_owned())),
        };
        let direction = match self.direction {
            Some(v) => v,
            None => return Err(MissingFieldError("direction".to_owned())),
        };
        let window_size = match self.window_size {
            Some(v) => v,
            None => return Err(MissingFieldError("window_size".to_owned())),
        };
        let match_mode = match self.match_mode {
            Some(v) => v,
            None => return Err(MissingFieldError("match_mode".to_owned())),
        };
        let crop = match self.crop {
            Some(v) => v,
            None => 0,
        };
        Ok(ImageStitcher::new(images, order, direction, window_size, match_mode, crop))
    }
}

} // verus!
