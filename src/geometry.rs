use crate::raster::{lemma_from_fn_pixel, lemma_from_fn_wf, lemma_view_ext, raster_from_fn, Raster, RasterView};
use vstd::prelude::*;

verus! {

/// Margins, in pixels, trimmed from the four edges of an image.
#[derive(Debug, Clone, Copy, Default, PartialEq, Eq, Structural)]
pub struct ImageCrop {
    pub top: u32,
    pub bottom: u32,
    pub left: u32,
    pub right: u32,
}

/// `v` without the margins of `c`.
pub open spec fn cropped(v: RasterView, c: ImageCrop) -> RasterView {
    raster_from_fn(
        (v.width - c.left - c.right) as nat,
        (v.height - c.top - c.bottom) as nat,
        |x: int, y: int| v.pixel(x + c.left, y + c.top),
    )
}

/// `v` turned a quarter turn clockwise: column `x` of the result is row
/// `height - 1 - x` of `v`, read from left to right.
pub open spec fn rotated(v: RasterView) -> RasterView {
    raster_from_fn(v.height, v.width, |x: int, y: int| v.pixel(y, v.height - 1 - x))
}

pub proof fn lemma_mul_le(a: nat, b: nat, c: nat, d: nat)
    requires
        a <= c,
        b <= d,
    ensures
        a * b <= c * d,
{
    assert(a * b <= c * d) by (nonlinear_arith)
        requires a <= c, b <= d, 0 <= a, 0 <= b;
}

impl ImageCrop {
    pub open spec fn fits(self, width: int, height: int) -> bool {
        self.left + self.right <= width && self.top + self.bottom <= height
    }

    /// The margins that the image glued to this one's trimmed edges loses:
    /// top and bottom trade places, and so do left and right.
    pub fn reverse(self) -> (r: ImageCrop)
        ensures
            r.top == self.bottom,
            r.bottom == self.top,
            r.left == self.right,
            r.right == self.left,
    {
        ImageCrop { top: self.bottom, bottom: self.top, left: self.right, right: self.left }
    }

    /// A new image holding `image` without these margins.
    pub fn crop_image(&self, image: &Raster) -> (r: Raster)
        requires
            image.wf(),
            self.fits(image.width as int, image.height as int),
        ensures
            r.wf(),
            r@ == cropped(image@, *self),
    {
        let w: u32 = image.width - self.left - self.right;
        let h: u32 = image.height - self.top - self.bottom;
        let ghost target = cropped(image@, *self);
        let _len: usize = image.pixels.len();
        proof {
            lemma_mul_le(w as nat, h as nat, image.width as nat, image.height as nat);
        }
        let mut out = Raster::new(w, h);
        let mut y: u32 = 0;
        while y < h
            invariant
                image.wf(),
                self.fits(image.width as int, image.height as int),
                w == image.width - self.left - self.right,
                h == image.height - self.top - self.bottom,
                target == cropped(image@, *self),
                out.wf(),
                out.width == w,
                out.height == h,
                y <= h,
                forall|i: int, j: int| #![auto] out@.in_bounds(i, j) && j < y ==> out@.pixel(i, j)
                    == image@.pixel(i + self.left, j + self.top),
            decreases h - y,
        {
            let mut x: u32 = 0;
            while x < w
                invariant
                    image.wf(),
                    self.fits(image.width as int, image.height as int),
                    w == image.width - self.left - self.right,
                    h == image.height - self.top - self.bottom,
                    out.wf(),
                    out.width == w,
                    out.height == h,
                    y < h,
                    x <= w,
                    forall|i: int, j: int| #![auto] out@.in_bounds(i, j) && (j < y || (j == y && i < x))
                        ==> out@.pixel(i, j) == image@.pixel(i + self.left, j + self.top),
                decreases w - x,
            {
                let p = image.get_pixel(x + self.left, y + self.top);
                out.put_pixel(x, y, p);
                x = x + 1;
            }
            y = y + 1;
        }
        proof {
            assert forall|i: int, j: int| out@.in_bounds(i, j) implies out@.pixel(i, j) == target.pixel(i, j) by {
                lemma_from_fn_pixel(target.width, target.height, |x: int, y: int| image@.pixel(x + self.left, y + self.top), i, j);
            }
            lemma_from_fn_wf(target.width, target.height, |x: int, y: int| image@.pixel(x + self.left, y + self.top));
            lemma_view_ext(out@, target);
        }
        out
    }
}

/// A new image holding `image` turned a quarter turn clockwise.
pub fn rotate90(image: &Raster) -> (r: Raster)
    requires
        image.wf(),
    ensures
        r.wf(),
        r@ == rotated(image@),
{
    let w: u32 = image.height;
    let h: u32 = image.width;
    let ghost target = rotated(image@);
    let _len: usize = image.pixels.len();
    proof {
        assert(w * h == h * w) by (nonlinear_arith);
    }
    let mut out = Raster::new(w, h);
    let mut y: u32 = 0;
    while y < h
        invariant
            image.wf(),
            w == image.height,
            h == image.width,
            out.wf(),
            out.width == w,
            out.height == h,
            y <= h,
            forall|i: int, j: int| #![auto] out@.in_bounds(i, j) && j < y ==> out@.pixel(i, j)
                == image@.pixel(j, image.height - 1 - i),
        decreases h - y,
    {
        let mut x: u32 = 0;
        while x < w
            invariant
                image.wf(),
                w == image.height,
                h == image.width,
                out.wf(),
                out.width == w,
                out.height == h,
                y < h,
                x <= w,
                forall|i: int, j: int| #![auto] out@.in_bounds(i, j) && (j < y || (j == y && i < x))
                    ==> out@.pixel(i, j) == image@.pixel(j, image.height - 1 - i),
            decreases w - x,
        {
            let p = image.get_pixel(y, w - 1 - x);
            out.put_pixel(x, y, p);
            x = x + 1;
        }
        y = y + 1;
    }
    proof {
        let f = |x: int, y: int| image@.pixel(y, image.height - 1 - x);
        assert forall|i: int, j: int| out@.in_bounds(i, j) implies out@.pixel(i, j) == target.pixel(i, j) by {
            lemma_from_fn_pixel(target.width, target.height, f, i, j);
        }
        lemma_from_fn_wf(target.width, target.height, f);
        lemma_view_ext(out@, target);
    }
    out
}

} // verus!
