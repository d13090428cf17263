use vstd::arithmetic::div_mod::lemma_fundamental_div_mod_converse;
use vstd::prelude::*;

verus! {

/// One RGBA pixel: red, green, blue, alpha.
pub type Rgba = [u8; 4];

/// The mathematical model of a raster image: its size and its pixels in
/// row-major order.
pub struct RasterView {
    pub width: nat,
    pub height: nat,
    pub pixels: Seq<Rgba>,
}

impl RasterView {
    pub open spec fn wf(self) -> bool {
        self.pixels.len() == self.width * self.height
    }

    pub open spec fn in_bounds(self, x: int, y: int) -> bool {
        0 <= x < self.width && 0 <= y < self.height
    }

    pub open spec fn pixel(self, x: int, y: int) -> Rgba {
        self.pixels[y * self.width + x]
    }
}

/// A fully transparent black pixel.
pub open spec fn blank() -> Rgba {
    [0u8, 0u8, 0u8, 0u8]
}

/// The image of the given size whose pixel at `(x, y)` is `f(x, y)`.
pub open spec fn raster_from_fn(width: nat, height: nat, f: spec_fn(int, int) -> Rgba) -> RasterView {
    RasterView {
        width,
        height,
        pixels: Seq::new(width * height, |i: int| f(i % (width as int), i / (width as int))),
    }
}

pub proof fn lemma_index_bounds(width: nat, height: nat, x: int, y: int)
    requires
        0 <= x < width,
        0 <= y < height,
    ensures
        0 <= y * width + x < width * height,
{
    assert(0 <= y * width) by (nonlinear_arith)
        requires 0 <= y, 0 <= width;
    assert(y * width + x < width * height) by (nonlinear_arith)
        requires 0 <= x < width, 0 <= y < height;
}

pub proof fn lemma_index_decompose(width: nat, x: int, y: int)
    requires
        0 <= x < width,
        0 <= y,
    ensures
        (y * width + x) / (width as int) == y,
        (y * width + x) % (width as int) == x,
{
    lemma_fundamental_div_mod_converse(y * width + x, width as int, y, x);
}

pub proof fn lemma_index_injective(width: nat, x1: int, y1: int, x2: int, y2: int)
    requires
        0 <= x1 < width,
        0 <= x2 < width,
        0 <= y1,
        0 <= y2,
        y1 * width + x1 == y2 * width + x2,
    ensures
        x1 == x2,
        y1 == y2,
{
    lemma_index_decompose(width, x1, y1);
    lemma_index_decompose(width, x2, y2);
}

pub proof fn lemma_from_fn_pixel(width: nat, height: nat, f: spec_fn(int, int) -> Rgba, x: int, y: int)
    requires
        0 <= x < width,
        0 <= y < height,
    ensures
        raster_from_fn(width, height, f).wf(),
        raster_from_fn(width, height, f).pixel(x, y) == f(x, y),
{
    lemma_index_bounds(width, height, x, y);
    lemma_index_decompose(width, x, y);
}

pub proof fn lemma_from_fn_wf(width: nat, height: nat, f: spec_fn(int, int) -> Rgba)
    ensures
        raster_from_fn(width, height, f).wf(),
{
}

/// Two views are equal when they agree on size and on every pixel.
pub proof fn lemma_view_ext(a: RasterView, b: RasterView)
    requires
        a.wf(),
        b.wf(),
        a.width == b.width,
        a.height == b.height,
        forall|x: int, y: int| a.in_bounds(x, y) ==> a.pixel(x, y) == b.pixel(x, y),
    ensures
        a == b,
{
    assert forall|i: int| 0 <= i < a.pixels.len() implies a.pixels[i] == b.pixels[i] by {
        let x = i % (a.width as int);
        let y = i / (a.width as int);
        assert(a.width > 0) by (nonlinear_arith)
            requires a.pixels.len() == a.width * a.height, 0 <= i < a.pixels.len();
        vstd::arithmetic::div_mod::lemma_fundamental_div_mod(i, a.width as int);
        assert(y < a.height) by (nonlinear_arith)
            requires i == a.width * y + x, 0 <= x, i < a.width * a.height, a.width > 0;
        assert(y >= 0) by (nonlinear_arith)
            requires i == a.width * y + x, x < a.width, i >= 0, a.width > 0;
        assert(y * a.width == a.width * y) by (nonlinear_arith);
        assert(a.in_bounds(x, y));
    }
    assert(a.pixels =~= b.pixels);
}

/// An RGBA raster image held in row-major order, one array per pixel.
#[derive(Debug, Clone, PartialEq, Eq)]
pub struct Raster {
    pub width: u32,
    pub height: u32,
    pub pixels: Vec<Rgba>,
}

impl View for Raster {
    type V = RasterView;

    open spec fn view(&self) -> RasterView {
        RasterView { width: self.width as nat, height: self.height as nat, pixels: self.pixels@ }
    }
}

impl Raster {
    pub open spec fn wf(&self) -> bool {
        self@.wf()
    }

    /// A fully transparent black image of the given size.
    pub fn new(width: u32, height: u32) -> (r: Raster)
        requires
            width * height <= usize::MAX,
        ensures
            r.wf(),
            r.width == width,
            r.height == height,
            forall|x: int, y: int| r@.in_bounds(x, y) ==> r@.pixel(x, y) == blank(),
    {
        let n: usize = (width as usize) * (height as usize);
        let pixels: Vec<Rgba> = vec![[0u8, 0u8, 0u8, 0u8]; n];
        let r = Raster { width, height, pixels };
        proof {
            assert forall|x: int, y: int| r@.in_bounds(x, y) implies r@.pixel(x, y) == blank() by {
                lemma_index_bounds(r@.width, r@.height, x, y);
            }
        }
        r
    }

    /// Builds an image from its pixels in row-major order; `None` when their
    /// number is not `width * height`.
    pub fn from_raw(width: u32, height: u32, pixels: Vec<Rgba>) -> (r: Option<Raster>)
        ensures
            r is Some <==> pixels@.len() == width * height,
            r matches Some(img) ==> img.wf() && img.width == width && img.height == height
                && img.pixels@ == pixels@,
    {
        assert((width as u64) * (height as u64) <= u64::MAX) by (nonlinear_arith)
            requires width <= u32::MAX, height <= u32::MAX;
        let n: u64 = (width as u64) * (height as u64);
        if pixels.len() as u64 == n {
            Some(Raster { width, height, pixels })
        } else {
            None
        }
    }

    pub fn width(&self) -> (r: u32)
        ensures
            r == self.width,
    {
        self.width
    }

    pub fn height(&self) -> (r: u32)
        ensures
            r == self.height,
    {
        self.height
    }

    pub fn get_pixel(&self, x: u32, y: u32) -> (p: Rgba)
        requires
            self.wf(),
            x < self.width,
            y < self.height,
        ensures
            p == self@.pixel(x as int, y as int),
    {
        proof {
            lemma_index_bounds(self@.width, self@.height, x as int, y as int);
        }
        let _len: usize = self.pixels.len();
        assert(y * self.width + x < self.pixels@.len());
        let i: usize = (y as usize) * (self.width as usize) + (x as usize);
        self.pixels[i]
    }

    pub fn put_pixel(&mut self, x: u32, y: u32, p: Rgba)
        requires
            old(self).wf(),
            x < old(self).width,
            y < old(self).height,
        ensures
            final(self).wf(),
            final(self).width == old(self).width,
            final(self).height == old(self).height,
            forall|i: int, j: int| #![auto] final(self)@.in_bounds(i, j) ==> final(self)@.pixel(i, j)
                == if i == x && j == y { p } else { old(self)@.pixel(i, j) },
    {
        proof {
            lemma_index_bounds(self@.width, self@.height, x as int, y as int);
        }
        let _len: usize = self.pixels.len();
        assert(y * self.width + x < self.pixels@.len());
        let i: usize = (y as usize) * (self.width as usize) + (x as usize);
        self.pixels.set(i, p);
        proof {
            assert forall|a: int, b: int| #![auto] self@.in_bounds(a, b) implies self@.pixel(a, b)
                == if a == x && b == y { p } else { old(self)@.pixel(a, b) } by {
                lemma_index_bounds(self@.width, self@.height, a, b);
                if b * self@.width + a == y * self@.width + x {
                    lemma_index_injective(self@.width, a, b, x as int, y as int);
                }
            }
        }
    }

    /// A new image with the same size and pixels.
    pub fn copy(&self) -> (r: Raster)
        ensures
            r@ == self@,
    {
        let mut pixels: Vec<Rgba> = Vec::new();
        let mut i: usize = 0;
        while i < self.pixels.len()
            invariant
                i <= self.pixels@.len(),
                pixels@ == self.pixels@.subrange(0, i as int),
            decreases self.pixels@.len() - i,
        {
            pixels.push(self.pixels[i]);
            assert(pixels@ =~= self.pixels@.subrange(0, i + 1));
            i = i + 1;
        }
        assert(pixels@ =~= self.pixels@);
        Raster { width: self.width, height: self.height, pixels }
    }

    /// The pixels in row-major order.
    pub fn into_raw(self) -> (r: Vec<Rgba>)
        ensures
            r@ == self.pixels@,
    {
        self.pixels
    }
}

} // verus!
