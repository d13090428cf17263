use crate::raster::{lemma_from_fn_pixel, lemma_from_fn_wf, lemma_index_bounds, lemma_view_ext, raster_from_fn, Raster, RasterView, Rgba};
use vstd::prelude::*;

verus! {

/// Luma of one pixel, with the sRGB weights 0.2126, 0.7152 and 0.0722 in
/// integer arithmetic; alpha is ignored.
pub open spec fn luma(p: Rgba) -> u8 {
    ((2126 * p[0] + 7152 * p[1] + 722 * p[2]) / 10000) as u8
}

/// Relies on image::imageops::grayscale: one luma byte per pixel of an RGBA
/// buffer, in the same row-major order, computed as
/// `(2126 * r + 7152 * g + 722 * b) / 10000`.
#[verifier::external_body]
fn grayscale(image: &Raster) -> (r: Vec<u8>)
    requires
        image.wf(),
    ensures
        r@.len() == image@.pixels.len(),
        forall|i: int| 0 <= i < r@.len() ==> r@[i] == luma(image@.pixels[i]),
{
    let buffer = image::RgbaImage::from_raw(image.width, image.height, image.pixels.concat()).unwrap();
    image::imageops::grayscale(&buffer).into_raw()
}

/// `v` held inside `0..n`: the border sample repeats outside the image.
pub open spec fn clamp(v: int, n: int) -> int {
    if v < 0 {
        0
    } else if v >= n {
        n - 1
    } else {
        v
    }
}

/// Luma at `(x, y)` with coordinates held to the image.
pub open spec fn gray_at(v: RasterView, x: int, y: int) -> int {
    luma(v.pixel(clamp(x, v.width as int), clamp(y, v.height as int))) as int
}

/// Horizontal gradient: the 3x3 kernel `[-1 0 1; -2 0 2; -1 0 1]`.
pub open spec fn gradient_x(v: RasterView, x: int, y: int) -> int {
    -gray_at(v, x - 1, y - 1) + gray_at(v, x + 1, y - 1)
        - 2 * gray_at(v, x - 1, y) + 2 * gray_at(v, x + 1, y)
        - gray_at(v, x - 1, y + 1) + gray_at(v, x + 1, y + 1)
}

/// Vertical gradient: the 3x3 kernel `[-1 -2 -1; 0 0 0; 1 2 1]`.
pub open spec fn gradient_y(v: RasterView, x: int, y: int) -> int {
    -gray_at(v, x - 1, y - 1) - 2 * gray_at(v, x, y - 1) - gray_at(v, x + 1, y - 1)
        + gray_at(v, x - 1, y + 1) + 2 * gray_at(v, x, y + 1) + gray_at(v, x + 1, y + 1)
}

/// Square of the gradient magnitude at `(x, y)`.
pub open spec fn magnitude_sq(v: RasterView, x: int, y: int) -> int {
    gradient_x(v, x, y) * gradient_x(v, x, y) + gradient_y(v, x, y) * gradient_y(v, x, y)
}

/// Squared magnitudes of all pixels, in row-major order.
pub open spec fn magnitudes(v: RasterView) -> Seq<int> {
    Seq::new(v.width * v.height, |i: int| magnitude_sq(v, i % (v.width as int), i / (v.width as int)))
}

pub open spec fn seq_max(s: Seq<int>) -> int
    decreases s.len(),
{
    if s.len() == 0 {
        0
    } else {
        let m = seq_max(s.drop_last());
        if s.last() > m {
            s.last()
        } else {
            m
        }
    }
}

/// Integer square root: the largest `r` with `r * r <= n`.
pub open spec fn isqrt(n: nat) -> nat
    decreases n,
{
    if n == 0 {
        0
    } else {
        let r = isqrt((n - 1) as nat);
        if (r + 1) * (r + 1) <= n {
            r + 1
        } else {
            r
        }
    }
}

/// `255 * sqrt(m) / sqrt(max)` rounded down; zero when the maximum is zero.
pub open spec fn rescaled(m: int, max: int) -> int {
    if max <= 0 {
        0
    } else {
        isqrt((65025 * m / max) as nat) as int
    }
}

/// The gradient-magnitude image of `v`: the rescaled magnitude in red, green
/// and blue, fully opaque.
pub open spec fn edge_map(v: RasterView) -> RasterView {
    raster_from_fn(v.width, v.height, |x: int, y: int| edge_pixel(v, x, y))
}

/// Pixel `(x, y)` of the gradient-magnitude image of `v`.
pub open spec fn edge_pixel(v: RasterView, x: int, y: int) -> Rgba {
    let m = rescaled(magnitude_sq(v, x, y), seq_max(magnitudes(v))) as u8;
    [m, m, m, 255u8]
}

pub proof fn lemma_isqrt(n: nat)
    ensures
        isqrt(n) * isqrt(n) <= n < (isqrt(n) + 1) * (isqrt(n) + 1),
    decreases n,
{
    if n == 0 {
        assert(isqrt(0) == 0);
        assert(1 * 1 == 1);
    } else {
        lemma_isqrt((n - 1) as nat);
        let r = isqrt((n - 1) as nat);
        if (r + 1) * (r + 1) <= n {
            assert(isqrt(n) == r + 1);
            assert(n <= (r + 1) * (r + 1));
            assert((r + 1) * (r + 1) < (r + 2) * (r + 2)) by (nonlinear_arith)
                requires r >= 0;
        } else {
            assert(isqrt(n) == r);
        }
    }
}

pub proof fn lemma_isqrt_unique(n: nat, r: nat)
    requires
        r * r <= n < (r + 1) * (r + 1),
    ensures
        isqrt(n) == r,
{
    lemma_isqrt(n);
    let s = isqrt(n);
    if s < r {
        assert((s + 1) * (s + 1) <= r * r) by (nonlinear_arith)
            requires s < r, 0 <= s;
    } else if s > r {
        assert((r + 1) * (r + 1) <= s * s) by (nonlinear_arith)
            requires s > r, 0 <= r;
    }
}

pub proof fn lemma_seq_max_bound(s: Seq<int>, i: int)
    requires
        0 <= i < s.len(),
    ensures
        s[i] <= seq_max(s),
    decreases s.len(),
{
    if i < s.len() - 1 {
        lemma_seq_max_bound(s.drop_last(), i);
    }
}

/// Integer square root of `n`, for `n` up to `255 * 255`.
fn isqrt_small(n: u64) -> (r: u8)
    requires
        n <= 65025,
    ensures
        r as nat == isqrt(n as nat),
{
    let mut lo: u64 = 0;
    let mut hi: u64 = 256;
    while hi - lo > 1
        invariant
            lo < hi <= 256,
            lo * lo <= n,
            n < hi * hi,
        decreases hi - lo,
    {
        let mid: u64 = lo + (hi - lo) / 2;
        assert(mid * mid <= 65536) by (nonlinear_arith)
            requires mid < 256;
        if mid * mid <= n {
            lo = mid;
        } else {
            hi = mid;
        }
    }
    proof {
        lemma_isqrt_unique(n as nat, lo as nat);
    }
    lo as u8
}

/// Luma of the pixel at `(x, y)`, read from the luma buffer `gray`.
fn luma_at(gray: &Vec<u8>, image: &Raster, x: u32, y: u32) -> (v: i64)
    requires
        image.wf(),
        x < image.width,
        y < image.height,
        gray@.len() == image@.pixels.len(),
        forall|i: int| 0 <= i < gray@.len() ==> gray@[i] == luma(image@.pixels[i]),
    ensures
        v == luma(image@.pixel(x as int, y as int)),
        0 <= v <= 255,
{
    let _len: usize = gray.len();
    proof {
        lemma_index_bounds(image@.width, image@.height, x as int, y as int);
    }
    gray[y as usize * image.width as usize + x as usize] as i64
}

/// Squared gradient magnitude at `(x, y)` of the luma buffer `gray`.
fn magnitude_at(gray: &Vec<u8>, image: &Raster, x: u32, y: u32) -> (m: u64)
    requires
        image.wf(),
        x < image.width,
        y < image.height,
        gray@.len() == image@.pixels.len(),
        forall|i: int| 0 <= i < gray@.len() ==> gray@[i] == luma(image@.pixels[i]),
    ensures
        m == magnitude_sq(image@, x as int, y as int),
        m <= 2080800,
{
    let w = image.width;
    let h = image.height;
    let xm: u32 = if x == 0 { 0 } else { x - 1 };
    let xp: u32 = if x + 1 >= w { w - 1 } else { x + 1 };
    let ym: u32 = if y == 0 { 0 } else { y - 1 };
    let yp: u32 = if y + 1 >= h { h - 1 } else { y + 1 };
    let a = luma_at(gray, image, xm, ym);
    let b = luma_at(gray, image, x, ym);
    let c = luma_at(gray, image, xp, ym);
    let d = luma_at(gray, image, xm, y);
    let e = luma_at(gray, image, xp, y);
    let f = luma_at(gray, image, xm, yp);
    let g = luma_at(gray, image, x, yp);
    let k = luma_at(gray, image, xp, yp);
    let ghost v = image@;
    assert(a == gray_at(v, x - 1, y - 1));
    assert(b == gray_at(v, x as int, y - 1));
    assert(c == gray_at(v, x + 1, y - 1));
    assert(d == gray_at(v, x - 1, y as int));
    assert(e == gray_at(v, x + 1, y as int));
    assert(f == gray_at(v, x - 1, y + 1));
    assert(g == gray_at(v, x as int, y + 1));
    assert(k == gray_at(v, x + 1, y + 1));
    let gx: i64 = -a + c - 2 * d + 2 * e - f + k;
    let gy: i64 = -a - 2 * b - c + f + 2 * g + k;
    assert(gx == gradient_x(v, x as int, y as int));
    assert(gy == gradient_y(v, x as int, y as int));
    proof {
        let gxi = gx as int;
        let gyi = gy as int;
        assert(0 <= gxi * gxi <= 1040400) by (nonlinear_arith)
            requires -1020 <= gxi <= 1020;
        assert(0 <= gyi * gyi <= 1040400) by (nonlinear_arith)
            requires -1020 <= gyi <= 1020;
    }
    (gx * gx + gy * gy) as u64
}

/// The gradient-magnitude image of `image` (a Sobel operator over its luma,
/// sampling border pixels again outside the image), rescaled so that the
/// largest magnitude becomes 255; an image without gradient maps to zero.
pub fn edge_detection(image: &Raster) -> (r: Raster)
    requires
        image.wf(),
    ensures
        r.wf(),
        r@ == edge_map(image@),
{
    let w = image.width;
    let h = image.height;
    let gray = grayscale(image);
    let ghost mags = magnitudes(image@);
    let mut buffer: Vec<u64> = Vec::new();
    let mut max: u64 = 0;
    let mut y: u32 = 0;
    while y < h
        invariant
            image.wf(),
            w == image.width,
            h == image.height,
            gray@.len() == image@.pixels.len(),
            forall|i: int| 0 <= i < gray@.len() ==> gray@[i] == luma(image@.pixels[i]),
            y <= h,
            buffer@.len() == y * w,
            forall|i: int, j: int| #![auto] 0 <= i < w && 0 <= j < y ==> buffer@[j * w + i]
                == magnitude_sq(image@, i, j),
            max == seq_max(buffer@.map_values(|m: u64| m as int)),
            max <= 2080800,
        decreases h - y,
    {
        let mut x: u32 = 0;
        while x < w
            invariant
                image.wf(),
                w == image.width,
                h == image.height,
                gray@.len() == image@.pixels.len(),
                forall|i: int| 0 <= i < gray@.len() ==> gray@[i] == luma(image@.pixels[i]),
                y < h,
                x <= w,
                buffer@.len() == y * w + x,
                forall|i: int, j: int| #![auto] 0 <= i < w && 0 <= j < y ==> buffer@[j * w + i]
                    == magnitude_sq(image@, i, j),
                forall|i: int| #![auto] 0 <= i < x ==> buffer@[y * w + i] == magnitude_sq(image@, i, y as int),
                max == seq_max(buffer@.map_values(|m: u64| m as int)),
                max <= 2080800,
            decreases w - x,
        {
            let m = magnitude_at(&gray, image, x, y);
            let ghost before = buffer@;
            buffer.push(m);
            proof {
                assert forall|i: int, j: int| #![auto] 0 <= i < w && 0 <= j < y implies buffer@[j * w + i]
                    == magnitude_sq(image@, i, j) by {
                    lemma_index_bounds(w as nat, y as nat, i, j);
                    assert(w * y == y * w) by (nonlinear_arith);
                    assert(buffer@[j * w + i] == before[j * w + i]);
                }
                assert(buffer@.map_values(|m: u64| m as int).drop_last()
                    =~= before.map_values(|m: u64| m as int));
            }
            if m > max {
                max = m;
            }
            x = x + 1;
        }
        proof {
            assert((y + 1) * w == y * w + w) by (nonlinear_arith);
        }
        y = y + 1;
    }
    let ghost ints = buffer@.map_values(|m: u64| m as int);
    proof {
        assert(buffer@.len() == w * h) by (nonlinear_arith)
            requires buffer@.len() == y * w, y == h;
        assert forall|i: int| 0 <= i < ints.len() implies ints[i] == mags[i] by {
            let x = i % (w as int);
            let yy = i / (w as int);
            assert(w > 0) by (nonlinear_arith)
                requires ints.len() == w * h, 0 <= i < ints.len();
            vstd::arithmetic::div_mod::lemma_fundamental_div_mod(i, w as int);
            assert(yy * w == w * yy) by (nonlinear_arith);
            assert(0 <= yy < h) by (nonlinear_arith)
                requires i == w * yy + x, 0 <= x < w, 0 <= i < w * h, w > 0;
        }
        assert(ints =~= mags);
    }
    let ghost target = edge_map(image@);
    let _len: usize = image.pixels.len();
    let mut out = Raster::new(w, h);
    let mut y: u32 = 0;
    while y < h
        invariant
            image.wf(),
            w == image.width,
            h == image.height,
            buffer@.len() == w * h,
            forall|i: int, j: int| #![auto] 0 <= i < w && 0 <= j < h ==> buffer@[j * w + i]
                == magnitude_sq(image@, i, j),
            max == seq_max(magnitudes(image@)),
            target == edge_map(image@),
            max == seq_max(ints),
            ints == buffer@.map_values(|m: u64| m as int),
            max <= 2080800,
            out.wf(),
            out.width == w,
            out.height == h,
            y <= h,
            forall|i: int, j: int| #![auto] out@.in_bounds(i, j) && j < y ==> out@.pixel(i, j)
                == target.pixel(i, j),
        decreases h - y,
    {
        let mut x: u32 = 0;
        while x < w
            invariant
                image.wf(),
                w == image.width,
                h == image.height,
                buffer@.len() == w * h,
                forall|i: int, j: int| #![auto] 0 <= i < w && 0 <= j < h ==> buffer@[j * w + i]
                    == magnitude_sq(image@, i, j),
                max == seq_max(magnitudes(image@)),
                target == edge_map(image@),
                max == seq_max(ints),
                ints == buffer@.map_values(|m: u64| m as int),
                max <= 2080800,
                out.wf(),
                out.width == w,
                out.height == h,
                y < h,
                x <= w,
                forall|i: int, j: int| #![auto] out@.in_bounds(i, j) && (j < y || (j == y && i < x))
                    ==> out@.pixel(i, j) == target.pixel(i, j),
            decreases w - x,
        {
            proof {
                lemma_index_bounds(w as nat, h as nat, x as int, y as int);
            }
            let _blen: usize = buffer.len();
            let m = buffer[y as usize * w as usize + x as usize];
            let v: u8 = if max == 0 {
                0
            } else {
                proof {
                    lemma_seq_max_bound(ints, y * w + x);
                    assert(65025 * m <= 65025 * max) by (nonlinear_arith)
                        requires m <= max;
                    let mi = m as int;
                    let ma = max as int;
                    assert(65025 * mi / ma <= 65025) by (nonlinear_arith)
                        requires 65025 * mi <= 65025 * ma, ma > 0;
                }
                isqrt_small(65025 * m / max)
            };
            proof {
                lemma_from_fn_pixel(target.width, target.height, |x: int, y: int| edge_pixel(image@, x, y), x as int, y as int);
                assert(target.pixel(x as int, y as int) == edge_pixel(image@, x as int, y as int));
                assert(m == magnitude_sq(image@, x as int, y as int));
                assert(v as int == rescaled(m as int, max as int));
                assert(rescaled(magnitude_sq(image@, x as int, y as int), seq_max(magnitudes(image@))) as u8 == v);
                assert(edge_pixel(image@, x as int, y as int) =~= [v, v, v, 255u8]);
            }
            out.put_pixel(x, y, [v, v, v, 255u8]);
            x = x + 1;
        }
        y = y + 1;
    }
    proof {
        lemma_from_fn_wf(target.width, target.height, |x: int, y: int| edge_pixel(image@, x, y));
        lemma_view_ext(out@, target);
    }
    out
}

} // verus!
