use crate::error::StitchError;
use crate::geometry::{cropped, ImageCrop};
use crate::params::{CheckDirection, Position};
use crate::raster::{blank, lemma_from_fn_pixel, lemma_from_fn_wf, lemma_view_ext, raster_from_fn, Raster, RasterView, Rgba};
use vstd::prelude::*;

verus! {

pub open spec fn abs_int(v: int) -> int {
    if v < 0 {
        -v
    } else {
        v
    }
}

/// Length of the canvas along one axis: the second image's extent past the
/// offset (or the first's past the negated offset), never less than the
/// first image's own length.
pub open spec fn canvas_len(top: int, bottom: int, offset: int) -> int {
    let raw = if offset >= 0 {
        bottom + offset
    } else {
        top - offset
    };
    if raw >= top {
        raw
    } else {
        top
    }
}

/// Where the first-drawn image starts along one axis.
pub open spec fn top_start(offset: int) -> int {
    if offset >= 0 {
        0
    } else {
        -offset
    }
}

/// Where the second-drawn image starts along one axis.
pub open spec fn bottom_start(offset: int) -> int {
    if offset >= 0 {
        offset
    } else {
        0
    }
}

pub open spec fn covers(v: RasterView, left: int, top: int, i: int, j: int) -> bool {
    left <= i < left + v.width && top <= j < top + v.height
}

/// Pixel `(i, j)` of the canvas after the first image alone was drawn.
pub open spec fn top_layer(top: RasterView, pos: Position, i: int, j: int) -> Rgba {
    let tx = top_start(pos.x as int);
    let ty = top_start(pos.y as int);
    if covers(top, tx, ty, i, j) {
        top.pixel(i - tx, j - ty)
    } else {
        blank()
    }
}

/// Pixel `(i, j)` of the composite: the second image wherever it was drawn,
/// else the first image, else transparent.
pub open spec fn stacked_pixel(top: RasterView, bottom: RasterView, pos: Position, i: int, j: int) -> Rgba {
    let bx = bottom_start(pos.x as int);
    let by = bottom_start(pos.y as int);
    if covers(bottom, bx, by, i, j) {
        bottom.pixel(i - bx, j - by)
    } else {
        top_layer(top, pos, i, j)
    }
}

/// The composite of `top` drawn first and `bottom` drawn over it at `pos`.
pub open spec fn stacked(top: RasterView, bottom: RasterView, pos: Position) -> RasterView {
    raster_from_fn(
        canvas_len(top.width as int, bottom.width as int, pos.x as int) as nat,
        canvas_len(top.height as int, bottom.height as int, pos.y as int) as nat,
        |i: int, j: int| stacked_pixel(top, bottom, pos, i, j),
    )
}

/// Whether `pos` can be satisfied by the two images, and the composite fits
/// this machine.
pub open spec fn stack_ok(top: RasterView, bottom: RasterView, pos: Position) -> bool {
    let w = canvas_len(top.width as int, bottom.width as int, pos.x as int);
    let h = canvas_len(top.height as int, bottom.height as int, pos.y as int);
    &&& abs_int(pos.x as int) < top.width + bottom.width
    &&& abs_int(pos.y as int) < top.height + bottom.height
    &&& w <= u32::MAX
    &&& h <= u32::MAX
    &&& w * h <= usize::MAX
}

/// Draws `top_image` and then `bottom_image` at `position` (their roles
/// swapped when `flipped`) on a new canvas; where both cover a pixel the
/// one drawn second stays.
pub fn stack_images_with_overlap(top_image: &Raster, bottom_image: &Raster, position: &Position, flipped: bool) -> (r: Raster)
    requires
        top_image.wf(),
        bottom_image.wf(),
        flipped ==> stack_ok(bottom_image@, top_image@, *position),
        !flipped ==> stack_ok(top_image@, bottom_image@, *position),
    ensures
        r.wf(),
        flipped ==> r@ == stacked(bottom_image@, top_image@, *position),
        !flipped ==> r@ == stacked(top_image@, bottom_image@, *position),
{
    let (top, bottom) = if flipped {
        (bottom_image, top_image)
    } else {
        (top_image, bottom_image)
    };
    let pos = *position;
    let ghost target = stacked(top@, bottom@, pos);
    let tw = top.width as u64;
    let th = top.height as u64;
    let bw = bottom.width as u64;
    let bh = bottom.height as u64;
    let ax: u64 = if pos.x < 0 { (-(pos.x as i64)) as u64 } else { pos.x as u64 };
    let ay: u64 = if pos.y < 0 { (-(pos.y as i64)) as u64 } else { pos.y as u64 };
    let raw_w: u64 = if pos.x >= 0 { bw + ax } else { tw + ax };
    let raw_h: u64 = if pos.y >= 0 { bh + ay } else { th + ay };
    let out_w: u32 = (if raw_w >= tw { raw_w } else { tw }) as u32;
    let out_h: u32 = (if raw_h >= th { raw_h } else { th }) as u32;
    let tx: u32 = if pos.x >= 0 { 0 } else { ax as u32 };
    let ty: u32 = if pos.y >= 0 { 0 } else { ay as u32 };
    let bx: u32 = if pos.x >= 0 { ax as u32 } else { 0 };
    let by: u32 = if pos.y >= 0 { ay as u32 } else { 0 };
    assert(tx + top.width <= out_w && ty + top.height <= out_h);
    let mut out = Raster::new(out_w, out_h);
    let mut y: u32 = 0;
    while y < top.height
        invariant
            top.wf(),
            out.wf(),
            out.width == out_w,
            out.height == out_h,
            tx == top_start(pos.x as int),
            ty == top_start(pos.y as int),
            tx + top.width <= out_w,
            ty + top.height <= out_h,
            y <= top.height,
            forall|i: int, j: int| #![auto] out@.in_bounds(i, j) ==> out@.pixel(i, j) == if covers(top@, tx as int, ty as int, i, j)
                && j - ty < y { top@.pixel(i - tx, j - ty) } else { blank() },
        decreases top.height - y,
    {
        let mut x: u32 = 0;
        while x < top.width
            invariant
                top.wf(),
                out.wf(),
                out.width == out_w,
                out.height == out_h,
                tx == top_start(pos.x as int),
                ty == top_start(pos.y as int),
                tx + top.width <= out_w,
                ty + top.height <= out_h,
                y < top.height,
                x <= top.width,
                forall|i: int, j: int| #![auto] out@.in_bounds(i, j) ==> out@.pixel(i, j) == if covers(top@, tx as int, ty as int, i, j)
                    && (j - ty < y || (j - ty == y && i - tx < x)) { top@.pixel(i - tx, j - ty) } else { blank() },
            decreases top.width - x,
        {
            let p = top.get_pixel(x, y);
            out.put_pixel(x + tx, y + ty, p);
            x = x + 1;
        }
        y = y + 1;
    }
    assert forall|i: int, j: int| #![auto] out@.in_bounds(i, j) implies out@.pixel(i, j) == top_layer(top@, pos, i, j) by {}
    let mut y: u32 = 0;
    while y < bottom.height
        invariant
            top.wf(),
            bottom.wf(),
            out.wf(),
            out.width == out_w,
            out.height == out_h,
            bx == bottom_start(pos.x as int),
            by == bottom_start(pos.y as int),
            y <= bottom.height,
            forall|i: int, j: int| #![auto] out@.in_bounds(i, j) ==> out@.pixel(i, j) == if covers(bottom@, bx as int, by as int, i, j)
                && j - by < y { bottom@.pixel(i - bx, j - by) } else { top_layer(top@, pos, i, j) },
        decreases bottom.height - y,
    {
        let mut x: u32 = 0;
        while x < bottom.width
            invariant
                top.wf(),
                bottom.wf(),
                out.wf(),
                out.width == out_w,
                out.height == out_h,
                bx == bottom_start(pos.x as int),
                by == bottom_start(pos.y as int),
                y < bottom.height,
                x <= bottom.width,
                forall|i: int, j: int| #![auto] out@.in_bounds(i, j) ==> out@.pixel(i, j) == if covers(bottom@, bx as int, by as int, i, j)
                    && (j - by < y || (j - by == y && i - bx < x)) { bottom@.pixel(i - bx, j - by) } else { top_layer(top@, pos, i, j) },
            decreases bottom.width - x,
        {
            let ox = bx as u64 + x as u64;
            let oy = by as u64 + y as u64;
            if ox < out_w as u64 && oy < out_h as u64 {
                let p = bottom.get_pixel(x, y);
                out.put_pixel(ox as u32, oy as u32, p);
            }
            x = x + 1;
        }
        y = y + 1;
    }
    proof {
        let f = |i: int, j: int| stacked_pixel(top@, bottom@, pos, i, j);
        assert forall|i: int, j: int| out@.in_bounds(i, j) implies out@.pixel(i, j) == target.pixel(i, j) by {
            lemma_from_fn_pixel(target.width, target.height, f, i, j);
        }
        lemma_from_fn_wf(target.width, target.height, f);
        lemma_view_ext(out@, target);
    }
    out
}

/// The margins that the first image of a pair loses before compositing:
/// its bottom for the vertical direction, its right edge for the
/// horizontal one, and for the sideways direction its bottom and the side
/// away from the shift (the right edge for a negative shift, else the left).
pub open spec fn crop_policy(crop: u32, pos: Position, dir: CheckDirection) -> ImageCrop {
    match dir {
        CheckDirection::Vertical => ImageCrop { top: 0, bottom: crop, left: 0, right: 0 },
        CheckDirection::Horizontal => ImageCrop { top: 0, bottom: 0, left: 0, right: crop },
        CheckDirection::Sideways => if pos.x < 0 {
            ImageCrop { top: 0, bottom: crop, left: 0, right: crop }
        } else {
            ImageCrop { top: 0, bottom: crop, left: crop, right: 0 }
        },
    }
}

/// The mirrored margins, which the second image of a pair loses.
pub open spec fn mirrored(c: ImageCrop) -> ImageCrop {
    ImageCrop { top: c.bottom, bottom: c.top, left: c.right, right: c.left }
}

/// Whether `stitch_images` can composite `a` and `b` at `pos`: the margins
/// fit both images and the cropped images can be stacked at `pos`.
pub open spec fn stitch_ok(a: RasterView, b: RasterView, pos: Position, flipped: bool, crop: u32, dir: CheckDirection) -> bool {
    let c = crop_policy(crop, pos, dir);
    let ca = cropped(a, c);
    let cb = cropped(b, mirrored(c));
    &&& c.fits(a.width as int, a.height as int)
    &&& mirrored(c).fits(b.width as int, b.height as int)
    &&& if flipped {
        stack_ok(cb, ca, pos)
    } else {
        stack_ok(ca, cb, pos)
    }
}

/// The composite of `a` and `b` at `pos`: both are cropped by the
/// direction's policy, then `a` is drawn first and `b` over it, or the other
/// way round when `flipped`.
pub open spec fn stitched(a: RasterView, b: RasterView, pos: Position, flipped: bool, crop: u32, dir: CheckDirection) -> RasterView {
    let c = crop_policy(crop, pos, dir);
    let ca = cropped(a, c);
    let cb = cropped(b, mirrored(c));
    if flipped {
        stacked(cb, ca, pos)
    } else {
        stacked(ca, cb, pos)
    }
}

fn margins(crop: u32, position: &Position, crop_direction: CheckDirection) -> (r: ImageCrop)
    ensures
        r == crop_policy(crop, *position, crop_direction),
{
    match crop_direction {
        CheckDirection::Vertical => ImageCrop { top: 0, bottom: crop, left: 0, right: 0 },
        CheckDirection::Horizontal => ImageCrop { top: 0, bottom: 0, left: 0, right: crop },
        CheckDirection::Sideways => {
            let mut c = ImageCrop { top: 0, bottom: crop, left: 0, right: 0 };
            if position.x < 0 {
                c.right = crop;
            } else {
                c.left = crop;
            }
            c
        },
    }
}

/// Crops `part1` and `part2` by the policy of `crop_direction` and draws
/// them on one canvas at `position`; see `stitched`.
pub fn stitch_images(
    part1: &Raster,
    part2: &Raster,
    position: &Position,
    flipped: bool,
    crop: u32,
    crop_direction: CheckDirection,
) -> (r: Raster)
    requires
        part1.wf(),
        part2.wf(),
        stitch_ok(part1@, part2@, *position, flipped, crop, crop_direction),
    ensures
        r.wf(),
        r@ == stitched(part1@, part2@, *position, flipped, crop, crop_direction),
{
    let c = margins(crop, position, crop_direction);
    let first = c.crop_image(part1);
    let second = c.reverse().crop_image(part2);
    stack_images_with_overlap(&first, &second, position, flipped)
}

fn fits_in(c: ImageCrop, image: &Raster) -> (r: bool)
    ensures
        r == c.fits(image.width as int, image.height as int),
{
    c.left as u64 + c.right as u64 <= image.width as u64 && c.top as u64 + c.bottom as u64 <= image.height as u64
}

/// Why `stitch_images` refuses `a` and `b` at `pos`.
pub open spec fn stitch_error(a: RasterView, b: RasterView, pos: Position, flipped: bool, crop: u32, dir: CheckDirection) -> StitchError {
    let c = crop_policy(crop, pos, dir);
    let ca = cropped(a, c);
    let cb = cropped(b, mirrored(c));
    if !c.fits(a.width as int, a.height as int) || !mirrored(c).fits(b.width as int, b.height as int) {
        StitchError::CropTooLarge
    } else if abs_int(pos.x as int) >= ca.width + cb.width || abs_int(pos.y as int) >= ca.height + cb.height {
        StitchError::OffsetOutOfRange
    } else {
        StitchError::TooLarge
    }
}

fn check_stack(tw: u64, th: u64, bw: u64, bh: u64, position: &Position) -> (r: Result<(), StitchError>)
    requires
        tw <= u32::MAX,
        th <= u32::MAX,
        bw <= u32::MAX,
        bh <= u32::MAX,
    ensures
        r is Ok <==> stack_ok(
            RasterView { width: tw as nat, height: th as nat, pixels: Seq::empty() },
            RasterView { width: bw as nat, height: bh as nat, pixels: Seq::empty() },
            *position,
        ),
        r matches Err(e) ==> (e == StitchError::OffsetOutOfRange <==> (abs_int(position.x as int) >= tw + bw
            || abs_int(position.y as int) >= th + bh)),
        r matches Err(e) ==> e == StitchError::OffsetOutOfRange || e == StitchError::TooLarge,
{
    let pos = *position;
    let ax: u64 = if pos.x < 0 { (-(pos.x as i64)) as u64 } else { pos.x as u64 };
    let ay: u64 = if pos.y < 0 { (-(pos.y as i64)) as u64 } else { pos.y as u64 };
    if !(ax < tw + bw && ay < th + bh) {
        return Err(StitchError::OffsetOutOfRange);
    }
    let raw_w: u64 = if pos.x >= 0 { bw + ax } else { tw + ax };
    let raw_h: u64 = if pos.y >= 0 { bh + ay } else { th + ay };
    let w: u64 = if raw_w >= tw { raw_w } else { tw };
    let h: u64 = if raw_h >= th { raw_h } else { th };
    if !(w <= u32::MAX as u64 && h <= u32::MAX as u64) {
        return Err(StitchError::TooLarge);
    }
    assert(w * h <= u64::MAX) by (nonlinear_arith)
        requires w <= u32::MAX, h <= u32::MAX;
    if (w as u128) * (h as u128) <= usize::MAX as u128 {
        Ok(())
    } else {
        Err(StitchError::TooLarge)
    }
}

/// Whether `stitch_images` accepts these arguments (see `stitch_ok`), and if
/// not, why.
pub fn check_stitch(
    part1: &Raster,
    part2: &Raster,
    position: &Position,
    flipped: bool,
    crop: u32,
    crop_direction: CheckDirection,
) -> (r: Result<(), StitchError>)
    ensures
        r is Ok <==> stitch_ok(part1@, part2@, *position, flipped, crop, crop_direction),
        r matches Err(e) ==> e == stitch_error(part1@, part2@, *position, flipped, crop, crop_direction),
{
    let c = margins(crop, position, crop_direction);
    let m = c.reverse();
    if !fits_in(c, part1) || !fits_in(m, part2) {
        return Err(StitchError::CropTooLarge);
    }
    let aw = (part1.width - c.left - c.right) as u64;
    let ah = (part1.height - c.top - c.bottom) as u64;
    let bw = (part2.width - m.left - m.right) as u64;
    let bh = (part2.height - m.top - m.bottom) as u64;
    if flipped {
        check_stack(bw, bh, aw, ah, position)
    } else {
        check_stack(aw, ah, bw, bh, position)
    }
}

} // verus!
