//! Properties that relate the search, the compositor and the planner.

use crate::compose::{bottom_start, covers, crop_policy, mirrored, stacked, stacked_pixel, stitch_ok, stitched, top_start};
use crate::edges::{edge_map, edge_pixel, gradient_x, gradient_y, gray_at, luma, magnitude_sq, magnitudes, rescaled, seq_max};
use crate::geometry::{cropped, ImageCrop};
use crate::params::{CheckDirection, MatchMode, Order, Position};
use crate::raster::{lemma_from_fn_pixel, RasterView, Rgba};
use crate::scoring::{
    abs_diff_sum, is_best_candidate, ordered_region, prepared, region, row_diff, scan_rows, row_range, row_values, search_ok, shift_range,
    shifted_rows, window_score, window_total,
};
use crate::stitcher::{ordered_state, unordered_outcome, unordered_state};
use vstd::prelude::*;

verus! {

/// The highest score a window of `ws` rows can have: no dissimilarity.
pub open spec fn top_score(ws: nat) -> int {
    (u64::MAX as int) / (ws as int)
}

pub proof fn lemma_window_total_nonneg(a: RasterView, b: RasterView, start: int, shift: int, crop: int, k: int)
    ensures
        window_total(a, b, start, shift, crop, k) >= 0,
    decreases k,
{
    if k > 0 {
        lemma_window_total_nonneg(a, b, start, shift, crop, k - 1);
        let (pa, pb) = shifted_rows(row_values(a, start + k - 1), row_values(b, crop + k - 1), shift);
        lemma_abs_diff_sum_nonneg(pa, pb, if pa.len() <= pb.len() { pa.len() as int } else { pb.len() as int });
    }
}

pub proof fn lemma_abs_diff_sum_nonneg(a: Seq<u64>, b: Seq<u64>, n: int)
    ensures
        abs_diff_sum(a, b, n) >= 0,
    decreases n,
{
    if n > 0 {
        lemma_abs_diff_sum_nonneg(a, b, n - 1);
    }
}

/// No window scores above `u64::MAX / ws`, and a window without any
/// dissimilarity scores exactly that.
pub proof fn lemma_window_score_max(a: RasterView, b: RasterView, start: int, shift: int, ws: nat, crop: int)
    requires
        ws >= 1,
    ensures
        window_score(a, b, start, shift, ws, crop) <= top_score(ws),
        window_total(a, b, start, shift, crop, ws as int) == 0 ==> window_score(a, b, start, shift, ws, crop) == top_score(ws),
{
    lemma_window_total_nonneg(a, b, start, shift, crop, ws as int);
    let t = window_total(a, b, start, shift, crop, ws as int);
    let held = if t > u64::MAX { u64::MAX as int } else { t };
    let m = u64::MAX as int;
    let w = ws as int;
    assert((m - held) / w <= m / w) by (nonlinear_arith)
        requires 0 <= held, w >= 1;
    assert(0 <= (m - held) / w) by (nonlinear_arith)
        requires held <= m, w >= 1;
    assert(m / w <= m) by (nonlinear_arith)
        requires w >= 1, m >= 0;
}

/// The best candidate among the row starts `rows.0 ..= s` at shift `x` and
/// all row starts at the shifts before `x`.
proof fn best_prefix(
    pa: RasterView,
    pb: RasterView,
    ws: nat,
    crop: nat,
    rows: (int, int),
    shifts: (int, int),
    x: int,
    s: int,
) -> (c: (int, int))
    requires
        shifts.0 <= x <= shifts.1,
        rows.0 <= s <= rows.1,
    ensures
        rows.0 <= c.0 <= rows.1,
        shifts.0 <= c.1 <= x,
        forall|s2: int, x2: int|
            #![trigger window_score(pa, pb, s2, x2, ws, crop as int)]
            rows.0 <= s2 <= rows.1 && shifts.0 <= x2 <= shifts.1 && (x2 < x || (x2 == x && s2 <= s)) ==> {
                &&& window_score(pa, pb, s2, x2, ws, crop as int) <= window_score(pa, pb, c.0, c.1, ws, crop as int)
                &&& window_score(pa, pb, s2, x2, ws, crop as int) == window_score(pa, pb, c.0, c.1, ws, crop as int)
                    ==> (c.1 < x2 || (c.1 == x2 && s2 <= c.0))
            },
    decreases x - shifts.0, s - rows.0,
{
    let here = window_score(pa, pb, s, x, ws, crop as int);
    if s > rows.0 {
        let p = best_prefix(pa, pb, ws, crop, rows, shifts, x, s - 1);
        let ps = window_score(pa, pb, p.0, p.1, ws, crop as int);
        if here > ps || (here == ps && p.1 == x) {
            (s, x)
        } else {
            p
        }
    } else if x > shifts.0 {
        let p = best_prefix(pa, pb, ws, crop, rows, shifts, x - 1, rows.1);
        let ps = window_score(pa, pb, p.0, p.1, ws, crop as int);
        if here > ps || (here == ps && p.1 == x) {
            (s, x)
        } else {
            p
        }
    } else {
        (s, x)
    }
}

/// Every non-empty search has a best candidate.
pub proof fn lemma_best_candidate_exists(pa: RasterView, pb: RasterView, ws: nat, crop: nat, rows: (int, int), shifts: (int, int))
    requires
        rows.0 <= rows.1,
        shifts.0 <= shifts.1,
    ensures
        exists|s: int, x: int| is_best_candidate(pa, pb, ws, crop, rows, shifts, s, x),
{
    let c = best_prefix(pa, pb, ws, crop, rows, shifts, shifts.1, rows.1);
    assert(is_best_candidate(pa, pb, ws, crop, rows, shifts, c.0, c.1));
}

pub proof fn lemma_abs_diff_sum_equal(a: Seq<u64>, b: Seq<u64>, n: int)
    requires
        n <= a.len(),
        n <= b.len(),
        forall|i: int| 0 <= i < n ==> a[i] == b[i],
    ensures
        abs_diff_sum(a, b, n) == 0,
    decreases n,
{
    if n > 0 {
        lemma_abs_diff_sum_equal(a, b, n - 1);
    }
}

/// Two rows that agree on the first `n` places, with `n` the shorter
/// length, differ by nothing at shift zero.
pub proof fn lemma_row_diff_equal_prefix(a: Seq<u64>, b: Seq<u64>, n: int)
    requires
        n == if a.len() <= b.len() { a.len() as int } else { b.len() as int },
        forall|i: int| 0 <= i < n ==> a[i] == b[i],
    ensures
        row_diff(a, b, 0) == 0,
{
    let (pa, pb) = shifted_rows(a, b, 0);
    assert(pa =~= a);
    assert(pb =~= b);
    lemma_abs_diff_sum_equal(pa, pb, n);
}

/// If a candidate within the searched ranges reaches the highest score, the
/// search reports that score.
pub proof fn lemma_ordered_region_reaches_top(
    a: RasterView,
    b: RasterView,
    dir: CheckDirection,
    ws: nat,
    mode: MatchMode,
    crop: nat,
    skip: Option<Position>,
    s: int,
    x: int,
)
    requires
        ws >= 1,
        row_range(prepared(a, dir, mode), ws, crop, dir, skip).0 <= s <= row_range(prepared(a, dir, mode), ws, crop, dir, skip).1,
        shift_range(prepared(a, dir, mode), prepared(b, dir, mode), crop, dir, skip).0 <= x
            <= shift_range(prepared(a, dir, mode), prepared(b, dir, mode), crop, dir, skip).1,
        window_score(prepared(a, dir, mode), prepared(b, dir, mode), s, x, ws, crop as int) == top_score(ws),
    ensures
        ordered_region(a, b, dir, ws, mode, crop, skip).score == top_score(ws),
{
    reveal(ordered_region);
    let pa = prepared(a, dir, mode);
    let pb = prepared(b, dir, mode);
    let rows = row_range(pa, ws, crop, dir, skip);
    let shifts = shift_range(pa, pb, crop, dir, skip);
    lemma_best_candidate_exists(pa, pb, ws, crop, rows, shifts);
    let (cs, cx) = choose|cs: int, cx: int| is_best_candidate(pa, pb, ws, crop, rows, shifts, cs, cx);
    assert(window_score(pa, pb, s, x, ws, crop as int) <= window_score(pa, pb, cs, cx, ws, crop as int));
    lemma_window_score_max(pa, pb, cs, cx, ws, crop as int);
}

pub proof fn lemma_window_total_same(v: RasterView, k: int)
    ensures
        window_total(v, v, 0, 0, 0, k) == 0,
    decreases k,
{
    if k > 0 {
        lemma_window_total_same(v, k - 1);
        let r = row_values(v, k - 1);
        lemma_row_diff_equal_prefix(r, r, r.len() as int);
    }
}

/// Two identical images searched on their pixels without a crop margin: the
/// window at the start of the first image, unshifted, has no dissimilarity,
/// and the search reports the highest score that a window can have.
pub proof fn lemma_identical_images_match_fully(a: RasterView, dir: CheckDirection, order: Order, ws: nat)
    requires
        a.wf(),
        1 <= ws <= scan_rows(a, dir),
    ensures
        window_total(prepared(a, dir, MatchMode::Normal), prepared(a, dir, MatchMode::Normal), 0, 0, 0, ws as int) == 0,
        window_score(prepared(a, dir, MatchMode::Normal), prepared(a, dir, MatchMode::Normal), 0, 0, ws, 0) == top_score(ws),
        region(a, a, dir, order, ws, MatchMode::Normal, 0, None).score == top_score(ws),
{
    let pa = prepared(a, dir, MatchMode::Normal);
    lemma_window_total_same(pa, ws as int);
    lemma_window_score_max(pa, pa, 0, 0, ws, 0);
    lemma_ordered_region_reaches_top(a, a, dir, ws, MatchMode::Normal, 0, None, 0, 0);
    reveal(region);
}

/// The composite is never smaller than the image drawn first, along either
/// axis.
pub proof fn lemma_stitch_not_smaller(a: RasterView, b: RasterView, pos: Position, flipped: bool, crop: u32, dir: CheckDirection)
    ensures
        stitched(a, b, pos, flipped, crop, dir).width >= first_drawn(a, b, pos, flipped, crop, dir).width,
        stitched(a, b, pos, flipped, crop, dir).height >= first_drawn(a, b, pos, flipped, crop, dir).height,
{
}

/// Where both images cover a pixel of the composite, it holds the pixel of
/// the image drawn second: no blending, the last write wins.
pub proof fn lemma_overlap_keeps_second(top: RasterView, bottom: RasterView, pos: Position, i: int, j: int)
    requires
        covers(top, top_start(pos.x as int), top_start(pos.y as int), i, j),
        covers(bottom, bottom_start(pos.x as int), bottom_start(pos.y as int), i, j),
    ensures
        stacked(top, bottom, pos).in_bounds(i, j),
        stacked(top, bottom, pos).pixel(i, j) == bottom.pixel(i - bottom_start(pos.x as int), j - bottom_start(pos.y as int)),
{
    let v = stacked(top, bottom, pos);
    lemma_from_fn_pixel(v.width, v.height, |i: int, j: int| stacked_pixel(top, bottom, pos, i, j), i, j);
}

/// The image that `stitch_images` draws first: the cropped `a`, or the
/// cropped `b` when the roles are flipped.
pub open spec fn first_drawn(a: RasterView, b: RasterView, pos: Position, flipped: bool, crop: u32, dir: CheckDirection) -> RasterView {
    let c = crop_policy(crop, pos, dir);
    if flipped {
        cropped(b, mirrored(c))
    } else {
        cropped(a, c)
    }
}

/// The image that `stitch_images` draws second, over the first.
pub open spec fn second_drawn(a: RasterView, b: RasterView, pos: Position, flipped: bool, crop: u32, dir: CheckDirection) -> RasterView {
    let c = crop_policy(crop, pos, dir);
    if flipped {
        cropped(a, c)
    } else {
        cropped(b, mirrored(c))
    }
}

/// In a composite of `stitch_images`, a pixel that both cropped images
/// cover holds the pixel of the image drawn second, never that of the one
/// drawn first.
pub proof fn lemma_stitch_overlap_keeps_second(
    a: RasterView,
    b: RasterView,
    pos: Position,
    flipped: bool,
    crop: u32,
    dir: CheckDirection,
    i: int,
    j: int,
)
    requires
        covers(first_drawn(a, b, pos, flipped, crop, dir), top_start(pos.x as int), top_start(pos.y as int), i, j),
        covers(second_drawn(a, b, pos, flipped, crop, dir), bottom_start(pos.x as int), bottom_start(pos.y as int), i, j),
    ensures
        stitched(a, b, pos, flipped, crop, dir).in_bounds(i, j),
        stitched(a, b, pos, flipped, crop, dir).pixel(i, j) == second_drawn(a, b, pos, flipped, crop, dir).pixel(
            i - bottom_start(pos.x as int),
            j - bottom_start(pos.y as int),
        ),
{
    lemma_overlap_keeps_second(first_drawn(a, b, pos, flipped, crop, dir), second_drawn(a, b, pos, flipped, crop, dir), pos, i, j);
}

proof fn lemma_ordered_trail_len(images: Seq<RasterView>, k: nat, dir: CheckDirection, ws: nat, mode: MatchMode, crop: u32)
    requires
        k >= 1,
    ensures
        ordered_state(images, k, dir, ws, mode, crop) matches Ok((image, trail)) ==> trail.len() == k - 1,
    decreases k,
{
    if k > 1 {
        lemma_ordered_trail_len(images, (k - 1) as nat, dir, ws, mode, crop);
    }
}

/// An ordered fold over `n` images that succeeds performs `n - 1` merges
/// and reports one position for each.
pub proof fn lemma_ordered_merge_count(images: Seq<RasterView>, dir: CheckDirection, ws: nat, mode: MatchMode, crop: u32)
    requires
        images.len() >= 2,
    ensures
        ordered_state(images, images.len(), dir, ws, mode, crop) matches Ok((image, positions)) ==> positions.len()
            == images.len() - 1,
{
    lemma_ordered_trail_len(images, images.len(), dir, ws, mode, crop);
}

proof fn lemma_unordered_records_len(images: Seq<RasterView>, k: nat, dir: CheckDirection, ws: nat, mode: MatchMode, crop: u32)
    ensures
        unordered_state(images, k, dir, ws, mode, crop) matches Ok(st) ==> st.records.len() == k,
    decreases k,
{
    if k > 0 {
        lemma_unordered_records_len(images, (k - 1) as nat, dir, ws, mode, crop);
    }
}

/// An unordered run over `n` images that succeeds performs `n - 1` merges
/// and reports one position for each.
pub proof fn lemma_unordered_merge_count(images: Seq<RasterView>, dir: CheckDirection, ws: nat, mode: MatchMode, crop: u32)
    requires
        images.len() >= 2,
    ensures
        unordered_outcome(images, dir, ws, mode, crop) matches Ok((image, positions)) ==> positions.len() == images.len() - 1,
{
    lemma_unordered_records_len(images, (images.len() - 1) as nat, dir, ws, mode, crop);
}

proof fn lemma_seq_max_zero(s: Seq<int>)
    requires
        forall|i: int| 0 <= i < s.len() ==> s[i] == 0,
    ensures
        seq_max(s) == 0,
    decreases s.len(),
{
    if s.len() > 0 {
        lemma_seq_max_zero(s.drop_last());
    }
}

/// A uniform image has no edges: its edge map is black and fully opaque.
pub proof fn lemma_flat_image_has_no_edges(v: RasterView, p: Rgba)
    requires
        v.wf(),
        forall|x: int, y: int| v.in_bounds(x, y) ==> v.pixel(x, y) == p,
    ensures
        forall|x: int, y: int| v.in_bounds(x, y) ==> edge_map(v).pixel(x, y) == [0u8, 0u8, 0u8, 255u8],
{
    assert forall|x: int, y: int| v.in_bounds(x, y) implies edge_map(v).pixel(x, y) == [0u8, 0u8, 0u8, 255u8] by {
        assert forall|x2: int, y2: int| gray_at(v, x2, y2) == luma(p) by {
            assert(v.in_bounds(crate::edges::clamp(x2, v.width as int), crate::edges::clamp(y2, v.height as int)));
        }
        assert forall|i: int| 0 <= i < magnitudes(v).len() implies magnitudes(v)[i] == 0 by {
            let x2 = i % (v.width as int);
            let y2 = i / (v.width as int);
            assert(gradient_x(v, x2, y2) == 0);
            assert(gradient_y(v, x2, y2) == 0);
        }
        lemma_seq_max_zero(magnitudes(v));
        assert(gradient_x(v, x, y) == 0);
        assert(gradient_y(v, x, y) == 0);
        assert(rescaled(magnitude_sq(v, x, y), seq_max(magnitudes(v))) == 0);
        lemma_from_fn_pixel(v.width, v.height, |x: int, y: int| edge_pixel(v, x, y), x, y);
        assert(edge_pixel(v, x, y) =~= [0u8, 0u8, 0u8, 255u8]);
    }
}

proof fn lemma_round_trip_rows(ca: RasterView, b: RasterView, c: u32, pos: Position, k: int)
    requires
        b.wf(),
        pos.x == 0,
        0 <= k,
        c + k <= b.height,
        bottom_start(pos.y as int) + k <= stacked(ca, cropped(b, ImageCrop { top: c, bottom: 0, left: 0, right: 0 }), pos).height,
    ensures
        window_total(
            stacked(ca, cropped(b, ImageCrop { top: c, bottom: 0, left: 0, right: 0 }), pos),
            b,
            bottom_start(pos.y as int),
            0,
            c as int,
            k,
        ) == 0,
    decreases k,
{
    if k > 0 {
        let m = ImageCrop { top: c, bottom: 0, left: 0, right: 0 };
        let cb = cropped(b, m);
        let by = bottom_start(pos.y as int);
        lemma_round_trip_rows(ca, b, c, pos, k - 1);
        let v = stacked(ca, cb, pos);
        let rc = row_values(v, by + k - 1);
        let rb = row_values(b, c + k - 1);
        assert forall|i: int| 0 <= i < b.width implies rc[i] == rb[i] by {
            lemma_from_fn_pixel(v.width, v.height, |i: int, j: int| stacked_pixel(ca, cb, pos, i, j), i, by + k - 1);
            lemma_from_fn_pixel(cb.width, cb.height, |x: int, y: int| b.pixel(x + m.left, y + m.top), i, k - 1);
        }
        lemma_row_diff_equal_prefix(rc, rb, b.width as int);
    }
}

/// Compositing `b` after `a` at row offset `y` (vertical direction), then
/// searching the composite for a fresh copy of `b` with the same crop
/// margin and window on raw pixels: where `b` landed in the composite (row
/// `y`, or the top row for a negative `y`) the window has no
/// dissimilarity, so that offset has the highest score a window can have,
/// and so does the reported match. The copy of `b` must hold the window
/// below its crop margin twice over, since the composite lost that margin
/// at the top of `b`.
pub proof fn lemma_round_trip_vertical(a: RasterView, b: RasterView, y: i32, crop: u32, ws: nat)
    requires
        a.wf(),
        b.wf(),
        b.height >= 2 * crop + ws,
        stitch_ok(a, b, Position { x: 0, y }, false, crop, CheckDirection::Vertical),
        search_ok(stitched(a, b, Position { x: 0, y }, false, crop, CheckDirection::Vertical), b, CheckDirection::Vertical, ws, crop as nat),
    ensures
        ({
            let c = stitched(a, b, Position { x: 0, y }, false, crop, CheckDirection::Vertical);
            &&& window_score(c, b, bottom_start(y as int), 0, ws, crop as int) == top_score(ws)
            &&& region(c, b, CheckDirection::Vertical, Order::Ordered, ws, MatchMode::Normal, crop as nat, None).score
                == top_score(ws)
        }),
{
    let pos = Position { x: 0, y };
    let c = stitched(a, b, pos, false, crop, CheckDirection::Vertical);
    let m = ImageCrop { top: crop, bottom: 0, left: 0, right: 0 };
    let ca = cropped(a, crop_policy(crop, pos, CheckDirection::Vertical));
    assert(mirrored(crop_policy(crop, pos, CheckDirection::Vertical)) == m);
    assert(c == stacked(ca, cropped(b, m), pos));
    lemma_round_trip_rows(ca, b, crop, pos, ws as int);
    lemma_window_score_max(c, b, bottom_start(y as int), 0, ws, crop as int);
    lemma_ordered_region_reaches_top(c, b, CheckDirection::Vertical, ws, MatchMode::Normal, crop as nat, None, bottom_start(y as int), 0);
    reveal(region);
}

} // verus!
