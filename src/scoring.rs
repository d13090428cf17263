use crate::edges::{edge_detection, edge_map};
use crate::error::StitchError;
use crate::geometry::{rotate90, rotated};
use crate::padded_iter::{padded_seq, PadExt, PaddingSide};
use crate::params::{CheckDirection, MatchMode, Order, OverlapScore, Position};
use crate::raster::{Raster, RasterView, Rgba};
use vstd::prelude::*;

verus! {

/// Intensity of a pixel: the mean of its channels, without the alpha
/// channel (a pixel with an even number of channels loses its last one).
pub open spec fn intensity(p: Rgba) -> u64 {
    ((p[0] + p[1] + p[2]) / 3) as u64
}

/// Intensities of row `y` of `v`, from left to right.
pub open spec fn row_values(v: RasterView, y: int) -> Seq<u64> {
    Seq::new(v.width, |x: int| intensity(v.pixel(x, y)))
}

pub open spec fn abs_diff(a: u64, b: u64) -> int {
    if a >= b {
        a - b
    } else {
        b - a
    }
}

/// Sum of `|a[i] - b[i]|` over `i < n`.
pub open spec fn abs_diff_sum(a: Seq<u64>, b: Seq<u64>, n: int) -> int
    decreases n,
{
    if n <= 0 {
        0
    } else {
        abs_diff_sum(a, b, n - 1) + abs_diff(a[n - 1], b[n - 1])
    }
}

/// The two rows after the shift: for a negative shift the first row gets
/// `-shift` zeros in front and the second as many after; otherwise the first
/// gets `shift` zeros after and the second as many in front.
pub open spec fn shifted_rows(a: Seq<u64>, b: Seq<u64>, shift: int) -> (Seq<u64>, Seq<u64>) {
    if shift < 0 {
        (
            padded_seq(a, 0u64, (-shift) as nat, PaddingSide::Start),
            padded_seq(b, 0u64, (-shift) as nat, PaddingSide::End),
        )
    } else {
        (
            padded_seq(a, 0u64, shift as nat, PaddingSide::End),
            padded_seq(b, 0u64, shift as nat, PaddingSide::Start),
        )
    }
}

/// Dissimilarity of two rows at a horizontal shift: the sum of absolute
/// intensity differences, position by position, over the shorter padded row.
pub open spec fn row_diff(a: Seq<u64>, b: Seq<u64>, shift: int) -> int {
    let (pa, pb) = shifted_rows(a, b, shift);
    abs_diff_sum(pa, pb, if pa.len() <= pb.len() { pa.len() as int } else { pb.len() as int })
}

/// Dissimilarity of the first `k` rows of the window of `a` starting at row
/// `start` against the rows of `b` starting at row `crop`.
pub open spec fn window_total(a: RasterView, b: RasterView, start: int, shift: int, crop: int, k: int) -> int
    decreases k,
{
    if k <= 0 {
        0
    } else {
        window_total(a, b, start, shift, crop, k - 1) + row_diff(
            row_values(a, start + k - 1),
            row_values(b, crop + k - 1),
            shift,
        )
    }
}

/// Similarity of a window: the dissimilarity taken from `u64::MAX` (held at
/// zero), divided by the window size.
pub open spec fn window_score(a: RasterView, b: RasterView, start: int, shift: int, ws: nat, crop: int) -> u64 {
    let t = window_total(a, b, start, shift, crop, ws as int);
    let held = if t > u64::MAX {
        u64::MAX as int
    } else {
        t
    };
    ((u64::MAX - held) / (ws as int)) as u64
}

/// The image that is scanned for `v`: turned a quarter turn for the
/// horizontal direction, then replaced by its edge map in edge mode.
pub open spec fn prepared(v: RasterView, dir: CheckDirection, mode: MatchMode) -> RasterView {
    let turned = if dir == CheckDirection::Horizontal {
        rotated(v)
    } else {
        v
    };
    if mode == MatchMode::Edges {
        edge_map(turned)
    } else {
        turned
    }
}

/// Rows of `v` along the search axis.
pub open spec fn scan_rows(v: RasterView, dir: CheckDirection) -> nat {
    if dir == CheckDirection::Horizontal {
        v.width
    } else {
        v.height
    }
}

/// Length of a row of `v` along the search axis.
pub open spec fn scan_cols(v: RasterView, dir: CheckDirection) -> nat {
    if dir == CheckDirection::Horizontal {
        v.height
    } else {
        v.width
    }
}

pub open spec fn max_nat(a: nat, b: nat) -> nat {
    if a >= b {
        a
    } else {
        b
    }
}

/// Whether a search between `a` and `b` can run: a non-empty window that
/// both images hold below their crop margin, a crop margin that leaves a
/// column for the sideways shift, and sizes that offsets can express.
pub open spec fn search_ok(a: RasterView, b: RasterView, dir: CheckDirection, ws: nat, crop: nat) -> bool {
    &&& ws >= 1
    &&& scan_rows(a, dir) >= crop + ws
    &&& scan_rows(b, dir) >= crop + ws
    &&& a.width <= i32::MAX && a.height <= i32::MAX
    &&& b.width <= i32::MAX && b.height <= i32::MAX
    &&& dir == CheckDirection::Sideways ==> max_nat(scan_cols(a, dir), scan_cols(b, dir)) > crop
}

/// Row starts that are searched: from the skip bound (held to the last
/// full window, negative bounds ignored) to the last full window.
pub open spec fn row_range(pa: RasterView, ws: nat, crop: nat, dir: CheckDirection, skip: Option<Position>) -> (int, int) {
    let last = pa.height - crop - ws;
    let wanted = match skip {
        None => 0int,
        Some(p) => {
            let v = if dir == CheckDirection::Horizontal {
                p.x as int
            } else {
                p.y as int
            };
            if v < 0 {
                0
            } else {
                v
            }
        },
    };
    (if wanted <= last {
        wanted
    } else {
        last
    }, last)
}

/// Horizontal shifts that are searched: only zero, but for the sideways
/// direction `-(width - 1 - crop) ..= width - crop`, where `width` is the wider
/// image's, starting no lower than the skip bound's `x`.
pub open spec fn shift_range(pa: RasterView, pb: RasterView, crop: nat, dir: CheckDirection, skip: Option<Position>) -> (int, int) {
    if dir == CheckDirection::Sideways {
        let width = max_nat(pa.width, pb.width);
        let lo = -(width - 1 - crop);
        let hi = width - crop;
        let wanted = match skip {
            None => lo,
            Some(p) => if p.x > lo {
                p.x as int
            } else {
                lo
            },
        };
        (if wanted <= hi {
            wanted
        } else {
            hi
        }, hi)
    } else {
        (0, 0)
    }
}

/// The offset that a candidate stands for.
pub open spec fn candidate_position(dir: CheckDirection, start: int, shift: int) -> Position {
    if dir == CheckDirection::Horizontal {
        Position { x: start as i32, y: 0 }
    } else {
        Position { x: shift as i32, y: start as i32 }
    }
}

/// Whether `(s, x)` is the chosen candidate: within both ranges, with the
/// highest score, and among the candidates with that score the one with the
/// smallest shift and, for that shift, the last row start.
pub open spec fn is_best_candidate(
    pa: RasterView,
    pb: RasterView,
    ws: nat,
    crop: nat,
    rows: (int, int),
    shifts: (int, int),
    s: int,
    x: int,
) -> bool {
    &&& rows.0 <= s <= rows.1
    &&& shifts.0 <= x <= shifts.1
    &&& forall|s2: int, x2: int|
        #![trigger window_score(pa, pb, s2, x2, ws, crop as int)]
        rows.0 <= s2 <= rows.1 && shifts.0 <= x2 <= shifts.1 ==> {
            &&& window_score(pa, pb, s2, x2, ws, crop as int) <= window_score(pa, pb, s, x, ws, crop as int)
            &&& window_score(pa, pb, s2, x2, ws, crop as int) == window_score(pa, pb, s, x, ws, crop as int)
                ==> (x < x2 || (x == x2 && s2 <= s))
        }
}

pub proof fn lemma_best_candidate_unique(
    pa: RasterView,
    pb: RasterView,
    ws: nat,
    crop: nat,
    rows: (int, int),
    shifts: (int, int),
    s1: int,
    x1: int,
    s2: int,
    x2: int,
)
    requires
        is_best_candidate(pa, pb, ws, crop, rows, shifts, s1, x1),
        is_best_candidate(pa, pb, ws, crop, rows, shifts, s2, x2),
    ensures
        s1 == s2,
        x1 == x2,
{
    assert(window_score(pa, pb, s2, x2, ws, crop as int) <= window_score(pa, pb, s1, x1, ws, crop as int));
    assert(window_score(pa, pb, s1, x1, ws, crop as int) <= window_score(pa, pb, s2, x2, ws, crop as int));
}

/// The best match of `b` against `a` with `a` in the first role.
#[verifier::opaque]
pub open spec fn ordered_region(
    a: RasterView,
    b: RasterView,
    dir: CheckDirection,
    ws: nat,
    mode: MatchMode,
    crop: nat,
    skip: Option<Position>,
) -> OverlapScore {
    let pa = prepared(a, dir, mode);
    let pb = prepared(b, dir, mode);
    let rows = row_range(pa, ws, crop, dir, skip);
    let shifts = shift_range(pa, pb, crop, dir, skip);
    let (s, x) = choose|s: int, x: int| is_best_candidate(pa, pb, ws, crop, rows, shifts, s, x);
    OverlapScore {
        score: window_score(pa, pb, s, x, ws, crop as int),
        flipped: false,
        position: candidate_position(dir, s, x),
    }
}

/// What the search returns: for an unordered pair both roles are tried, and
/// the reversed one, marked flipped, wins unless the first scores higher.
#[verifier::opaque]
pub open spec fn region(
    a: RasterView,
    b: RasterView,
    dir: CheckDirection,
    order: Order,
    ws: nat,
    mode: MatchMode,
    crop: nat,
    skip: Option<Position>,
) -> OverlapScore {
    let first = ordered_region(a, b, dir, ws, mode, crop, skip);
    match order {
        Order::Ordered => first,
        Order::Unordered => {
            let second = ordered_region(b, a, dir, ws, mode, crop, skip);
            if first.score > second.score {
                first
            } else {
                OverlapScore { flipped: true, ..second }
            }
        },
    }
}

/// Intensity of one pixel.
pub fn pixel_as_value(p: Rgba) -> (r: u64)
    ensures
        r == intensity(p),
        r <= 255,
{
    (p[0] as u64 + p[1] as u64 + p[2] as u64) / 3
}

/// Intensities of every row of `image`.
fn intensity_rows(image: &Raster) -> (r: Vec<Vec<u64>>)
    requires
        image.wf(),
    ensures
        r@.len() == image.height,
        forall|y: int| 0 <= y < image.height ==> #[trigger] r@[y]@ == row_values(image@, y),
{
    let mut rows: Vec<Vec<u64>> = Vec::new();
    let mut y: u32 = 0;
    while y < image.height
        invariant
            image.wf(),
            y <= image.height,
            rows@.len() == y,
            forall|j: int| 0 <= j < y ==> #[trigger] rows@[j]@ == row_values(image@, j),
        decreases image.height - y,
    {
        let mut row: Vec<u64> = Vec::new();
        let mut x: u32 = 0;
        while x < image.width
            invariant
                image.wf(),
                y < image.height,
                x <= image.width,
                row@ == row_values(image@, y as int).subrange(0, x as int),
            decreases image.width - x,
        {
            row.push(pixel_as_value(image.get_pixel(x, y)));
            assert(row@ =~= row_values(image@, y as int).subrange(0, x + 1));
            x = x + 1;
        }
        assert(row@ =~= row_values(image@, y as int));
        rows.push(row);
        y = y + 1;
    }
    rows
}

fn copy_row(row: &Vec<u64>) -> (r: Vec<u64>)
    ensures
        r@ == row@,
{
    let mut out: Vec<u64> = Vec::new();
    let mut i: usize = 0;
    while i < row.len()
        invariant
            i <= row@.len(),
            out@ == row@.subrange(0, i as int),
        decreases row@.len() - i,
    {
        out.push(row[i]);
        assert(out@ =~= row@.subrange(0, i + 1));
        i = i + 1;
    }
    assert(out@ =~= row@);
    out
}

pub proof fn lemma_abs_diff_sum_bound(a: Seq<u64>, b: Seq<u64>, n: int)
    requires
        n <= a.len(),
        n <= b.len(),
        forall|i: int| 0 <= i < a.len() ==> a[i] <= 255,
        forall|i: int| 0 <= i < b.len() ==> b[i] <= 255,
    ensures
        0 <= abs_diff_sum(a, b, n) <= 255 * (if n < 0 { 0 } else { n }),
    decreases n,
{
    if n > 0 {
        lemma_abs_diff_sum_bound(a, b, n - 1);
    }
}

/// Dissimilarity of two rows of intensities at a horizontal shift.
pub fn row_diff_score(row1: &Vec<u64>, row2: &Vec<u64>, padding: i32) -> (r: u64)
    requires
        row1@.len() <= i32::MAX,
        row2@.len() <= i32::MAX,
        forall|i: int| 0 <= i < row1@.len() ==> row1@[i] <= 255,
        forall|i: int| 0 <= i < row2@.len() ==> row2@[i] <= 255,
    ensures
        r == row_diff(row1@, row2@, padding as int),
        r <= 255 * 4294967296u64,
{
    let count: usize = if padding < 0 {
        (-(padding as i64)) as usize
    } else {
        padding as usize
    };
    let ghost pair = shifted_rows(row1@, row2@, padding as int);
    let mut first;
    let mut second;
    if padding < 0 {
        first = copy_row(row1).pad_start(0, count);
        second = copy_row(row2).pad_end(0, count);
    } else {
        first = copy_row(row1).pad_end(0, count);
        second = copy_row(row2).pad_start(0, count);
    }
    let ghost pa = pair.0;
    let ghost pb = pair.1;
    let ghost n: int = if pa.len() <= pb.len() {
        pa.len() as int
    } else {
        pb.len() as int
    };
    proof {
        assert forall|i: int| 0 <= i < pa.len() implies pa[i] <= 255 by {
            if padding < 0 {
                if i >= count {
                    assert(pa[i] == row1@[i - count]);
                }
            } else {
                if i < row1@.len() {
                    assert(pa[i] == row1@[i]);
                }
            }
        }
        assert forall|i: int| 0 <= i < pb.len() implies pb[i] <= 255 by {
            if padding < 0 {
                if i < row2@.len() {
                    assert(pb[i] == row2@[i]);
                }
            } else {
                if i >= count {
                    assert(pb[i] == row2@[i - count]);
                }
            }
        }
    }
    let mut score: u64 = 0;
    let ghost mut k: int = 0;
    loop
        invariant_except_break
            first@ == pa.skip(k),
            second@ == pb.skip(k),
        invariant
            first.wf(),
            second.wf(),
            0 <= k <= n,
            n == if pa.len() <= pb.len() { pa.len() as int } else { pb.len() as int },
            n <= 4294967296,
            forall|i: int| 0 <= i < pa.len() ==> pa[i] <= 255,
            forall|i: int| 0 <= i < pb.len() ==> pb[i] <= 255,
            score == abs_diff_sum(pa, pb, k),
            row_diff(row1@, row2@, padding as int) == abs_diff_sum(pa, pb, n),
        ensures
            score == abs_diff_sum(pa, pb, n),
        decreases n - k,
    {
        let p1 = first.next();
        let p2 = second.next();
        match (p1, p2) {
            (Some(v1), Some(v2)) => {
                proof {
                    lemma_abs_diff_sum_bound(pa, pb, k + 1);
                    assert(255 * (k + 1) <= 255 * 4294967296) by (nonlinear_arith)
                        requires k + 1 <= 4294967296;
                }
                let d = if v1 >= v2 {
                    v1 - v2
                } else {
                    v2 - v1
                };
                score = score + d;
                proof {
                    k = k + 1;
                    assert(first@ =~= pa.skip(k));
                    assert(second@ =~= pb.skip(k));
                }
            },
            _ => {
                break ;
            },
        }
    }
    proof {
        lemma_abs_diff_sum_bound(pa, pb, n);
        assert(255 * n <= 255 * 4294967296) by (nonlinear_arith)
            requires n <= 4294967296;
    }
    score
}


pub proof fn lemma_row_values_bound(v: RasterView, y: int)
    ensures
        forall|i: int| 0 <= i < row_values(v, y).len() ==> row_values(v, y)[i] <= 255,
{
}

/// Similarity of the window of `ws` rows of `a` starting at row `start`
/// against the rows of `b` starting at row `crop`, at a horizontal shift.
fn window_score_of(
    a: &Raster,
    b: &Raster,
    rows_a: &Vec<Vec<u64>>,
    rows_b: &Vec<Vec<u64>>,
    start: usize,
    shift: i32,
    ws: usize,
    crop: usize,
) -> (r: u64)
    requires
        a.wf(),
        b.wf(),
        a.width <= i32::MAX,
        b.width <= i32::MAX,
        ws >= 1,
        rows_a@.len() == a.height,
        rows_b@.len() == b.height,
        forall|y: int| 0 <= y < a.height ==> #[trigger] rows_a@[y]@ == row_values(a@, y),
        forall|y: int| 0 <= y < b.height ==> #[trigger] rows_b@[y]@ == row_values(b@, y),
        start + ws <= a.height,
        crop + ws <= b.height,
    ensures
        r == window_score(a@, b@, start as int, shift as int, ws as nat, crop as int),
{
    let mut total: u64 = 0;
    let mut k: usize = 0;
    while k < ws
        invariant
            a.wf(),
            b.wf(),
            a.width <= i32::MAX,
            b.width <= i32::MAX,
            rows_a@.len() == a.height,
            rows_b@.len() == b.height,
            forall|y: int| 0 <= y < a.height ==> #[trigger] rows_a@[y]@ == row_values(a@, y),
            forall|y: int| 0 <= y < b.height ==> #[trigger] rows_b@[y]@ == row_values(b@, y),
            start + ws <= a.height,
            crop + ws <= b.height,
            k <= ws,
            window_total(a@, b@, start as int, shift as int, crop as int, k as int) >= 0,
            total == if window_total(a@, b@, start as int, shift as int, crop as int, k as int) > u64::MAX {
                u64::MAX as int
            } else {
                window_total(a@, b@, start as int, shift as int, crop as int, k as int)
            },
        decreases ws - k,
    {
        let ghost ra = row_values(a@, start + k);
        let ghost rb = row_values(b@, crop + k);
        proof {
            lemma_row_values_bound(a@, start + k);
            lemma_row_values_bound(b@, crop + k);
            assert(rows_a@[start + k]@ == ra);
            assert(rows_b@[crop + k]@ == rb);
            let (pa, pb) = shifted_rows(ra, rb, shift as int);
            lemma_abs_diff_sum_bound(pa, pb, 0);
        }
        let d = row_diff_score(&rows_a[start + k], &rows_b[crop + k], shift);
        proof {
            let (pa, pb) = shifted_rows(ra, rb, shift as int);
            let n = if pa.len() <= pb.len() { pa.len() as int } else { pb.len() as int };
            assert forall|i: int| 0 <= i < pa.len() implies pa[i] <= 255 by {
                if shift < 0 {
                    if i >= -shift {
                        assert(pa[i] == ra[i + shift]);
                    }
                } else {
                    if i < ra.len() {
                        assert(pa[i] == ra[i]);
                    }
                }
            }
            assert forall|i: int| 0 <= i < pb.len() implies pb[i] <= 255 by {
                if shift < 0 {
                    if i < rb.len() {
                        assert(pb[i] == rb[i]);
                    }
                } else {
                    if i >= shift {
                        assert(pb[i] == rb[i - shift]);
                    }
                }
            }
            lemma_abs_diff_sum_bound(pa, pb, n);
        }
        total = total.saturating_add(d);
        k = k + 1;
    }
    (u64::MAX - total) / (ws as u64)
}

/// The best candidate over the given row starts and shifts, scanning the
/// shifts upwards and, for each, the row starts upwards.
fn scan_candidates(
    a: &Raster,
    b: &Raster,
    ws: usize,
    crop: usize,
    rlo: usize,
    rhi: usize,
    xlo: i32,
    xhi: i32,
) -> (r: (usize, i32, u64))
    requires
        a.wf(),
        b.wf(),
        a.width <= i32::MAX,
        b.width <= i32::MAX,
        ws >= 1,
        rlo <= rhi,
        xlo <= xhi,
        rhi + ws <= a.height,
        crop + ws <= b.height,
    ensures
        is_best_candidate(a@, b@, ws as nat, crop as nat, (rlo as int, rhi as int), (xlo as int, xhi as int), r.0 as int, r.1 as int),
        r.2 == window_score(a@, b@, r.0 as int, r.1 as int, ws as nat, crop as int),
{
    let rows_a = intensity_rows(a);
    let rows_b = intensity_rows(b);
    let ghost sc = |s: int, x: int| window_score(a@, b@, s, x, ws as nat, crop as int);
    let mut best_s: usize = rlo;
    let mut best_x: i32 = xlo;
    let mut best: u64 = window_score_of(a, b, &rows_a, &rows_b, rlo, xlo, ws, crop);
    let mut x: i64 = xlo as i64;
    while x <= xhi as i64
        invariant
            a.wf(),
            b.wf(),
            a.width <= i32::MAX,
            b.width <= i32::MAX,
            ws >= 1,
            rlo <= rhi,
            rhi + ws <= a.height,
            crop + ws <= b.height,
            rows_a@.len() == a.height,
            rows_b@.len() == b.height,
            forall|y: int| 0 <= y < a.height ==> #[trigger] rows_a@[y]@ == row_values(a@, y),
            forall|y: int| 0 <= y < b.height ==> #[trigger] rows_b@[y]@ == row_values(b@, y),
            xlo <= x <= xhi + 1,
            rlo <= best_s <= rhi,
            xlo <= best_x <= xhi,
            best_x <= x,
            best == window_score(a@, b@, best_s as int, best_x as int, ws as nat, crop as int),
            forall|s2: int, x2: int|
                #![trigger window_score(a@, b@, s2, x2, ws as nat, crop as int)]
                rlo <= s2 <= rhi && xlo <= x2 < x ==> {
                    &&& window_score(a@, b@, s2, x2, ws as nat, crop as int) <= best
                    &&& window_score(a@, b@, s2, x2, ws as nat, crop as int) == best
                        ==> (best_x < x2 || (best_x == x2 && s2 <= best_s))
                },
        decreases xhi - x + 1,
    {
        let mut s: usize = rlo;
        while s <= rhi
            invariant
                a.wf(),
                b.wf(),
                a.width <= i32::MAX,
                b.width <= i32::MAX,
                ws >= 1,
                rlo <= rhi,
                rhi + ws <= a.height,
                crop + ws <= b.height,
                rows_a@.len() == a.height,
                rows_b@.len() == b.height,
                forall|y: int| 0 <= y < a.height ==> #[trigger] rows_a@[y]@ == row_values(a@, y),
                forall|y: int| 0 <= y < b.height ==> #[trigger] rows_b@[y]@ == row_values(b@, y),
                xlo <= x <= xhi,
                rlo <= s <= rhi + 1,
                rlo <= best_s <= rhi,
                xlo <= best_x <= xhi,
                best_x <= x,
                best == window_score(a@, b@, best_s as int, best_x as int, ws as nat, crop as int),
                forall|s2: int, x2: int|
                    #![trigger window_score(a@, b@, s2, x2, ws as nat, crop as int)]
                    rlo <= s2 <= rhi && (xlo <= x2 < x || (x2 == x && rlo <= s2 < s)) ==> {
                        &&& window_score(a@, b@, s2, x2, ws as nat, crop as int) <= best
                        &&& window_score(a@, b@, s2, x2, ws as nat, crop as int) == best
                            ==> (best_x < x2 || (best_x == x2 && s2 <= best_s))
                    },
            decreases rhi - s + 1,
        {
            let score = window_score_of(a, b, &rows_a, &rows_b, s, x as i32, ws, crop);
            if score > best || (score == best && x as i32 == best_x) {
                best = score;
                best_s = s;
                best_x = x as i32;
            }
            s = s + 1;
        }
        x = x + 1;
    }
    (best_s, best_x, best)
}

/// The image that is scanned for `image` under `dir` and `mode`.
fn prepare(image: &Raster, dir: CheckDirection, mode: MatchMode) -> (r: Raster)
    requires
        image.wf(),
    ensures
        r.wf(),
        r@ == prepared(image@, dir, mode),
{
    let turned = match dir {
        CheckDirection::Horizontal => rotate90(image),
        _ => image.copy(),
    };
    match mode {
        MatchMode::Edges => edge_detection(&turned),
        MatchMode::Normal => turned,
    }
}

/// Why a search between `a` and `b` cannot run.
pub open spec fn search_error(a: RasterView, b: RasterView, dir: CheckDirection, ws: nat, crop: nat) -> StitchError {
    if ws < 1 || scan_rows(a, dir) < crop + ws || scan_rows(b, dir) < crop + ws {
        StitchError::NotEnoughRows
    } else if a.width > i32::MAX || a.height > i32::MAX || b.width > i32::MAX || b.height > i32::MAX {
        StitchError::TooLarge
    } else {
        StitchError::CropTooLarge
    }
}

/// Whether a search between `part1` and `part2` can run (see `search_ok`),
/// and if not, why.
pub fn check_search(part1: &Raster, part2: &Raster, direction: CheckDirection, window_size: usize, crop: u32) -> (r: Result<(), StitchError>)
    ensures
        r is Ok <==> search_ok(part1@, part2@, direction, window_size as nat, crop as nat),
        r matches Err(e) ==> e == search_error(part1@, part2@, direction, window_size as nat, crop as nat),
{
    let (rows1, cols1, rows2, cols2) = match direction {
        CheckDirection::Horizontal => (part1.width, part1.height, part2.width, part2.height),
        _ => (part1.height, part1.width, part2.height, part2.width),
    };
    let rows_ok = window_size >= 1 && rows1 >= crop && rows2 >= crop
        && (rows1 - crop) as usize >= window_size && (rows2 - crop) as usize >= window_size;
    if !rows_ok {
        return Err(StitchError::NotEnoughRows);
    }
    let small = part1.width <= i32::MAX as u32 && part1.height <= i32::MAX as u32
        && part2.width <= i32::MAX as u32 && part2.height <= i32::MAX as u32;
    if !small {
        return Err(StitchError::TooLarge);
    }
    let cols_ok = match direction {
        CheckDirection::Sideways => cols1 > crop || cols2 > crop,
        _ => true,
    };
    if !cols_ok {
        return Err(StitchError::CropTooLarge);
    }
    Ok(())
}

/// The best match of `part2` against `part1`, with `part1` in the first role.
fn best_ordered(
    part1: &Raster,
    part2: &Raster,
    direction: CheckDirection,
    window_size: usize,
    match_mode: MatchMode,
    crop: u32,
    skip: Option<Position>,
) -> (r: OverlapScore)
    requires
        part1.wf(),
        part2.wf(),
        search_ok(part1@, part2@, direction, window_size as nat, crop as nat),
    ensures
        r == ordered_region(part1@, part2@, direction, window_size as nat, match_mode, crop as nat, skip),
{
    let pa = prepare(part1, direction, match_mode);
    let pb = prepare(part2, direction, match_mode);
    let ghost rows = row_range(pa@, window_size as nat, crop as nat, direction, skip);
    let ghost shifts = shift_range(pa@, pb@, crop as nat, direction, skip);
    let crop_rows = crop as usize;
    let last: usize = pa.height as usize - crop_rows - window_size;
    let wanted: usize = match skip {
        None => 0,
        Some(p) => {
            let v = match direction {
                CheckDirection::Horizontal => p.x,
                _ => p.y,
            };
            if v < 0 {
                0
            } else {
                v as usize
            }
        },
    };
    let first_row: usize = if wanted <= last {
        wanted
    } else {
        last
    };
    let (first_shift, last_shift): (i32, i32) = match direction {
        CheckDirection::Sideways => {
            let width: u32 = if pa.width >= pb.width {
                pa.width
            } else {
                pb.width
            };
            let lo: i32 = -((width - 1 - crop) as i32);
            let hi: i32 = (width - crop) as i32;
            let wanted_x: i32 = match skip {
                None => lo,
                Some(p) => if p.x > lo {
                    p.x
                } else {
                    lo
                },
            };
            (if wanted_x <= hi {
                wanted_x
            } else {
                hi
            }, hi)
        },
        _ => (0, 0),
    };
    assert(rows == (first_row as int, last as int));
    assert(shifts == (first_shift as int, last_shift as int));
    let (s, x, score) = scan_candidates(&pa, &pb, window_size, crop_rows, first_row, last, first_shift, last_shift);
    let position = match direction {
        CheckDirection::Horizontal => Position { x: s as i32, y: 0 },
        _ => Position { x: x, y: s as i32 },
    };
    proof {
        reveal(ordered_region);
        let (cs, cx) = choose|cs: int, cx: int| is_best_candidate(pa@, pb@, window_size as nat, crop as nat, rows, shifts, cs, cx);
        lemma_best_candidate_unique(pa@, pb@, window_size as nat, crop as nat, rows, shifts, s as int, x as int, cs, cx);
    }
    OverlapScore { score, flipped: false, position }
}

/// Searches the offset at which `part2` best continues `part1` along
/// `direction`: every window of `window_size` rows of `part1` (from the skip
/// bound on, above its crop margin) is compared with the window of `part2`
/// that starts below its top crop margin, at every horizontal shift that the
/// direction allows. For an unordered pair the reversed roles are tried too.
pub fn find_stitch_region(
    part1: &Raster,
    part2: &Raster,
    direction: CheckDirection,
    order: Order,
    window_size: usize,
    match_mode: MatchMode,
    crop: u32,
    skip: Option<Position>,
) -> (r: OverlapScore)
    requires
        part1.wf(),
        part2.wf(),
        search_ok(part1@, part2@, direction, window_size as nat, crop as nat),
    ensures
        r == region(part1@, part2@, direction, order, window_size as nat, match_mode, crop as nat, skip),
{
    reveal(region);
    let first = best_ordered(part1, part2, direction, window_size, match_mode, crop, skip);
    match order {
        Order::Ordered => first,
        Order::Unordered => {
            let mut second = best_ordered(part2, part1, direction, window_size, match_mode, crop, skip);
            second.flipped = true;
            if first.score > second.score {
                first
            } else {
                second
            }
        },
    }
}

} // verus!
