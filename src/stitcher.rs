use crate::compose::{check_stitch, stitch_error, stitch_images, stitch_ok, stitched};
use crate::error::StitchError;
use crate::params::{CheckDirection, MatchMode, Order, OverlapScore, Position};
use crate::raster::{Raster, RasterView};
use crate::scoring::{check_search, find_stitch_region, region, search_error, search_ok};
use vstd::prelude::*;

verus! {

/// The views of a sequence of images.
pub open spec fn views(images: Seq<Raster>) -> Seq<RasterView> {
    images.map_values(|r: Raster| r@)
}

/// The view of a run's outcome.
pub open spec fn outcome_view(r: Result<(Raster, Vec<Position>), StitchError>) -> Result<(RasterView, Seq<Position>), StitchError> {
    match r {
        Ok((image, positions)) => Ok((image@, positions@)),
        Err(e) => Err(e),
    }
}

/// The trail after a merge at `p`: the first position starts it; otherwise
/// `p` goes in front, or, when the roles were flipped, every earlier
/// position is moved by `p` and `p` goes at the end.
pub open spec fn add_ordered(trail: Seq<Position>, p: Position, flipped: bool) -> Seq<Position> {
    if trail.len() == 0 {
        seq![p]
    } else if flipped {
        trail.map_values(|q: Position| q.plus(p)).push(p)
    } else {
        seq![p] + trail
    }
}

/// The composite and the trail after the first `k` images were folded
/// together in order, or the error that stopped the fold.
pub open spec fn ordered_state(
    images: Seq<RasterView>,
    k: nat,
    dir: CheckDirection,
    ws: nat,
    mode: MatchMode,
    crop: u32,
) -> Result<(RasterView, Seq<Position>), StitchError>
    decreases k,
{
    if k <= 1 {
        Ok((images[0], Seq::empty()))
    } else {
        match ordered_state(images, (k - 1) as nat, dir, ws, mode, crop) {
            Err(e) => Err(e),
            Ok((cur, trail)) => {
                let next = images[k - 1];
                if !search_ok(cur, next, dir, ws, crop as nat) {
                    Err(search_error(cur, next, dir, ws, crop as nat))
                } else {
                    let skip = if trail.len() > 0 {
                        Some(trail[0])
                    } else {
                        None
                    };
                    let r = region(cur, next, dir, Order::Ordered, ws, mode, crop as nat, skip);
                    if !stitch_ok(cur, next, r.position, false, crop, dir) {
                        Err(stitch_error(cur, next, r.position, false, crop, dir))
                    } else {
                        Ok((stitched(cur, next, r.position, false, crop, dir), add_ordered(trail, r.position, false)))
                    }
                }
            },
        }
    }
}

pub proof fn lemma_ordered_error_stays(
    images: Seq<RasterView>,
    k: nat,
    m: nat,
    dir: CheckDirection,
    ws: nat,
    mode: MatchMode,
    crop: u32,
)
    requires
        1 <= k <= m,
        ordered_state(images, k, dir, ws, mode, crop) is Err,
    ensures
        ordered_state(images, m, dir, ws, mode, crop) == ordered_state(images, k, dir, ws, mode, crop),
    decreases m - k,
{
    if k < m {
        lemma_ordered_error_stays(images, k, (m - 1) as nat, dir, ws, mode, crop);
    }
}

/// The working state of an unordered run: the images left, the logical id
/// of each, the positions recorded so far (each tagged with the id of the
/// image it now belongs to, in merge order), and the next id to hand out.
pub struct MergeState {
    pub images: Seq<RasterView>,
    pub ids: Seq<usize>,
    pub records: Seq<(usize, Position)>,
    pub next_id: usize,
}

/// Score of the pair `(i, j)` of a working set, both roles tried.
pub open spec fn pair_score(imgs: Seq<RasterView>, i: int, j: int, dir: CheckDirection, ws: nat, mode: MatchMode, crop: u32) -> u64 {
    region(imgs[i], imgs[j], dir, Order::Unordered, ws, mode, crop as nat, None).score
}

/// The first pair from `(i, j)` on, in the order `(0, 1), (0, 2), ..., (1, 2), ...`,
/// that cannot be searched, and why.
pub open spec fn first_failure(imgs: Seq<RasterView>, i: int, j: int, dir: CheckDirection, ws: nat, crop: u32) -> Option<StitchError>
    decreases imgs.len() - i, imgs.len() - j,
{
    if i < 0 || i + 1 >= imgs.len() {
        None
    } else if j >= imgs.len() || j <= i {
        first_failure(imgs, i + 1, i + 2, dir, ws, crop)
    } else if !search_ok(imgs[i], imgs[j], dir, ws, crop as nat) {
        Some(search_error(imgs[i], imgs[j], dir, ws, crop as nat))
    } else {
        first_failure(imgs, i, j + 1, dir, ws, crop)
    }
}

/// Whether `(i, j)` is the pair to merge: the highest score, and among
/// equal scores the first pair in order.
pub open spec fn is_best_pair(imgs: Seq<RasterView>, i: int, j: int, dir: CheckDirection, ws: nat, mode: MatchMode, crop: u32) -> bool {
    &&& 0 <= i < j < imgs.len()
    &&& forall|i2: int, j2: int|
        #![trigger pair_score(imgs, i2, j2, dir, ws, mode, crop)]
        0 <= i2 < j2 < imgs.len() ==> {
            &&& pair_score(imgs, i2, j2, dir, ws, mode, crop) <= pair_score(imgs, i, j, dir, ws, mode, crop)
            &&& pair_score(imgs, i2, j2, dir, ws, mode, crop) == pair_score(imgs, i, j, dir, ws, mode, crop)
                ==> (i < i2 || (i == i2 && j <= j2))
        }
}

pub proof fn lemma_best_pair_unique(
    imgs: Seq<RasterView>,
    i1: int,
    j1: int,
    i2: int,
    j2: int,
    dir: CheckDirection,
    ws: nat,
    mode: MatchMode,
    crop: u32,
)
    requires
        is_best_pair(imgs, i1, j1, dir, ws, mode, crop),
        is_best_pair(imgs, i2, j2, dir, ws, mode, crop),
    ensures
        i1 == i2,
        j1 == j2,
{
    assert(pair_score(imgs, i1, j1, dir, ws, mode, crop) <= pair_score(imgs, i2, j2, dir, ws, mode, crop));
    assert(pair_score(imgs, i2, j2, dir, ws, mode, crop) <= pair_score(imgs, i1, j1, dir, ws, mode, crop));
}

/// The records after a merge of the images `id1` and `id2` into `new_id` at
/// `p`: their records move to `new_id`, and those of the image that was not
/// the placement origin (`id1` when flipped, else `id2`) are moved by `p`.
pub open spec fn rebase(records: Seq<(usize, Position)>, id1: usize, id2: usize, p: Position, flipped: bool, new_id: usize) -> Seq<(usize, Position)> {
    let secondary = if flipped {
        id1
    } else {
        id2
    };
    records.map_values(|rec: (usize, Position)| if rec.0 == id1 || rec.0 == id2 {
        (new_id, if rec.0 == secondary {
            rec.1.plus(p)
        } else {
            rec.1
        })
    } else {
        rec
    })
}

/// Whether every record that `rebase` moves stays within `i32`.
pub open spec fn rebase_ok(records: Seq<(usize, Position)>, id1: usize, id2: usize, p: Position, flipped: bool) -> bool {
    let secondary = if flipped {
        id1
    } else {
        id2
    };
    forall|k: int| 0 <= k < records.len() && (#[trigger] records[k]).0 == secondary ==> records[k].1.can_add(p)
}

/// One merge of an unordered run: the best pair `(i, j)` is removed, image
/// `j` is composited with image `i` (roles as the search found them), and
/// the composite joins the working set under a new id.
pub open spec fn unordered_step(st: MergeState, dir: CheckDirection, ws: nat, mode: MatchMode, crop: u32) -> Result<MergeState, StitchError> {
    match first_failure(st.images, 0, 1, dir, ws, crop) {
        Some(e) => Err(e),
        None => {
            let (i, j) = choose|i: int, j: int| is_best_pair(st.images, i, j, dir, ws, mode, crop);
            let r = region(st.images[i], st.images[j], dir, Order::Unordered, ws, mode, crop as nat, None);
            let flipped = !r.flipped;
            let a = st.images[j];
            let b = st.images[i];
            if !stitch_ok(a, b, r.position, flipped, crop, dir) {
                Err(stitch_error(a, b, r.position, flipped, crop, dir))
            } else if !rebase_ok(st.records, st.ids[j], st.ids[i], r.position, flipped) {
                Err(StitchError::PositionOverflow)
            } else {
                Ok(MergeState {
                    images: st.images.remove(j).remove(i).push(stitched(a, b, r.position, flipped, crop, dir)),
                    ids: st.ids.remove(j).remove(i).push(st.next_id),
                    records: rebase(st.records, st.ids[j], st.ids[i], r.position, flipped, st.next_id).push((st.next_id, r.position)),
                    next_id: (st.next_id + 1) as usize,
                })
            }
        },
    }
}

/// The working state after `steps` merges of an unordered run.
pub open spec fn unordered_state(images: Seq<RasterView>, steps: nat, dir: CheckDirection, ws: nat, mode: MatchMode, crop: u32) -> Result<MergeState, StitchError>
    decreases steps,
{
    if steps == 0 {
        Ok(MergeState {
            images,
            ids: Seq::new(images.len(), |k: int| k as usize),
            records: Seq::empty(),
            next_id: images.len() as usize,
        })
    } else {
        match unordered_state(images, (steps - 1) as nat, dir, ws, mode, crop) {
            Err(e) => Err(e),
            Ok(st) => unordered_step(st, dir, ws, mode, crop),
        }
    }
}

/// The outcome of an unordered run: after one merge fewer than there are
/// images, the one image left and the recorded positions.
pub open spec fn unordered_outcome(images: Seq<RasterView>, dir: CheckDirection, ws: nat, mode: MatchMode, crop: u32) -> Result<(RasterView, Seq<Position>), StitchError> {
    match unordered_state(images, (images.len() - 1) as nat, dir, ws, mode, crop) {
        Ok(st) => Ok((st.images[0], st.records.map_values(|rec: (usize, Position)| rec.1))),
        Err(e) => Err(e),
    }
}

pub proof fn lemma_unordered_error_stays(
    images: Seq<RasterView>,
    k: nat,
    m: nat,
    dir: CheckDirection,
    ws: nat,
    mode: MatchMode,
    crop: u32,
)
    requires
        k <= m,
        unordered_state(images, k, dir, ws, mode, crop) is Err,
    ensures
        unordered_state(images, m, dir, ws, mode, crop) == unordered_state(images, k, dir, ws, mode, crop),
    decreases m - k,
{
    if k < m {
        lemma_unordered_error_stays(images, k, (m - 1) as nat, dir, ws, mode, crop);
    }
}

/// The pair of `imgs` to merge next, with its search result, or the first
/// pair that cannot be searched and why.
fn best_pair(imgs: &Vec<Raster>, dir: CheckDirection, ws: usize, mode: MatchMode, crop: u32) -> (r: Result<(usize, usize, OverlapScore), StitchError>)
    requires
        imgs@.len() >= 2,
        forall|i: int| 0 <= i < imgs@.len() ==> (#[trigger] imgs@[i]).wf(),
    ensures
        r matches Err(e) ==> first_failure(views(imgs@), 0, 1, dir, ws as nat, crop) == Some(e),
        r matches Ok((i, j, found)) ==> {
            &&& first_failure(views(imgs@), 0, 1, dir, ws as nat, crop) is None
            &&& is_best_pair(views(imgs@), i as int, j as int, dir, ws as nat, mode, crop)
            &&& found == region(imgs@[i as int]@, imgs@[j as int]@, dir, Order::Unordered, ws as nat, mode, crop as nat, None)
        },
{
    let ghost v = views(imgs@);
    let n = imgs.len();
    assert(v[0] == imgs@[0]@ && v[1] == imgs@[1]@);
    if let Err(e) = check_search(&imgs[0], &imgs[1], dir, ws, crop) {
        return Err(e);
    }
    let mut best = find_stitch_region(&imgs[0], &imgs[1], dir, Order::Unordered, ws, mode, crop, None);
    let mut bi: usize = 0;
    let mut bj: usize = 1;
    let mut i: usize = 0;
    let mut j: usize = 2;
    assert(first_failure(v, 0, 1, dir, ws as nat, crop) == first_failure(v, 0, 2, dir, ws as nat, crop));
    while i + 1 < n
        invariant
            n == imgs@.len(),
            n >= 2,
            v == views(imgs@),
            forall|k: int| 0 <= k < imgs@.len() ==> (#[trigger] imgs@[k]).wf(),
            i < j <= n,
            first_failure(v, 0, 1, dir, ws as nat, crop) == first_failure(v, i as int, j as int, dir, ws as nat, crop),
            0 <= bi < bj < n,
            bi < i || (bi == i && bj < j),
            best == region(v[bi as int], v[bj as int], dir, Order::Unordered, ws as nat, mode, crop as nat, None),
            forall|i2: int, j2: int|
                #![trigger pair_score(v, i2, j2, dir, ws as nat, mode, crop)]
                0 <= i2 < j2 < n && (i2 < i || (i2 == i && j2 < j)) ==> {
                    &&& pair_score(v, i2, j2, dir, ws as nat, mode, crop) <= best.score
                    &&& pair_score(v, i2, j2, dir, ws as nat, mode, crop) == best.score
                        ==> (bi < i2 || (bi == i2 && bj <= j2))
                },
        decreases n - i, n - j,
    {
        if j < n {
            assert(v[i as int] == imgs@[i as int]@ && v[j as int] == imgs@[j as int]@);
            if let Err(e) = check_search(&imgs[i], &imgs[j], dir, ws, crop) {
                return Err(e);
            }
            let found = find_stitch_region(&imgs[i], &imgs[j], dir, Order::Unordered, ws, mode, crop, None);
            assert(pair_score(v, i as int, j as int, dir, ws as nat, mode, crop) == found.score);
            if found.score > best.score {
                best = found;
                bi = i;
                bj = j;
            }
            j = j + 1;
        } else {
            i = i + 1;
            j = i + 1;
        }
    }
    assert(v[bi as int] == imgs@[bi as int]@ && v[bj as int] == imgs@[bj as int]@);
    Ok((bi, bj, best))
}

/// Whether every record of `secondary` can be moved by `p`.
fn rebase_possible(records: &Vec<(usize, Position)>, secondary: usize, p: Position) -> (r: bool)
    ensures
        r == forall|k: int| 0 <= k < records@.len() && (#[trigger] records@[k]).0 == secondary ==> records@[k].1.can_add(p),
{
    let mut k: usize = 0;
    while k < records.len()
        invariant
            k <= records@.len(),
            forall|m: int| 0 <= m < k && (#[trigger] records@[m]).0 == secondary ==> records@[m].1.can_add(p),
        decreases records@.len() - k,
    {
        if records[k].0 == secondary && records[k].1.checked_add(p).is_none() {
            return false;
        }
        k = k + 1;
    }
    true
}

fn positions_of(records: &Vec<(usize, Position)>) -> (r: Vec<Position>)
    ensures
        r@ == records@.map_values(|rec: (usize, Position)| rec.1),
{
    let mut out: Vec<Position> = Vec::new();
    let mut k: usize = 0;
    while k < records.len()
        invariant
            k <= records@.len(),
            out@ == records@.subrange(0, k as int).map_values(|rec: (usize, Position)| rec.1),
        decreases records@.len() - k,
    {
        out.push(records[k].1);
        assert(out@ =~= records@.subrange(0, k + 1).map_values(|rec: (usize, Position)| rec.1));
        k = k + 1;
    }
    assert(records@.subrange(0, k as int) =~= records@);
    out
}

/// Stitches a set of images into one composite.
#[derive(Debug)]
pub struct ImageStitcher {
    pub images: Vec<Raster>,
    pub order: Order,
    pub direction: CheckDirection,
    pub window_size: usize,
    pub match_mode: MatchMode,
    pub crop: u32,
}

impl ImageStitcher {
    pub fn new(
        images: Vec<Raster>,
        order: Order,
        direction: CheckDirection,
        window_size: usize,
        match_mode: MatchMode,
        crop: u32,
    ) -> (r: ImageStitcher)
        ensures
            r.images@ == images@,
            r.order == order,
            r.direction == direction,
            r.window_size == window_size,
            r.match_mode == match_mode,
            r.crop == crop,
    {
        ImageStitcher { images, order, direction, window_size, match_mode, crop }
    }

    /// Records the position of a merge in an ordered fold; see `add_ordered`.
    pub fn add_to_positions_ordered(positions: &mut Vec<Position>, new_position: Position, flipped: bool)
        requires
            flipped ==> forall|i: int| 0 <= i < old(positions)@.len() ==> (#[trigger] old(positions)@[i]).can_add(new_position),
        ensures
            final(positions)@ == add_ordered(old(positions)@, new_position, flipped),
    {
        if positions.len() == 0 {
            positions.push(new_position);
            assert(positions@ =~= seq![new_position]);
            return;
        }
        if flipped {
            let mut i: usize = 0;
            while i < positions.len()
                invariant
                    positions@.len() == old(positions)@.len(),
                    i <= positions@.len(),
                    forall|k: int| 0 <= k < old(positions)@.len() ==> (#[trigger] old(positions)@[k]).can_add(new_position),
                    forall|k: int| 0 <= k < i ==> positions@[k] == (#[trigger] old(positions)@[k]).plus(new_position),
                    forall|k: int| i <= k < positions@.len() ==> positions@[k] == old(positions)@[k],
                decreases positions@.len() - i,
            {
                let moved = positions[i].add(new_position);
                positions.set(i, moved);
                i = i + 1;
            }
            positions.push(new_position);
            assert(positions@ =~= old(positions)@.map_values(|q: Position| q.plus(new_position)).push(new_position));
        } else {
            positions.insert(0, new_position);
            assert(positions@ =~= seq![new_position] + old(positions)@);
        }
    }

    /// Records a merge of the images `ids.0` and `ids.1` into `result_id` at
    /// `new_position`; see `rebase`. The new record goes at the end, so the
    /// records stay in merge order.
    pub fn add_to_positions_unordered(
        positions: &mut Vec<(usize, Position)>,
        new_position: Position,
        flipped: bool,
        result_id: usize,
        ids: (usize, usize),
    )
        requires
            rebase_ok(old(positions)@, ids.0, ids.1, new_position, flipped),
        ensures
            final(positions)@ == rebase(old(positions)@, ids.0, ids.1, new_position, flipped, result_id).push(
                (result_id, new_position),
            ),
    {
        let (id1, id2) = ids;
        let secondary = if flipped {
            id1
        } else {
            id2
        };
        let ghost target = rebase(old(positions)@, id1, id2, new_position, flipped, result_id);
        let mut i: usize = 0;
        while i < positions.len()
            invariant
                positions@.len() == old(positions)@.len(),
                i <= positions@.len(),
                secondary == if flipped { id1 } else { id2 },
                target == rebase(old(positions)@, id1, id2, new_position, flipped, result_id),
                rebase_ok(old(positions)@, id1, id2, new_position, flipped),
                forall|k: int| 0 <= k < i ==> positions@[k] == #[trigger] target[k],
                forall|k: int| i <= k < positions@.len() ==> positions@[k] == old(positions)@[k],
            decreases positions@.len() - i,
        {
            let (id, pos) = positions[i];
            if id == id1 || id == id2 {
                let moved = if id == secondary {
                    assert(old(positions)@[i as int].0 == secondary);
                    pos.add(new_position)
                } else {
                    pos
                };
                positions.set(i, (result_id, moved));
            }
            i = i + 1;
        }
        assert(positions@ =~= target);
        positions.push((result_id, new_position));
    }

    /// One merge of an unordered run; see `unordered_step`.
    fn merge_step(
        imgs: &mut Vec<Raster>,
        ids: &mut Vec<usize>,
        records: &mut Vec<(usize, Position)>,
        next_id: usize,
        dir: CheckDirection,
        ws: usize,
        mode: MatchMode,
        crop: u32,
    ) -> (r: Result<(), StitchError>)
        requires
            old(imgs)@.len() >= 2,
            forall|i: int| 0 <= i < old(imgs)@.len() ==> (#[trigger] old(imgs)@[i]).wf(),
            old(ids)@.len() == old(imgs)@.len(),
            next_id < usize::MAX,
        ensures
            r matches Err(e) ==> unordered_step(
                MergeState { images: views(old(imgs)@), ids: old(ids)@, records: old(records)@, next_id },
                dir,
                ws as nat,
                mode,
                crop,
            ) == Err::<MergeState, StitchError>(e),
            r is Ok ==> unordered_step(
                MergeState { images: views(old(imgs)@), ids: old(ids)@, records: old(records)@, next_id },
                dir,
                ws as nat,
                mode,
                crop,
            ) == Ok::<MergeState, StitchError>(MergeState {
                images: views(final(imgs)@),
                ids: final(ids)@,
                records: final(records)@,
                next_id: (next_id + 1) as usize,
            }),
            r is Ok ==> final(imgs)@.len() == old(imgs)@.len() - 1,
            r is Ok ==> final(ids)@.len() == final(imgs)@.len(),
            r is Ok ==> forall|i: int| 0 <= i < final(imgs)@.len() ==> (#[trigger] final(imgs)@[i]).wf(),
    {
        let ghost st = MergeState { images: views(imgs@), ids: ids@, records: records@, next_id };
        let (bi, bj, found) = match best_pair(imgs, dir, ws, mode, crop) {
            Err(e) => {
                return Err(e);
            },
            Ok(t) => t,
        };
        proof {
            let (ci, cj) = choose|ci: int, cj: int| is_best_pair(st.images, ci, cj, dir, ws as nat, mode, crop);
            lemma_best_pair_unique(st.images, bi as int, bj as int, ci, cj, dir, ws as nat, mode, crop);
        }
        let flipped = !found.flipped;
        assert(st.images[bj as int] == imgs@[bj as int]@ && st.images[bi as int] == imgs@[bi as int]@);
        if let Err(e) = check_stitch(&imgs[bj], &imgs[bi], &found.position, flipped, crop, dir) {
            return Err(e);
        }
        let secondary = if flipped {
            ids[bj]
        } else {
            ids[bi]
        };
        if !rebase_possible(records, secondary, found.position) {
            return Err(StitchError::PositionOverflow);
        }
        let ghost old_imgs = imgs@;
        let ghost old_ids = ids@;
        let image1 = imgs.remove(bj);
        let image2 = imgs.remove(bi);
        let id1 = ids.remove(bj);
        let id2 = ids.remove(bi);
        let merged = stitch_images(&image1, &image2, &found.position, flipped, crop, dir);
        imgs.push(merged);
        ids.push(next_id);
        Self::add_to_positions_unordered(records, found.position, flipped, next_id, (id1, id2));
        proof {
            assert(views(imgs@) =~= views(old_imgs).remove(bj as int).remove(bi as int).push(merged@));
            assert(ids@ =~= old_ids.remove(bj as int).remove(bi as int).push(next_id));
            assert forall|i: int| 0 <= i < imgs@.len() implies (#[trigger] imgs@[i]).wf() by {
                if i < imgs@.len() - 1 {
                    let k = if i < bi { i } else if i + 1 < bj { i + 1 } else { i + 2 };
                    assert(imgs@[i] == old_imgs[k]);
                }
            }
        }
        Ok(())
    }

    fn stitch_unordered(
        images: Vec<Raster>,
        dir: CheckDirection,
        ws: usize,
        mode: MatchMode,
        crop: u32,
    ) -> (r: Result<(Raster, Vec<Position>), StitchError>)
        requires
            2 <= images@.len() <= usize::MAX / 2,
            forall|i: int| 0 <= i < images@.len() ==> (#[trigger] images@[i]).wf(),
        ensures
            outcome_view(r) == unordered_outcome(views(images@), dir, ws as nat, mode, crop),
    {
        let n = images.len();
        let ghost v0 = views(images@);
        let mut imgs = images;
        let mut ids: Vec<usize> = Vec::new();
        let mut k: usize = 0;
        while k < n
            invariant
                k <= n,
                ids@ == Seq::new(k as nat, |m: int| m as usize),
            decreases n - k,
        {
            ids.push(k);
            assert(ids@ =~= Seq::new((k + 1) as nat, |m: int| m as usize));
            k = k + 1;
        }
        let mut records: Vec<(usize, Position)> = Vec::new();
        let mut next_id: usize = n;
        let ghost mut steps: nat = 0;
        assert(views(imgs@) == v0);
        while imgs.len() > 1
            invariant
                n <= usize::MAX / 2,
                forall|i: int| 0 <= i < imgs@.len() ==> (#[trigger] imgs@[i]).wf(),
                imgs@.len() >= 1,
                imgs@.len() + steps == n,
                ids@.len() == imgs@.len(),
                next_id == n + steps,
                v0.len() == n,
                v0 == views(images@),
                unordered_state(v0, steps, dir, ws as nat, mode, crop) == Ok::<MergeState, StitchError>(MergeState {
                    images: views(imgs@),
                    ids: ids@,
                    records: records@,
                    next_id,
                }),
            decreases imgs@.len(),
        {
            match Self::merge_step(&mut imgs, &mut ids, &mut records, next_id, dir, ws, mode, crop) {
                Err(e) => {
                    proof {
                        lemma_unordered_error_stays(v0, steps + 1, (n - 1) as nat, dir, ws as nat, mode, crop);
                    }
                    return Err(e);
                },
                Ok(()) => {},
            }
            proof {
                steps = steps + 1;
            }
            next_id = next_id + 1;
        }
        let positions = positions_of(&records);
        let image = imgs.pop().unwrap();
        Ok((image, positions))
    }

    /// Runs the stitcher: folds the images in input order, or merges the
    /// best-matching pair again and again, until one composite is left.
    /// Returns it with the positions of the merges: for an ordered fold the
    /// newest first (each new position goes in front of the trail), for
    /// unordered merging in merge order.
    pub fn stitch(self) -> (r: Result<(Raster, Vec<Position>), StitchError>)
        requires
            self.images@.len() <= usize::MAX / 2,
            forall|i: int| 0 <= i < self.images@.len() ==> (#[trigger] self.images@[i]).wf(),
        ensures
            self.images@.len() < 2 ==> r == Err::<(Raster, Vec<Position>), StitchError>(StitchError::TooFewImages),
            self.images@.len() >= 2 && self.order == Order::Ordered ==> outcome_view(r) == ordered_state(
                views(self.images@),
                self.images@.len(),
                self.direction,
                self.window_size as nat,
                self.match_mode,
                self.crop,
            ),
            self.images@.len() >= 2 ==> (r matches Ok((image, positions)) ==> positions@.len() == self.images@.len() - 1),
            self.images@.len() >= 2 && self.order == Order::Unordered ==> outcome_view(r) == unordered_outcome(
                views(self.images@),
                self.direction,
                self.window_size as nat,
                self.match_mode,
                self.crop,
            ),
    {
        if self.images.len() < 2 {
            return Err(StitchError::TooFewImages);
        }
        proof {
            let v = views(self.images@);
            crate::laws::lemma_ordered_merge_count(v, self.direction, self.window_size as nat, self.match_mode, self.crop);
            crate::laws::lemma_unordered_merge_count(v, self.direction, self.window_size as nat, self.match_mode, self.crop);
        }
        match self.order {
            Order::Ordered => self.stitch_ordered(),
            Order::Unordered => Self::stitch_unordered(self.images, self.direction, self.window_size, self.match_mode, self.crop),
        }
    }

    fn stitch_ordered(&self) -> (r: Result<(Raster, Vec<Position>), StitchError>)
        requires
            self.images@.len() >= 2,
            forall|i: int| 0 <= i < self.images@.len() ==> (#[trigger] self.images@[i]).wf(),
        ensures
            outcome_view(r) == ordered_state(
                views(self.images@),
                self.images@.len(),
                self.direction,
                self.window_size as nat,
                self.match_mode,
                self.crop,
            ),
    {
        let ghost imgs = views(self.images@);
        let n = self.images.len();
        let mut current = self.images[0].copy();
        let mut trail: Vec<Position> = Vec::new();
        let mut k: usize = 1;
        while k < n
            invariant
                n == self.images@.len(),
                imgs == views(self.images@),
                forall|i: int| 0 <= i < self.images@.len() ==> (#[trigger] self.images@[i]).wf(),
                1 <= k <= n,
                current.wf(),
                ordered_state(imgs, k as nat, self.direction, self.window_size as nat, self.match_mode, self.crop)
                    == Ok::<(RasterView, Seq<Position>), StitchError>((current@, trail@)),
            decreases n - k,
        {
            let next = &self.images[k];
            assert(imgs[k as int] == next@);
            if let Err(e) = check_search(&current, next, self.direction, self.window_size, self.crop) {
                proof {
                    lemma_ordered_error_stays(imgs, (k + 1) as nat, n as nat, self.direction, self.window_size as nat, self.match_mode, self.crop);
                }
                return Err(e);
            }
            let skip = if trail.len() > 0 {
                Some(trail[0])
            } else {
                None
            };
            let found = find_stitch_region(
                &current,
                next,
                self.direction,
                Order::Ordered,
                self.window_size,
                self.match_mode,
                self.crop,
                skip,
            );
            if let Err(e) = check_stitch(&current, next, &found.position, false, self.crop, self.direction) {
                proof {
                    lemma_ordered_error_stays(imgs, (k + 1) as nat, n as nat, self.direction, self.window_size as nat, self.match_mode, self.crop);
                }
                return Err(e);
            }
            let merged = stitch_images(&current, next, &found.position, false, self.crop, self.direction);
            Self::add_to_positions_ordered(&mut trail, found.position, false);
            current = merged;
            k = k + 1;
        }
        Ok((current, trail))
    }
}

} // verus!
