//! The clustering strategy: fingertips as greedy clusters of the topmost skin pixels.

use vstd::prelude::*;
use crate::geometry::{square, Point, Position};
use crate::landmarks::{leftmost_pair, lemma_leftmost_pair_order, spec_leftmost_pair, HandLandmarks};
use crate::region::{row_major, PixelRegion};

verus! {

/// The number of topmost pixels that are looked at; it bounds the work on dense regions.
pub const SCAN_LIMIT: usize = 100;

/// The row that ends the upper third of a box from row `min_y` to row `max_y`.
pub open spec fn top_limit(min_y: int, max_y: int) -> int {
    min_y + (max_y - min_y) / 3
}

/// The pixels above row `limit_y`.
pub open spec fn above(limit_y: int) -> spec_fn(Point) -> bool {
    |p: Point| p.y < limit_y
}

/// The pixels of a region that lie above row `limit_y`, in the order of the region.
pub open spec fn upper_pixels(pixels: Seq<Point>, limit_y: int) -> Seq<Point> {
    pixels.filter(above(limit_y))
}

/// The first `SCAN_LIMIT` of the pixels above row `limit_y`.
pub open spec fn scanned_pixels(pixels: Seq<Point>, limit_y: int) -> Seq<Point> {
    let upper = upper_pixels(pixels, limit_y);
    if upper.len() <= SCAN_LIMIT {
        upper
    } else {
        upper.take(SCAN_LIMIT as int)
    }
}

/// `p` lies closer to the cluster centre `c` than `radius`.
pub open spec fn near(c: Point, p: Point, radius: int) -> bool {
    c.dist_sq(p) < square(radius)
}

/// The first cluster from number `from` on that `p` lies near to, or the number of clusters
/// if there is none.
pub open spec fn first_near(clusters: Seq<Point>, p: Point, radius: int, from: int) -> int
    decreases clusters.len() - from,
{
    if from < 0 || from >= clusters.len() {
        clusters.len() as int
    } else if near(clusters[from], p, radius) {
        from
    } else {
        first_near(clusters, p, radius, from + 1)
    }
}

/// The clusters after `p` has been taken in: the first cluster near `p` moves halfway
/// towards it, and if none is near, `p` starts a cluster of its own.
pub open spec fn absorb(clusters: Seq<Point>, p: Point, radius: int) -> Seq<Point> {
    let at = first_near(clusters, p, radius, 0);
    if at < clusters.len() {
        clusters.update(at, clusters[at].spec_midpoint(p))
    } else {
        clusters.push(p)
    }
}

/// The clusters formed by taking in `points` one by one, until there are `cap` clusters.
pub open spec fn greedy_clusters(points: Seq<Point>, radius: int, cap: int) -> Seq<Point>
    decreases points.len(),
{
    if points.len() == 0 {
        Seq::empty()
    } else {
        let before = greedy_clusters(points.drop_last(), radius, cap);
        if before.len() >= cap {
            before
        } else {
            absorb(before, points.last(), radius)
        }
    }
}

/// The pixels as landmark positions.
pub open spec fn as_positions(points: Seq<Point>) -> Seq<Position> {
    Seq::new(points.len(), |i: int| Position { x: points[i].x as u64, y: points[i].y as u64 })
}

/// The landmarks that the clustering strategy finds in a region with the given pixels and
/// rows: none with fewer than two pixels in the upper third or fewer than two clusters,
/// else the two leftmost clusters.
pub open spec fn spec_cluster_landmarks(
    pixels: Seq<Point>,
    min_y: int,
    max_y: int,
    radius: int,
    cap: int,
) -> Option<HandLandmarks> {
    let limit_y = top_limit(min_y, max_y);
    if upper_pixels(pixels, limit_y).len() < 2 {
        None
    } else {
        spec_leftmost_pair(
            as_positions(greedy_clusters(scanned_pixels(pixels, limit_y), radius, cap)),
        )
    }
}

/// In a region in row-major order the pixels above a row are the leading pixels.
pub proof fn lemma_upper_pixels_lead(pixels: Seq<Point>, limit_y: int)
    requires
        row_major(pixels),
    ensures
        upper_pixels(pixels, limit_y).len() <= pixels.len(),
        upper_pixels(pixels, limit_y) == pixels.take(upper_pixels(pixels, limit_y).len() as int),
        forall|j: int|
            0 <= j < upper_pixels(pixels, limit_y).len() ==> (#[trigger] pixels[j]).y < limit_y,
        forall|j: int|
            upper_pixels(pixels, limit_y).len() <= j < pixels.len() ==> (#[trigger] pixels[j]).y
                >= limit_y,
    decreases pixels.len(),
{
    broadcast use Seq::lemma_filter_push;

    reveal(Seq::filter);
    let pred = above(limit_y);
    if pixels.len() == 0 {
        assert(pixels.filter(pred) =~= pixels.take(0));
    } else {
        let front = pixels.drop_last();
        let last = pixels.last();
        assert(row_major(front)) by {
            assert forall|i: int, j: int| 0 <= i < j < front.len() implies crate::region::precedes(
                #[trigger] front[i],
                #[trigger] front[j],
            ) by {
                assert(front[i] == pixels[i] && front[j] == pixels[j]);
            }
        }
        lemma_upper_pixels_lead(front, limit_y);
        let kf = upper_pixels(front, limit_y).len() as int;
        assert(pred(last) == (last.y < limit_y));
        assert(forall|j: int| 0 <= j < front.len() ==> front[j] == pixels[j]);
        if last.y < limit_y {
            assert(kf == front.len()) by {
                if kf < front.len() {
                    assert(front[kf].y >= limit_y);
                    assert(crate::region::precedes(pixels[kf], pixels[pixels.len() - 1]));
                }
            }
            assert(front.take(kf) =~= front);
            assert(pixels.filter(pred) =~= pixels.take(pixels.len() as int));
        } else {
            assert(pixels.filter(pred) =~= pixels.take(kf));
        }
    }
}

/// In a region in row-major order the pixels above a row stand from the top down already:
/// ordering them by row, equal rows in the order they have, changes nothing.
pub proof fn lemma_upper_pixels_descend(pixels: Seq<Point>, limit_y: int)
    requires
        row_major(pixels),
    ensures
        forall|i: int, j: int|
            0 <= i <= j < upper_pixels(pixels, limit_y).len() ==> (#[trigger] upper_pixels(
                pixels,
                limit_y,
            )[i]).y <= (#[trigger] upper_pixels(pixels, limit_y)[j]).y,
{
    lemma_upper_pixels_lead(pixels, limit_y);
    let upper = upper_pixels(pixels, limit_y);
    assert forall|i: int, j: int| 0 <= i <= j < upper.len() implies (#[trigger] upper[i]).y <= (
    #[trigger] upper[j]).y by {
        assert(upper[i] == pixels[i] && upper[j] == pixels[j]);
        if i < j {
            assert(crate::region::precedes(pixels[i], pixels[j]));
        }
    }
}

/// Once there are `cap` clusters, further points change nothing.
pub proof fn lemma_greedy_clusters_saturate(points: Seq<Point>, radius: int, cap: int, n: int)
    requires
        0 <= n <= points.len(),
        greedy_clusters(points.take(n), radius, cap).len() >= cap,
    ensures
        greedy_clusters(points, radius, cap) == greedy_clusters(points.take(n), radius, cap),
    decreases points.len(),
{
    if n == points.len() {
        assert(points.take(n) =~= points);
    } else {
        let front = points.drop_last();
        assert(front.take(n) =~= points.take(n));
        lemma_greedy_clusters_saturate(front, radius, cap, n);
    }
}

/// The first near cluster is a cluster not before `from`, or there is none.
pub proof fn lemma_first_near_range(clusters: Seq<Point>, p: Point, radius: int, from: int)
    requires
        0 <= from <= clusters.len(),
    ensures
        from <= first_near(clusters, p, radius, from) <= clusters.len(),
        first_near(clusters, p, radius, from) < clusters.len() ==> near(
            clusters[first_near(clusters, p, radius, from)],
            p,
            radius,
        ),
        forall|k: int|
            from <= k < first_near(clusters, p, radius, from) ==> !near(
                #[trigger] clusters[k],
                p,
                radius,
            ),
    decreases clusters.len() - from,
{
    if from < clusters.len() && !near(clusters[from], p, radius) {
        lemma_first_near_range(clusters, p, radius, from + 1);
    }
}

/// There are never more clusters than points, nor more than `cap` where `cap` is positive.
pub proof fn lemma_greedy_clusters_len(points: Seq<Point>, radius: int, cap: int)
    ensures
        greedy_clusters(points, radius, cap).len() <= points.len(),
        cap >= 1 ==> greedy_clusters(points, radius, cap).len() <= cap,
    decreases points.len(),
{
    if points.len() > 0 {
        let before = greedy_clusters(points.drop_last(), radius, cap);
        lemma_greedy_clusters_len(points.drop_last(), radius, cap);
        lemma_first_near_range(before, points.last(), radius, 0);
    }
}

/// The first cluster that `p` lies near to.
fn find_near(clusters: &Vec<Point>, p: &Point, radius: usize) -> (at: usize)
    ensures
        at == first_near(clusters@, *p, radius as int, 0),
        at <= clusters@.len(),
{
    let mut at: usize = 0;
    while at < clusters.len() && !clusters[at].is_within(p, radius)
        invariant
            at <= clusters@.len(),
            first_near(clusters@, *p, radius as int, 0) == first_near(
                clusters@,
                *p,
                radius as int,
                at as int,
            ),
        decreases clusters@.len() - at,
    {
        at += 1;
    }
    at
}

/// Forms the clusters of the topmost pixels of a region.
pub fn form_clusters(region: &PixelRegion, radius: usize, cap: usize) -> (clusters: Vec<Point>)
    requires
        region.wf(),
    ensures
        clusters@ == greedy_clusters(
            scanned_pixels(region.pixels@, top_limit(region.min_y as int, region.max_y as int)),
            radius as int,
            cap as int,
        ),
        forall|i: int|
            0 <= i < clusters@.len() ==> {
                &&& region.min_x <= (#[trigger] clusters@[i]).x <= region.max_x
                &&& region.min_y <= clusters@[i].y < top_limit(
                    region.min_y as int,
                    region.max_y as int,
                )
            },
{
    let limit_y: usize = region.min_y + (region.max_y - region.min_y) / 3;
    let n = region.pixels.len();
    let mut clusters: Vec<Point> = Vec::new();
    let mut i: usize = 0;
    while i < n && i < SCAN_LIMIT && clusters.len() < cap && region.pixels[i].y < limit_y
        invariant
            region.wf(),
            n == region.pixels@.len(),
            i <= n,
            i <= SCAN_LIMIT,
            limit_y == top_limit(region.min_y as int, region.max_y as int),
            forall|j: int| 0 <= j < i ==> (#[trigger] region.pixels@[j]).y < limit_y,
            clusters@ == greedy_clusters(region.pixels@.take(i as int), radius as int, cap as int),
            forall|k: int|
                0 <= k < clusters@.len() ==> {
                    &&& region.min_x <= (#[trigger] clusters@[k]).x <= region.max_x
                    &&& region.min_y <= clusters@[k].y < limit_y
                },
        decreases n - i,
    {
        let p = region.pixels[i];
        let at = find_near(&clusters, &p, radius);
        proof {
            let next = region.pixels@.take(i + 1);
            assert(next.drop_last() =~= region.pixels@.take(i as int));
            assert(next.last() == p);
        }
        if at < clusters.len() {
            let mid = clusters[at].midpoint(&p);
            clusters.set(at, mid);
        } else {
            clusters.push(p);
        }
        i += 1;
    }
    proof {
        let pixels = region.pixels@;
        lemma_upper_pixels_lead(pixels, limit_y as int);
        let upper = upper_pixels(pixels, limit_y as int);
        let k = upper.len() as int;
        let scanned = scanned_pixels(pixels, limit_y as int);
        let m = if k <= SCAN_LIMIT { k } else { SCAN_LIMIT as int };
        assert(i <= k) by {
            if i > k {
                assert(pixels[k].y >= limit_y);
            }
        }
        assert(scanned =~= pixels.take(m)) by {
            assert(upper.take(k) =~= upper);
        }
        assert(scanned.take(i as int) =~= pixels.take(i as int));
        if clusters@.len() >= cap {
            lemma_greedy_clusters_saturate(scanned, radius as int, cap as int, i as int);
        } else {
            assert(i == m);
            assert(scanned.take(i as int) =~= scanned);
        }
    }
    clusters
}

/// The pixels as landmark positions.
pub fn to_positions(points: &Vec<Point>) -> (positions: Vec<Position>)
    ensures
        positions@ == as_positions(points@),
{
    let mut positions: Vec<Position> = Vec::new();
    let mut i: usize = 0;
    while i < points.len()
        invariant
            i <= points@.len(),
            positions@ == as_positions(points@.take(i as int)),
        decreases points@.len() - i,
    {
        positions.push(Position::new(points[i].x as u64, points[i].y as u64));
        i += 1;
        assert(positions@ =~= as_positions(points@.take(i as int)));
    }
    assert(points@.take(points@.len() as int) =~= points@);
    positions
}

/// Finds thumb and index tip among the clusters of the topmost pixels of a region.
///
/// Both tips lie inside the upper third of the region's box, and the thumb tip is never
/// right of the index tip.
pub fn cluster_landmarks(region: &PixelRegion, radius: usize, cap: usize) -> (landmarks: Option<
    HandLandmarks,
>)
    requires
        region.wf(),
    ensures
        landmarks == spec_cluster_landmarks(
            region.pixels@,
            region.min_y as int,
            region.max_y as int,
            radius as int,
            cap as int,
        ),
        landmarks matches Some(l) ==> {
            &&& l.thumb_tip.x <= l.index_tip.x
            &&& region.min_x <= l.thumb_tip.x <= region.max_x
            &&& region.min_x <= l.index_tip.x <= region.max_x
            &&& region.min_y <= l.thumb_tip.y < top_limit(region.min_y as int, region.max_y as int)
            &&& region.min_y <= l.index_tip.y < top_limit(region.min_y as int, region.max_y as int)
        },
{
    let limit_y: usize = region.min_y + (region.max_y - region.min_y) / 3;
    proof {
        lemma_upper_pixels_lead(region.pixels@, limit_y as int);
    }
    if region.pixels.len() < 2 || region.pixels[1].y >= limit_y {
        return None;
    }
    let clusters = form_clusters(region, radius, cap);
    let positions = to_positions(&clusters);
    proof {
        if positions@.len() >= 2 {
            lemma_leftmost_pair_order(positions@);
            let l = spec_leftmost_pair(positions@).unwrap();
            let a = choose|a: int| 0 <= a < positions@.len() && positions@[a] == l.thumb_tip;
            let b = choose|b: int| 0 <= b < positions@.len() && positions@[b] == l.index_tip;
            assert(positions@[a].x == clusters@[a].x && positions@[a].y == clusters@[a].y);
            assert(positions@[b].x == clusters@[b].x && positions@[b].y == clusters@[b].y);
        }
    }
    leftmost_pair(&positions)
}

} // verus!
