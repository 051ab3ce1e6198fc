//! The fallback strategy: the topmost boundary vertex and the highest vertex away from it.

use vstd::prelude::*;
use crate::geometry::Vertex;
use crate::landmarks::HandLandmarks;
use crate::polygon::{polygon_twice_area, twice_area};

verus! {

/// The squared distance that the second landmark must exceed from the first, unless
/// configured otherwise. It is a count of squared pixels and does not scale with the frame.
pub const DEFAULT_SEPARATION_SQUARED: u64 = 30;

/// Among the first `n` vertices, the first one of the smallest `y`.
pub open spec fn topmost(contour: Seq<Vertex>, n: int) -> int
    decreases n,
{
    if n <= 1 {
        0
    } else {
        let best = topmost(contour, n - 1);
        if contour[n - 1].y < contour[best].y {
            n - 1
        } else {
            best
        }
    }
}

/// Vertex `i` lies further from `anchor` than the separation asks.
pub open spec fn apart(contour: Seq<Vertex>, i: int, anchor: Vertex, separation_squared: int) -> bool {
    contour[i].dist_sq(anchor) > separation_squared
}

/// Among the first `n` vertices, the first one of the smallest `y` that lies apart from
/// `anchor`, if there is one.
pub open spec fn runner_up(contour: Seq<Vertex>, anchor: Vertex, separation_squared: int, n: int) -> Option<
    int,
>
    decreases n,
{
    if n <= 0 {
        None
    } else {
        let best = runner_up(contour, anchor, separation_squared, n - 1);
        let better = match best {
            Some(b) => contour[n - 1].y < contour[b].y,
            None => true,
        };
        if apart(contour, n - 1, anchor, separation_squared) && better {
            Some(n - 1)
        } else {
            best
        }
    }
}

/// What the fallback strategy finds on a boundary polygon.
///
/// Nothing, if the polygon encloses no area. Else the thumb tip is the topmost vertex, and
/// the index tip the highest vertex apart from it, or the first vertex if none lies apart.
pub open spec fn spec_fallback(contour: Seq<Vertex>, separation_squared: u64) -> Option<HandLandmarks> {
    if twice_area(contour) == 0 {
        None
    } else {
        let top = contour[topmost(contour, contour.len() as int)];
        let second = match runner_up(contour, top, separation_squared as int, contour.len() as int) {
            Some(i) => contour[i],
            None => contour[0],
        };
        Some(HandLandmarks { thumb_tip: top.spec_position(), index_tip: second.spec_position() })
    }
}

/// The topmost vertex is a vertex, no vertex lies higher, and none before it as high.
pub proof fn lemma_topmost(contour: Seq<Vertex>, n: int)
    requires
        1 <= n <= contour.len(),
    ensures
        0 <= topmost(contour, n) < n,
        forall|j: int| 0 <= j < n ==> contour[topmost(contour, n)].y <= (#[trigger] contour[j]).y,
        forall|j: int|
            0 <= j < topmost(contour, n) ==> contour[topmost(contour, n)].y < (#[trigger] contour[j]).y,
    decreases n,
{
    if n > 1 {
        lemma_topmost(contour, n - 1);
    }
}

/// The runner-up, if there is one, lies apart from the anchor; no vertex apart from the
/// anchor lies higher, and none before it as high. There is none only if no vertex lies
/// apart from the anchor.
pub proof fn lemma_runner_up(contour: Seq<Vertex>, anchor: Vertex, separation_squared: int, n: int)
    requires
        0 <= n <= contour.len(),
    ensures
        match runner_up(contour, anchor, separation_squared, n) {
            Some(r) => {
                &&& 0 <= r < n
                &&& apart(contour, r, anchor, separation_squared)
                &&& forall|j: int|
                    0 <= j < n && #[trigger] apart(contour, j, anchor, separation_squared)
                        ==> contour[r].y <= contour[j].y
                &&& forall|j: int|
                    0 <= j < r && #[trigger] apart(contour, j, anchor, separation_squared)
                        ==> contour[r].y < contour[j].y
            },
            None => forall|j: int| 0 <= j < n ==> !#[trigger] apart(contour, j, anchor, separation_squared),
        },
    decreases n,
{
    if n > 0 {
        lemma_runner_up(contour, anchor, separation_squared, n - 1);
    }
}

/// Finds two landmarks on a boundary polygon without looking at its hull.
pub fn simple_landmark_detection(contour: &Vec<Vertex>, separation_squared: u64) -> (landmarks: Option<
    HandLandmarks,
>)
    ensures
        landmarks == spec_fallback(contour@, separation_squared),
        landmarks is Some <==> twice_area(contour@) != 0,
        landmarks matches Some(l) ==> {
            &&& exists|i: int| 0 <= i < contour@.len() && (#[trigger] contour@[i]).spec_position() == l.thumb_tip
            &&& exists|i: int| 0 <= i < contour@.len() && (#[trigger] contour@[i]).spec_position() == l.index_tip
        },
{
    if polygon_twice_area(contour) == 0 {
        return None;
    }
    let n = contour.len();
    assert(n > 0) by {
        if n == 0 {
            assert(twice_area(contour@) == 0);
        }
    }
    let mut top: usize = 0;
    let mut i: usize = 1;
    while i < n
        invariant
            n == contour@.len(),
            1 <= i <= n,
            top == topmost(contour@, i as int),
            0 <= top < i,
        decreases n - i,
    {
        if contour[i].y < contour[top].y {
            top = i;
        }
        i += 1;
    }
    let anchor = contour[top];
    let mut second: Option<usize> = None;
    let mut k: usize = 0;
    while k < n
        invariant
            n == contour@.len(),
            k <= n,
            match second {
                Some(s) => runner_up(contour@, anchor, separation_squared as int, k as int) == Some(
                    s as int,
                ) && s < k,
                None => runner_up(contour@, anchor, separation_squared as int, k as int) is None,
            },
        decreases n - k,
    {
        let p = contour[k];
        let better = match second {
            Some(s) => p.y < contour[s].y,
            None => true,
        };
        if better && p.distance_squared(&anchor) > separation_squared as u128 {
            second = Some(k);
        }
        k += 1;
    }
    let chosen: usize = match second {
        Some(s) => s,
        None => 0,
    };
    Some(HandLandmarks::new(anchor.position(), contour[chosen].position()))
}

} // verus!
