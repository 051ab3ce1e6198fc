//! Boundary polygons: their area, their bounding box, and the choice of the largest.

use vstd::prelude::*;
use crate::geometry::Vertex;

verus! {

/// The vertex before vertex `i` on the closed polygon; the last one comes before the first.
pub open spec fn before(poly: Seq<Vertex>, i: int) -> Vertex {
    if i == 0 {
        poly[poly.len() - 1]
    } else {
        poly[i - 1]
    }
}

/// The sum of `a.x * b.y` over the first `n` edges, each from `a` to `b`.
pub open spec fn rising_sum(poly: Seq<Vertex>, n: int) -> int
    decreases n,
{
    if n <= 0 {
        0
    } else {
        rising_sum(poly, n - 1) + before(poly, n - 1).x * poly[n - 1].y
    }
}

/// The sum of `b.x * a.y` over the first `n` edges, each from `a` to `b`.
pub open spec fn falling_sum(poly: Seq<Vertex>, n: int) -> int
    decreases n,
{
    if n <= 0 {
        0
    } else {
        falling_sum(poly, n - 1) + poly[n - 1].x * before(poly, n - 1).y
    }
}

/// Twice the area that the closed polygon encloses, with the sign of its orientation: the
/// sum of `a.x * b.y - b.x * a.y` over all edges from `a` to `b`.
pub open spec fn twice_signed_area(poly: Seq<Vertex>) -> int {
    rising_sum(poly, poly.len() as int) - falling_sum(poly, poly.len() as int)
}

/// Twice the area that the closed polygon encloses.
pub open spec fn twice_area(poly: Seq<Vertex>) -> int {
    if twice_signed_area(poly) >= 0 {
        twice_signed_area(poly)
    } else {
        -twice_signed_area(poly)
    }
}

/// The largest product of two coordinates.
pub open spec fn product_limit() -> int {
    0xffff_ffffint * 0xffff_ffffint
}

proof fn lemma_product_limit(a: u32, b: u32)
    ensures
        0 <= a * b <= product_limit(),
{
    assert(0 <= a * b <= 0xffff_ffff * 0xffff_ffff) by (nonlinear_arith)
        requires
            0 <= a <= 0xffff_ffff,
            0 <= b <= 0xffff_ffff,
    ;
}

/// Computes twice the area of a closed polygon.
pub fn polygon_twice_area(poly: &Vec<Vertex>) -> (area: u128)
    ensures
        area == twice_area(poly@),
{
    let n = poly.len();
    if n == 0 {
        return 0;
    }
    let mut rising: u128 = 0;
    let mut falling: u128 = 0;
    let mut prev = poly[n - 1];
    let mut i: usize = 0;
    while i < n
        invariant
            n == poly@.len(),
            0 < n,
            i <= n,
            prev == before(poly@, i as int),
            rising == rising_sum(poly@, i as int),
            falling == falling_sum(poly@, i as int),
            rising <= i * product_limit(),
            falling <= i * product_limit(),
        decreases n - i,
    {
        let p = poly[i];
        proof {
            lemma_product_limit(prev.x, p.y);
            lemma_product_limit(p.x, prev.y);
            assert((i + 1) * product_limit() <= 0xffff_ffff_ffff_ffff * product_limit())
                by (nonlinear_arith)
                requires
                    i + 1 <= 0xffff_ffff_ffff_ffff,
                    product_limit() >= 0,
            ;
            assert((i + 1) * product_limit() == i * product_limit() + product_limit())
                by (nonlinear_arith);
            assert(0xffff_ffff_ffff_ffff * product_limit() <= u128::MAX);
        }
        rising = rising + (prev.x as u128) * (p.y as u128);
        falling = falling + (p.x as u128) * (prev.y as u128);
        prev = p;
        i += 1;
    }
    if rising >= falling {
        rising - falling
    } else {
        falling - rising
    }
}

/// An axis-aligned box.
#[derive(Debug, Clone, Copy, PartialEq, Eq, Structural)]
pub struct Bounds {
    pub min_x: u32,
    pub max_x: u32,
    pub min_y: u32,
    pub max_y: u32,
}

impl Bounds {
    /// Every vertex lies inside the box, and each side of the box holds a vertex.
    pub open spec fn encloses(self, poly: Seq<Vertex>) -> bool {
        &&& forall|i: int|
            0 <= i < poly.len() ==> {
                &&& self.min_x <= (#[trigger] poly[i]).x <= self.max_x
                &&& self.min_y <= poly[i].y <= self.max_y
            }
        &&& exists|i: int| 0 <= i < poly.len() && (#[trigger] poly[i]).x == self.min_x
        &&& exists|i: int| 0 <= i < poly.len() && (#[trigger] poly[i]).x == self.max_x
        &&& exists|i: int| 0 <= i < poly.len() && (#[trigger] poly[i]).y == self.min_y
        &&& exists|i: int| 0 <= i < poly.len() && (#[trigger] poly[i]).y == self.max_y
    }

    /// The box has neither width nor height to speak of: it is a line or a point.
    pub open spec fn spec_is_degenerate(self) -> bool {
        self.max_x <= self.min_x || self.max_y <= self.min_y
    }

    /// Whether the box lacks width or height.
    pub fn is_degenerate(&self) -> (flat: bool)
        ensures
            flat == self.spec_is_degenerate(),
    {
        self.max_x <= self.min_x || self.max_y <= self.min_y
    }
}

/// The bounding box of a polygon; a polygon without vertices has none.
pub fn polygon_bounds(poly: &Vec<Vertex>) -> (bounds: Option<Bounds>)
    ensures
        bounds is Some <==> poly@.len() > 0,
        bounds matches Some(b) ==> b.encloses(poly@),
{
    if poly.len() == 0 {
        return None;
    }
    let first = poly[0];
    let mut b = Bounds { min_x: first.x, max_x: first.x, min_y: first.y, max_y: first.y };
    let ghost mut at_min_x: int = 0;
    let ghost mut at_max_x: int = 0;
    let ghost mut at_min_y: int = 0;
    let ghost mut at_max_y: int = 0;
    let mut i: usize = 1;
    while i < poly.len()
        invariant
            1 <= i <= poly@.len(),
            forall|k: int|
                0 <= k < i ==> {
                    &&& b.min_x <= (#[trigger] poly@[k]).x <= b.max_x
                    &&& b.min_y <= poly@[k].y <= b.max_y
                },
            0 <= at_min_x < i && poly@[at_min_x].x == b.min_x,
            0 <= at_max_x < i && poly@[at_max_x].x == b.max_x,
            0 <= at_min_y < i && poly@[at_min_y].y == b.min_y,
            0 <= at_max_y < i && poly@[at_max_y].y == b.max_y,
        decreases poly@.len() - i,
    {
        let p = poly[i];
        if p.x < b.min_x {
            b.min_x = p.x;
            proof {
                at_min_x = i as int;
            }
        }
        if p.x > b.max_x {
            b.max_x = p.x;
            proof {
                at_max_x = i as int;
            }
        }
        if p.y < b.min_y {
            b.min_y = p.y;
            proof {
                at_min_y = i as int;
            }
        }
        if p.y > b.max_y {
            b.max_y = p.y;
            proof {
                at_max_y = i as int;
            }
        }
        i += 1;
    }
    Some(b)
}

/// Twice the area of contour number `i`.
pub open spec fn contour_area(contours: Seq<Vec<Vertex>>, i: int) -> int {
    twice_area(contours[i]@)
}

/// Contour `i` is the first among the contours of the largest area.
pub open spec fn is_first_largest(contours: Seq<Vec<Vertex>>, i: int) -> bool {
    &&& 0 <= i < contours.len()
    &&& forall|j: int| 0 <= j < contours.len() ==> #[trigger] contour_area(contours, j) <= contour_area(contours, i)
    &&& forall|j: int| 0 <= j < i ==> #[trigger] contour_area(contours, j) < contour_area(contours, i)
}

/// The region that the contours of a mask give: the first of the largest contours, if its
/// area is not below `min_area`.
pub open spec fn spec_select_contour(contours: Seq<Vec<Vertex>>, min_area: u64, chosen: Option<usize>) -> bool {
    match chosen {
        Some(i) => is_first_largest(contours, i as int) && contour_area(contours, i as int) >= 2
            * min_area,
        None => forall|j: int|
            0 <= j < contours.len() ==> #[trigger] contour_area(contours, j) < 2 * min_area,
    }
}

/// Selects the contour of the largest area; no contour is selected if there is none or if
/// the largest area is below `min_area`.
pub fn select_contour(contours: &Vec<Vec<Vertex>>, min_area: u64) -> (chosen: Option<usize>)
    ensures
        spec_select_contour(contours@, min_area, chosen),
{
    if contours.len() == 0 {
        return None;
    }
    let mut best: usize = 0;
    let mut best_area: u128 = polygon_twice_area(&contours[0]);
    let mut i: usize = 1;
    while i < contours.len()
        invariant
            1 <= i <= contours@.len(),
            0 <= best < i,
            best_area == contour_area(contours@, best as int),
            forall|j: int| 0 <= j < i ==> #[trigger] contour_area(contours@, j) <= best_area,
            forall|j: int| 0 <= j < best ==> #[trigger] contour_area(contours@, j) < best_area,
        decreases contours@.len() - i,
    {
        let area = polygon_twice_area(&contours[i]);
        if area > best_area {
            best = i;
            best_area = area;
        }
        i += 1;
    }
    if best_area >= 2 * (min_area as u128) {
        Some(best)
    } else {
        None
    }
}

} // verus!
