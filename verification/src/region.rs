//! The skin region of a mask, found by scanning its pixels.

use vstd::prelude::*;
use crate::geometry::Point;
use crate::mask::Mask;

verus! {

/// The pixel with row-major number `index` in a grid that is `width` wide.
pub open spec fn point_of(index: int, width: int) -> Point {
    Point { x: (index % width) as usize, y: (index / width) as usize }
}

/// The set cells among the first `n` cells of a grid, as pixels, in row-major order.
pub open spec fn marked_points(cells: Seq<bool>, width: int, n: int) -> Seq<Point>
    decreases n,
{
    if n <= 0 {
        Seq::empty()
    } else {
        let before = marked_points(cells, width, n - 1);
        if cells[n - 1] {
            before.push(point_of(n - 1, width))
        } else {
            before
        }
    }
}

/// All set cells of a mask, as pixels, in row-major order.
pub open spec fn mask_points(mask: Mask) -> Seq<Point> {
    marked_points(mask.cells@, mask.width as int, mask.cells@.len() as int)
}

/// `a` comes before `b` in row-major order.
pub open spec fn precedes(a: Point, b: Point) -> bool {
    a.y < b.y || (a.y == b.y && a.x < b.x)
}

/// The pixels stand in row-major order, none of them twice.
pub open spec fn row_major(pixels: Seq<Point>) -> bool {
    forall|i: int, j: int| 0 <= i < j < pixels.len() ==> precedes(#[trigger] pixels[i], #[trigger] pixels[j])
}

/// The pixels do not all share a column, nor all a row.
pub open spec fn spans_both_axes(pixels: Seq<Point>) -> bool {
    &&& exists|i: int, j: int|
        0 <= i < pixels.len() && 0 <= j < pixels.len() && (#[trigger] pixels[i]).x != (
        #[trigger] pixels[j]).x
    &&& exists|i: int, j: int|
        0 <= i < pixels.len() && 0 <= j < pixels.len() && (#[trigger] pixels[i]).y != (
        #[trigger] pixels[j]).y
}

/// The skin pixels of a frame with their bounding box.
#[derive(Debug)]
pub struct PixelRegion {
    /// The pixels of the region, in row-major order.
    pub pixels: Vec<Point>,
    pub min_x: usize,
    pub max_x: usize,
    pub min_y: usize,
    pub max_y: usize,
}

impl PixelRegion {
    /// Every pixel lies inside the box.
    pub open spec fn box_covers(self) -> bool {
        forall|i: int|
            0 <= i < self.pixels@.len() ==> {
                &&& self.min_x <= (#[trigger] self.pixels@[i]).x <= self.max_x
                &&& self.min_y <= self.pixels@[i].y <= self.max_y
            }
    }

    /// Each side of the box holds a pixel.
    pub open spec fn box_is_tight(self) -> bool {
        &&& exists|i: int| 0 <= i < self.pixels@.len() && (#[trigger] self.pixels@[i]).x == self.min_x
        &&& exists|i: int| 0 <= i < self.pixels@.len() && (#[trigger] self.pixels@[i]).x == self.max_x
        &&& exists|i: int| 0 <= i < self.pixels@.len() && (#[trigger] self.pixels@[i]).y == self.min_y
        &&& exists|i: int| 0 <= i < self.pixels@.len() && (#[trigger] self.pixels@[i]).y == self.max_y
    }

    /// The pixels stand in row-major order, the box is their bounding box, and it has both
    /// width and height.
    pub open spec fn wf(self) -> bool {
        &&& row_major(self.pixels@)
        &&& self.box_covers()
        &&& self.box_is_tight()
        &&& self.min_x < self.max_x
        &&& self.min_y < self.max_y
    }
}

/// A grid without a set cell has no marked pixel.
pub proof fn lemma_no_marked_points(cells: Seq<bool>, width: int, n: int)
    requires
        0 <= n <= cells.len(),
        forall|i: int| 0 <= i < n ==> !cells[i],
    ensures
        marked_points(cells, width, n).len() == 0,
    decreases n,
{
    if n > 0 {
        lemma_no_marked_points(cells, width, n - 1);
    }
}

/// The box of a region begins at the row of its first pixel and ends at the row of its last.
pub proof fn lemma_region_rows(region: PixelRegion)
    requires
        region.wf(),
    ensures
        region.pixels@.len() >= 2,
        region.min_y == region.pixels@.first().y,
        region.max_y == region.pixels@.last().y,
{
    let pixels = region.pixels@;
    let top = choose|i: int| 0 <= i < pixels.len() && (#[trigger] pixels[i]).y == region.min_y;
    let bottom = choose|i: int| 0 <= i < pixels.len() && (#[trigger] pixels[i]).y == region.max_y;
    assert(top != bottom);
    if top > 0 {
        assert(precedes(pixels[0], pixels[top]));
    }
    if bottom < pixels.len() - 1 {
        assert(precedes(pixels[bottom], pixels[pixels.len() - 1]));
    }
}

proof fn lemma_cursor_is_point(index: int, width: int, x: int, y: int)
    requires
        0 <= x < width,
        0 <= y,
        x <= usize::MAX,
        y <= usize::MAX,
        index == y * width + x,
    ensures
        point_of(index, width).x == x,
        point_of(index, width).y == y,
        index / width == y,
        index % width == x,
{
    vstd::arithmetic::div_mod::lemma_fundamental_div_mod_converse(index, width, y, x);
}

proof fn lemma_row_below_height(index: int, width: int, height: int, x: int, y: int)
    requires
        0 <= x < width,
        0 <= y,
        0 <= height,
        index == y * width + x,
        index < width * height,
    ensures
        y < height,
{
    if y >= height {
        assert(y * width >= height * width) by (nonlinear_arith)
            requires
                y >= height,
                width > 0,
        ;
        assert(height * width == width * height) by (nonlinear_arith);
    }
}

/// Collects the set pixels of a mask and their bounding box.
///
/// There is a region when the mask has at least `min_skin_pixels` set pixels, at least one,
/// and they span more than one column and more than one row.
pub fn select_region(mask: &Mask, min_skin_pixels: usize) -> (region: Option<PixelRegion>)
    requires
        mask.wf(),
    ensures
        region is Some <==> {
            &&& mask_points(*mask).len() >= min_skin_pixels
            &&& mask_points(*mask).len() > 0
            &&& spans_both_axes(mask_points(*mask))
        },
        region matches Some(r) ==> {
            &&& r.wf()
            &&& r.pixels@ == mask_points(*mask)
            &&& r.max_x < mask.width
            &&& r.max_y < mask.height
        },
{
    let width = mask.width;
    let n = mask.cells.len();
    let mut pixels: Vec<Point> = Vec::new();
    let mut min_x: usize = 0;
    let mut max_x: usize = 0;
    let mut min_y: usize = 0;
    let mut max_y: usize = 0;
    let ghost mut at_min_x: int = 0;
    let ghost mut at_max_x: int = 0;
    let ghost mut at_min_y: int = 0;
    let ghost mut at_max_y: int = 0;
    let mut x: usize = 0;
    let mut y: usize = 0;
    let mut i: usize = 0;
    proof {
        assert(width == 0 ==> width * mask.height == 0) by (nonlinear_arith);
    }
    while i < n
        invariant
            i <= n,
            n == mask.cells@.len(),
            n == mask.width * mask.height,
            width == mask.width,
            i == y * width + x,
            i < n ==> x < width,
            pixels@ == marked_points(mask.cells@, width as int, i as int),
            pixels@.len() <= i,
            row_major(pixels@),
            forall|k: int|
                0 <= k < pixels@.len() ==> (#[trigger] pixels@[k]).y < y || (pixels@[k].y == y
                    && pixels@[k].x < x),
            forall|k: int|
                0 <= k < pixels@.len() ==> {
                    &&& min_x <= (#[trigger] pixels@[k]).x <= max_x
                    &&& min_y <= pixels@[k].y <= max_y
                },
            pixels@.len() > 0 ==> {
                &&& 0 <= at_min_x < pixels@.len() && pixels@[at_min_x].x == min_x
                &&& 0 <= at_max_x < pixels@.len() && pixels@[at_max_x].x == max_x
                &&& 0 <= at_min_y < pixels@.len() && pixels@[at_min_y].y == min_y
                &&& 0 <= at_max_y < pixels@.len() && pixels@[at_max_y].y == max_y
                &&& max_x < mask.width
                &&& max_y < mask.height
            },
        decreases n - i,
    {
        proof {
            lemma_cursor_is_point(i as int, width as int, x as int, y as int);
            lemma_row_below_height(i as int, width as int, mask.height as int, x as int, y as int);
        }
        if mask.cells[i] {
            let p = Point::new(x, y);
            let ghost last = pixels@.len() as int;
            if pixels.len() == 0 {
                min_x = x;
                max_x = x;
                min_y = y;
                max_y = y;
                proof {
                    at_min_x = last;
                    at_max_x = last;
                    at_min_y = last;
                    at_max_y = last;
                }
            } else {
                if x < min_x {
                    min_x = x;
                    proof {
                        at_min_x = last;
                    }
                }
                if x > max_x {
                    max_x = x;
                    proof {
                        at_max_x = last;
                    }
                }
                if y < min_y {
                    min_y = y;
                    proof {
                        at_min_y = last;
                    }
                }
                if y > max_y {
                    max_y = y;
                    proof {
                        at_max_y = last;
                    }
                }
            }
            pixels.push(p);
        }
        proof {
            assert((y + 1) * width == y * width + width) by (nonlinear_arith);
        }
        i += 1;
        x += 1;
        if x == width {
            x = 0;
            y += 1;
        }
    }
    if pixels.len() < min_skin_pixels || pixels.len() == 0 {
        return None;
    }
    if max_x <= min_x || max_y <= min_y {
        proof {
            let pts = pixels@;
            if max_x <= min_x {
                assert forall|a: int, b: int| 0 <= a < pts.len() && 0 <= b < pts.len() implies (
                #[trigger] pts[a]).x == (#[trigger] pts[b]).x by {}
            } else {
                assert forall|a: int, b: int| 0 <= a < pts.len() && 0 <= b < pts.len() implies (
                #[trigger] pts[a]).y == (#[trigger] pts[b]).y by {}
            }
        }
        return None;
    }
    let region = PixelRegion { pixels, min_x, max_x, min_y, max_y };
    proof {
        let pts = region.pixels@;
        assert(pts[at_min_x].x != pts[at_max_x].x);
        assert(pts[at_min_y].y != pts[at_max_y].y);
    }
    Some(region)
}

} // verus!
