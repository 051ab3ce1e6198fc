//! The binary skin mask of a frame.

use vstd::prelude::*;
use crate::color::{Rgb, SkinThresholds};

verus! {

/// How the bytes of one pixel are laid out in a frame buffer.
#[derive(Debug, Clone, Copy, PartialEq, Eq, Structural)]
pub enum PixelLayout {
    /// Three bytes per pixel: blue, green, red.
    Bgr,
    /// Four bytes per pixel: red, green, blue, alpha.
    Rgba,
}

impl PixelLayout {
    /// The number of bytes per pixel.
    pub open spec fn spec_channels(self) -> int {
        match self {
            PixelLayout::Bgr => 3,
            PixelLayout::Rgba => 4,
        }
    }

    /// The number of bytes per pixel.
    pub fn channels(&self) -> (n: usize)
        ensures
            n == self.spec_channels(),
    {
        match self {
            PixelLayout::Bgr => 3,
            PixelLayout::Rgba => 4,
        }
    }
}

/// Whether a buffer of `len` bytes holds a frame of `width` by `height` pixels.
pub open spec fn frame_fits(width: int, height: int, layout: PixelLayout, len: int) -> bool {
    width * height * layout.spec_channels() <= len
}

/// The colour of pixel number `index` of a row-major frame buffer.
pub open spec fn pixel_at(data: Seq<u8>, layout: PixelLayout, index: int) -> Rgb {
    match layout {
        PixelLayout::Bgr => Rgb { r: data[3 * index + 2], g: data[3 * index + 1], b: data[3 * index] },
        PixelLayout::Rgba => Rgb { r: data[4 * index], g: data[4 * index + 1], b: data[4 * index + 2] },
    }
}

/// The skin predicate applied to each of the first `count` pixels of a frame buffer.
pub open spec fn skin_cells(
    data: Seq<u8>,
    layout: PixelLayout,
    thresholds: SkinThresholds,
    count: int,
) -> Seq<bool> {
    Seq::new(count as nat, |i: int| thresholds.admits(pixel_at(data, layout, i).spec_to_hsv()))
}

/// A grid of booleans with the dimensions of a frame, in row-major order.
#[derive(Debug)]
pub struct Mask {
    pub width: usize,
    pub height: usize,
    pub cells: Vec<bool>,
}

impl Mask {
    /// The grid holds one cell per pixel.
    pub open spec fn wf(self) -> bool {
        self.cells@.len() == self.width * self.height
    }
}

proof fn lemma_mul_at_least(n: int, k: int)
    requires
        n >= 0,
        k >= 1,
    ensures
        n * k >= n,
{
    assert(n * k >= n) by (nonlinear_arith)
        requires
            n >= 0,
            k >= 1,
    ;
}

/// Classifies every pixel of a frame. A buffer too short for the frame gives no mask.
pub fn build_mask(
    width: usize,
    height: usize,
    layout: PixelLayout,
    data: &[u8],
    thresholds: &SkinThresholds,
) -> (mask: Option<Mask>)
    ensures
        mask is Some <==> frame_fits(width as int, height as int, layout, data@.len() as int),
        mask matches Some(m) ==> {
            &&& m.wf()
            &&& m.width == width
            &&& m.height == height
            &&& m.cells@ == skin_cells(data@, layout, *thresholds, width * height)
        },
{
    let channels = layout.channels();
    let len = data.len();
    proof {
        vstd::arithmetic::mul::lemma_mul_nonnegative(width as int, height as int);
        lemma_mul_at_least(width * height, layout.spec_channels());
    }
    let count: usize = match width.checked_mul(height) {
        Some(c) => c,
        None => {
            return None;
        },
    };
    let bytes: usize = match count.checked_mul(channels) {
        Some(b) => b,
        None => {
            return None;
        },
    };
    if len < bytes {
        return None;
    }
    let mut cells: Vec<bool> = Vec::new();
    let mut i: usize = 0;
    while i < count
        invariant
            i <= count,
            count == width * height,
            len == data@.len(),
            layout == PixelLayout::Bgr ==> count * 3 <= data@.len(),
            layout == PixelLayout::Rgba ==> count * 4 <= data@.len(),
            cells@ == skin_cells(data@, layout, *thresholds, i as int),
        decreases count - i,
    {
        let rgb = match layout {
            PixelLayout::Bgr => {
                let base: usize = i * 3;
                Rgb::new(data[base + 2], data[base + 1], data[base])
            },
            PixelLayout::Rgba => {
                let base: usize = i * 4;
                Rgb::new(data[base], data[base + 1], data[base + 2])
            },
        };
        assert(rgb == pixel_at(data@, layout, i as int));
        let skin = rgb.is_skin(thresholds);
        cells.push(skin);
        i += 1;
        assert(cells@ =~= skin_cells(data@, layout, *thresholds, i as int));
    }
    Some(Mask { width, height, cells })
}

/// The number of set cells in row `y` of a grid, from column `x0` up to column `x1`.
pub open spec fn row_count(cells: Seq<bool>, width: int, y: int, x0: int, x1: int) -> int
    decreases x1 - x0,
{
    if x1 <= x0 {
        0
    } else {
        row_count(cells, width, y, x0, x1 - 1) + if cells[y * width + x1 - 1] {
            1int
        } else {
            0int
        }
    }
}

/// The number of set cells in the block of columns `x0` up to `x1` and rows `y0` up to `y1`.
pub open spec fn block_count(cells: Seq<bool>, width: int, x0: int, x1: int, y0: int, y1: int) -> int
    decreases y1 - y0,
{
    if y1 <= y0 {
        0
    } else {
        block_count(cells, width, x0, x1, y0, y1 - 1) + row_count(cells, width, y1 - 1, x0, x1)
    }
}

/// Where the window of `radius` around coordinate `c` begins.
pub open spec fn window_start(c: int, radius: int) -> int {
    if c >= radius {
        c - radius
    } else {
        0
    }
}

/// Where the window of `radius` around coordinate `c` ends, in a grid that ends at `limit`.
pub open spec fn window_end(c: int, radius: int, limit: int) -> int {
    if c + radius + 1 <= limit {
        c + radius + 1
    } else {
        limit
    }
}

/// More than half of the cells within `radius` of `(x, y)`, as far as the grid reaches, are
/// set.
pub open spec fn majority_at(cells: Seq<bool>, width: int, height: int, x: int, y: int, radius: int) -> bool {
    let x0 = window_start(x, radius);
    let x1 = window_end(x, radius, width);
    let y0 = window_start(y, radius);
    let y1 = window_end(y, radius, height);
    2 * block_count(cells, width, x0, x1, y0, y1) > (x1 - x0) * (y1 - y0)
}

/// The grid in which each cell holds the vote of the cells around it.
pub open spec fn denoised_cells(cells: Seq<bool>, width: int, height: int, radius: int) -> Seq<bool> {
    Seq::new(
        cells.len(),
        |i: int| majority_at(cells, width, height, i % width, i / width, radius),
    )
}

/// A row holds at most as many set cells as cells.
pub proof fn lemma_row_count_bounds(cells: Seq<bool>, width: int, y: int, x0: int, x1: int)
    requires
        x0 <= x1,
    ensures
        0 <= row_count(cells, width, y, x0, x1) <= x1 - x0,
    decreases x1 - x0,
{
    if x0 < x1 {
        lemma_row_count_bounds(cells, width, y, x0, x1 - 1);
    }
}

/// A block holds at most as many set cells as cells.
pub proof fn lemma_block_count_bounds(cells: Seq<bool>, width: int, x0: int, x1: int, y0: int, y1: int)
    requires
        x0 <= x1,
        y0 <= y1,
    ensures
        0 <= block_count(cells, width, x0, x1, y0, y1) <= (x1 - x0) * (y1 - y0),
    decreases y1 - y0,
{
    if y0 < y1 {
        lemma_block_count_bounds(cells, width, x0, x1, y0, y1 - 1);
        lemma_row_count_bounds(cells, width, y1 - 1, x0, x1);
        assert((x1 - x0) * (y1 - y0) == (x1 - x0) * (y1 - 1 - y0) + (x1 - x0)) by (nonlinear_arith);
    } else {
        assert((x1 - x0) * (y1 - y0) == 0) by (nonlinear_arith)
            requires
                y1 == y0,
        ;
    }
}

/// A block of a grid without a set cell counts nothing.
pub proof fn lemma_empty_block(cells: Seq<bool>, width: int, height: int, x0: int, x1: int, y0: int, y1: int)
    requires
        0 <= x0 <= x1 <= width,
        0 <= y0 <= y1 <= height,
        cells.len() == width * height,
        forall|i: int| 0 <= i < cells.len() ==> !cells[i],
    ensures
        block_count(cells, width, x0, x1, y0, y1) == 0,
    decreases y1 - y0,
{
    if y0 < y1 {
        lemma_empty_block(cells, width, height, x0, x1, y0, y1 - 1);
        lemma_empty_row(cells, width, height, y1 - 1, x0, x1);
    }
}

/// A stretch of a row of a grid without a set cell counts nothing.
pub proof fn lemma_empty_row(cells: Seq<bool>, width: int, height: int, y: int, x0: int, x1: int)
    requires
        0 <= x0 <= x1 <= width,
        0 <= y < height,
        cells.len() == width * height,
        forall|i: int| 0 <= i < cells.len() ==> !cells[i],
    ensures
        row_count(cells, width, y, x0, x1) == 0,
    decreases x1 - x0,
{
    if x0 < x1 {
        lemma_empty_row(cells, width, height, y, x0, x1 - 1);
        assert(0 <= y * width + x1 - 1 < width * height) by (nonlinear_arith)
            requires
                0 <= x1 - 1 < width,
                0 <= y < height,
        ;
    }
}

/// With radius 0 every cell votes alone, and the grid stays as it is.
pub proof fn lemma_denoise_radius_zero(cells: Seq<bool>, width: int, height: int)
    requires
        0 <= width,
        0 <= height,
        cells.len() == width * height,
    ensures
        denoised_cells(cells, width, height, 0) == cells,
{
    let out = denoised_cells(cells, width, height, 0);
    assert forall|i: int| 0 <= i < cells.len() implies out[i] == cells[i] by {
        assert(width > 0) by {
            if width == 0 {
                assert(width * height == 0) by (nonlinear_arith)
                    requires
                        width == 0,
                ;
            }
        }
        let x = i % width;
        let y = i / width;
        vstd::arithmetic::div_mod::lemma_fundamental_div_mod(i, width);
        assert(width * y == y * width) by (nonlinear_arith);
        assert(y < height) by {
            if y >= height {
                assert(y * width >= height * width) by (nonlinear_arith)
                    requires
                        y >= height,
                        width > 0,
                ;
                assert(height * width == width * height) by (nonlinear_arith);
            }
        }
        assert(0 <= y) by (nonlinear_arith)
            requires
                i >= 0,
                width > 0,
                y == i / width,
        ;
        assert(window_start(x, 0) == x && window_end(x, 0, width) == x + 1);
        assert(window_start(y, 0) == y && window_end(y, 0, height) == y + 1);
        reveal_with_fuel(row_count, 2);
        reveal_with_fuel(block_count, 2);
        assert(block_count(cells, width, x, x + 1, y, y + 1) == if cells[i] {
            1int
        } else {
            0int
        });
        assert((x + 1 - x) * (y + 1 - y) == 1) by (nonlinear_arith);
    }
    assert(out =~= cells);
}

proof fn lemma_cell_index(x: int, y: int, width: int, height: int)
    requires
        0 <= x < width,
        0 <= y < height,
    ensures
        0 <= y * width + x < width * height,
        (y * width + x) % width == x,
        (y * width + x) / width == y,
{
    assert(y * width >= 0) by (nonlinear_arith)
        requires
            y >= 0,
            width > 0,
    ;
    assert(y * width + width <= height * width) by (nonlinear_arith)
        requires
            y + 1 <= height,
            width > 0,
    ;
    assert(height * width == width * height) by (nonlinear_arith);
    vstd::arithmetic::div_mod::lemma_fundamental_div_mod_converse(y * width + x, width, y, x);
}

proof fn lemma_window_area(x0: int, x1: int, y0: int, y1: int, width: int, height: int)
    requires
        0 <= x0 <= x1 <= width,
        0 <= y0 <= y1 <= height,
    ensures
        0 <= (x1 - x0) * (y1 - y0) <= width * height,
{
    assert(0 <= (x1 - x0) * (y1 - y0) <= width * height) by (nonlinear_arith)
        requires
            0 <= x1 - x0 <= width,
            0 <= y1 - y0 <= height,
    ;
}

impl Mask {
    /// Whether more than half of the cells within `radius` of `(x, y)` are set.
    pub fn majority(&self, x: usize, y: usize, radius: usize) -> (vote: bool)
        requires
            self.wf(),
            x < self.width,
            y < self.height,
        ensures
            vote == majority_at(
                self.cells@,
                self.width as int,
                self.height as int,
                x as int,
                y as int,
                radius as int,
            ),
    {
        let total = self.cells.len();
        let x0: usize = if x >= radius { x - radius } else { 0 };
        let y0: usize = if y >= radius { y - radius } else { 0 };
        let x1: usize = if radius < self.width - x { x + radius + 1 } else { self.width };
        let y1: usize = if radius < self.height - y { y + radius + 1 } else { self.height };
        proof {
            lemma_window_area(
                x0 as int,
                x1 as int,
                y0 as int,
                y1 as int,
                self.width as int,
                self.height as int,
            );
        }
        let area: usize = (x1 - x0) * (y1 - y0);
        let mut count: usize = 0;
        let mut wy: usize = y0;
        while wy < y1
            invariant
                self.wf(),
                total == self.width * self.height,
                x0 <= x1 <= self.width,
                y0 <= wy <= y1 <= self.height,
                count == block_count(
                    self.cells@,
                    self.width as int,
                    x0 as int,
                    x1 as int,
                    y0 as int,
                    wy as int,
                ),
            decreases y1 - wy,
        {
            let mut in_row: usize = 0;
            let mut wx: usize = x0;
            while wx < x1
                invariant
                    self.wf(),
                    total == self.width * self.height,
                    x0 <= wx <= x1 <= self.width,
                    wy < self.height,
                    in_row == row_count(
                        self.cells@,
                        self.width as int,
                        wy as int,
                        x0 as int,
                        wx as int,
                    ),
                    in_row <= wx - x0,
                decreases x1 - wx,
            {
                proof {
                    lemma_cell_index(
                        wx as int,
                        wy as int,
                        self.width as int,
                        self.height as int,
                    );
                }
                if self.cells[wy * self.width + wx] {
                    in_row += 1;
                }
                wx += 1;
            }
            proof {
                lemma_block_count_bounds(
                    self.cells@,
                    self.width as int,
                    x0 as int,
                    x1 as int,
                    y0 as int,
                    wy + 1,
                );
                lemma_window_area(
                    x0 as int,
                    x1 as int,
                    y0 as int,
                    wy + 1,
                    self.width as int,
                    self.height as int,
                );
            }
            count += in_row;
            wy += 1;
        }
        proof {
            lemma_block_count_bounds(
                self.cells@,
                self.width as int,
                x0 as int,
                x1 as int,
                y0 as int,
                y1 as int,
            );
        }
        count > area - count
    }

    /// The mask in which each cell holds the vote of the cells within `radius` of it: it
    /// is set if more than half of them are. Single stray cells go, and single holes
    /// close. With radius 0 the mask stays as it is.
    pub fn denoise(&self, radius: usize) -> (mask: Mask)
        requires
            self.wf(),
        ensures
            mask.wf(),
            mask.width == self.width,
            mask.height == self.height,
            mask.cells@ == denoised_cells(
                self.cells@,
                self.width as int,
                self.height as int,
                radius as int,
            ),
    {
        let mut cells: Vec<bool> = Vec::new();
        let mut y: usize = 0;
        proof {
            assert(0 * self.width == 0) by (nonlinear_arith);
        }
        while y < self.height
            invariant
                self.wf(),
                y <= self.height,
                cells@.len() == y * self.width,
                forall|i: int|
                    0 <= i < cells@.len() ==> cells@[i] == #[trigger] denoised_cells(
                        self.cells@,
                        self.width as int,
                        self.height as int,
                        radius as int,
                    )[i],
            decreases self.height - y,
        {
            let mut x: usize = 0;
            while x < self.width
                invariant
                    self.wf(),
                    y < self.height,
                    x <= self.width,
                    cells@.len() == y * self.width + x,
                    forall|i: int|
                        0 <= i < cells@.len() ==> cells@[i] == #[trigger] denoised_cells(
                            self.cells@,
                            self.width as int,
                            self.height as int,
                            radius as int,
                        )[i],
                decreases self.width - x,
            {
                proof {
                    lemma_cell_index(x as int, y as int, self.width as int, self.height as int);
                }
                let vote = self.majority(x, y, radius);
                cells.push(vote);
                x += 1;
            }
            proof {
                assert((y + 1) * self.width == y * self.width + self.width) by (nonlinear_arith);
            }
            y += 1;
        }
        proof {
            assert(self.height * self.width == self.width * self.height) by (nonlinear_arith);
            assert(cells@ =~= denoised_cells(
                self.cells@,
                self.width as int,
                self.height as int,
                radius as int,
            ));
        }
        Mask { width: self.width, height: self.height, cells }
    }
}

} // verus!
