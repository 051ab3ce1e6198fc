//! Points in pixel space and exact integer distances between them.

use vstd::prelude::*;

verus! {

/// The square of an integer.
pub open spec fn square(v: int) -> int {
    v * v
}

/// The squared Euclidean distance between `(ax, ay)` and `(bx, by)`.
pub open spec fn dist_sq(ax: int, ay: int, bx: int, by: int) -> int {
    square(ax - bx) + square(ay - by)
}

/// `r` is the square root of `s`, rounded down to a whole number.
pub open spec fn is_floor_sqrt(r: int, s: int) -> bool {
    0 <= r && square(r) <= s < square(r + 1)
}

/// A square is never negative.
pub proof fn lemma_square_nonnegative(v: int)
    ensures
        square(v) >= 0,
        square(v) == square(-v),
{
    assert(v * v >= 0 && v * v == (-v) * (-v)) by (nonlinear_arith);
}

/// Squaring keeps the order of non-negative numbers.
pub proof fn lemma_square_monotonic(a: int, b: int)
    requires
        0 <= a <= b,
    ensures
        square(a) <= square(b),
{
    assert(a * a <= b * b) by (nonlinear_arith)
        requires
            0 <= a <= b,
    ;
}

/// Squaring keeps the strict order of non-negative numbers.
pub proof fn lemma_square_strictly_monotonic(a: int, b: int)
    requires
        0 <= a < b,
    ensures
        square(a) < square(b),
{
    assert(a * a < b * b) by (nonlinear_arith)
        requires
            0 <= a < b,
    ;
}

/// A number has at most one rounded-down square root.
pub proof fn lemma_floor_sqrt_unique(r1: int, r2: int, s: int)
    requires
        is_floor_sqrt(r1, s),
        is_floor_sqrt(r2, s),
    ensures
        r1 == r2,
{
    if r1 < r2 {
        lemma_square_monotonic(r1 + 1, r2);
    }
    if r2 < r1 {
        lemma_square_monotonic(r2 + 1, r1);
    }
}

/// The distance between two equal points is zero, and a squared distance is never negative.
pub proof fn lemma_dist_sq_nonnegative(ax: int, ay: int, bx: int, by: int)
    ensures
        dist_sq(ax, ay, bx, by) >= 0,
        dist_sq(ax, ay, bx, by) == dist_sq(bx, by, ax, ay),
        dist_sq(ax, ay, ax, ay) == 0,
{
    lemma_square_nonnegative(ax - bx);
    lemma_square_nonnegative(ay - by);
    assert(-(ax - bx) == bx - ax);
    assert(-(ay - by) == by - ay);
}

/// The absolute difference of two coordinates.
pub fn gap(a: u64, b: u64) -> (d: u64)
    ensures
        d == (if a >= b { a - b } else { b - a }),
        square(d as int) == square(a - b),
{
    proof {
        lemma_square_nonnegative(a - b);
    }
    if a >= b {
        a - b
    } else {
        b - a
    }
}

proof fn lemma_product_against_quotient(p: int, q: int, c: int)
    requires
        0 <= p,
        0 < q,
        0 <= c,
    ensures
        (p <= c / q) <==> (p * q <= c),
{
    vstd::arithmetic::div_mod::lemma_fundamental_div_mod(c, q);
    let k = c / q;
    let m = c % q;
    assert(c == q * k + m);
    assert(0 <= m < q);
    if p <= k {
        assert(p * q <= k * q) by (nonlinear_arith)
            requires
                0 <= p <= k,
                0 < q,
        ;
        assert(k * q == q * k) by (nonlinear_arith);
    } else {
        assert(p * q >= (k + 1) * q) by (nonlinear_arith)
            requires
                p >= k + 1,
                0 < q,
        ;
        assert((k + 1) * q == q * k + q) by (nonlinear_arith);
    }
}

proof fn lemma_difference_of_squares(r: int, m: int)
    ensures
        (r - m) * (r + m) == square(r) - square(m),
{
    assert((r - m) * (r + m) == r * r - m * m) by (nonlinear_arith);
}

proof fn lemma_hypot_bracket(m: int, n: int)
    requires
        0 <= n <= m,
    ensures
        square(m) <= square(m) + square(n) < square(m + n + 1),
{
    assert(n * n >= 0) by (nonlinear_arith);
    assert((m + n + 1) * (m + n + 1) == m * m + n * n + 2 * (m * n) + 2 * m + 2 * n + 1)
        by (nonlinear_arith);
    assert(m * n >= 0) by (nonlinear_arith)
        requires
            0 <= n <= m,
    ;
}

/// The length of the hypotenuse over the legs `a` and `b`, rounded down to a whole number.
///
/// The sum of the two squares may need more than 128 bits, so it is never formed: the
/// candidate `r >= max(a, b)` is tested through `(r - m) * (r + m) <= n * n`, with the
/// product replaced by a division.
pub fn hypot_floor(a: u64, b: u64) -> (r: u128)
    ensures
        is_floor_sqrt(r as int, square(a as int) + square(b as int)),
{
    let m: u128 = if a >= b { a as u128 } else { b as u128 };
    let n: u128 = if a >= b { b as u128 } else { a as u128 };
    let ghost s: int = square(m as int) + square(n as int);
    proof {
        lemma_hypot_bracket(m as int, n as int);
    }
    assert(n * n <= u128::MAX) by (nonlinear_arith)
        requires
            0 <= n <= 0xffff_ffff_ffff_ffff,
    ;
    let n_squared: u128 = n * n;
    let mut lo: u128 = m;
    let mut hi: u128 = m + n;
    while lo < hi
        invariant
            m <= lo <= hi <= m + n,
            n <= m <= 0xffff_ffff_ffff_ffff,
            n_squared == square(n as int),
            s == square(m as int) + square(n as int),
            square(lo as int) <= s < square(hi + 1),
        decreases hi - lo,
    {
        let mid: u128 = lo + (hi - lo + 1) / 2;
        let p: u128 = mid - m;
        let q: u128 = mid + m;
        proof {
            lemma_product_against_quotient(p as int, q as int, n_squared as int);
            lemma_difference_of_squares(mid as int, m as int);
        }
        if p <= n_squared / q {
            lo = mid;
        } else {
            hi = mid - 1;
        }
    }
    lo
}

/// Whether `(ax, ay)` lies closer to `(bx, by)` than `radius`.
pub fn within_radius(ax: u64, ay: u64, bx: u64, by: u64, radius: u64) -> (near: bool)
    ensures
        near == (dist_sq(ax as int, ay as int, bx as int, by as int) < square(radius as int)),
{
    let dx: u128 = gap(ax, bx) as u128;
    let dy: u128 = gap(ay, by) as u128;
    let t: u128 = radius as u128;
    proof {
        lemma_square_nonnegative(dx as int);
        lemma_square_nonnegative(dy as int);
    }
    if dx >= t || dy >= t {
        proof {
            if dx >= t {
                lemma_square_monotonic(t as int, dx as int);
            } else {
                lemma_square_monotonic(t as int, dy as int);
            }
        }
        false
    } else {
        proof {
            lemma_square_strictly_monotonic(dx as int, t as int);
            lemma_square_strictly_monotonic(dy as int, t as int);
            lemma_square_monotonic(t as int, 0xffff_ffff_ffff_ffff);
            assert(square(0xffff_ffff_ffff_ffff) <= u128::MAX);
        }
        dx * dx < t * t - dy * dy
    }
}

/// A pixel of a frame, by column and row.
#[derive(Debug, Clone, Copy, PartialEq, Eq, Structural)]
pub struct Point {
    pub x: usize,
    pub y: usize,
}

impl Point {
    /// The pixel in column `x` of row `y`.
    pub fn new(x: usize, y: usize) -> (p: Self)
        ensures
            p.x == x,
            p.y == y,
    {
        Self { x, y }
    }

    /// The squared distance to `other`.
    pub open spec fn dist_sq(self, other: Point) -> int {
        dist_sq(self.x as int, self.y as int, other.x as int, other.y as int)
    }

    /// The distance to `other`, rounded down to whole pixels.
    pub fn distance_to(&self, other: &Point) -> (d: u128)
        ensures
            is_floor_sqrt(d as int, self.dist_sq(*other)),
    {
        hypot_floor(gap(self.x as u64, other.x as u64), gap(self.y as u64, other.y as u64))
    }

    /// Whether `other` lies closer than `radius` pixels.
    pub fn is_within(&self, other: &Point, radius: usize) -> (near: bool)
        ensures
            near == (self.dist_sq(*other) < square(radius as int)),
    {
        within_radius(self.x as u64, self.y as u64, other.x as u64, other.y as u64, radius as u64)
    }

    /// The point halfway between `self` and `other`, each coordinate rounded down.
    pub open spec fn spec_midpoint(self, other: Point) -> Point {
        Point {
            x: ((self.x + other.x) / 2) as usize,
            y: ((self.y + other.y) / 2) as usize,
        }
    }

    /// The point halfway between `self` and `other`, each coordinate rounded down.
    pub fn midpoint(&self, other: &Point) -> (mid: Point)
        ensures
            mid == self.spec_midpoint(*other),
    {
        Point { x: halfway(self.x, other.x), y: halfway(self.y, other.y) }
    }
}

/// The mean of two coordinates, rounded down.
pub fn halfway(a: usize, b: usize) -> (mid: usize)
    ensures
        mid == (a + b) / 2,
{
    if a <= b {
        a + (b - a) / 2
    } else {
        b + (a - b) / 2
    }
}

/// A corner of a region's boundary polygon.
#[derive(Debug, Clone, Copy, PartialEq, Eq, Structural)]
pub struct Vertex {
    pub x: u32,
    pub y: u32,
}

impl Vertex {
    /// The vertex at `(x, y)`.
    pub fn new(x: u32, y: u32) -> (v: Self)
        ensures
            v.x == x,
            v.y == y,
    {
        Self { x, y }
    }

    /// The squared distance to `other`.
    pub open spec fn dist_sq(self, other: Vertex) -> int {
        dist_sq(self.x as int, self.y as int, other.x as int, other.y as int)
    }

    /// The squared distance to `other`.
    pub fn distance_squared(&self, other: &Vertex) -> (d: u128)
        ensures
            d == self.dist_sq(*other),
    {
        let dx: u128 = gap(self.x as u64, other.x as u64) as u128;
        let dy: u128 = gap(self.y as u64, other.y as u64) as u128;
        proof {
            lemma_square_monotonic(dx as int, 0xffff_ffff);
            lemma_square_monotonic(dy as int, 0xffff_ffff);
            lemma_square_nonnegative(dx as int);
            lemma_square_nonnegative(dy as int);
            assert(square(0xffff_ffff) == 0xffff_fffe_0000_0001);
        }
        dx * dx + dy * dy
    }

    /// The same place as a landmark position.
    pub open spec fn spec_position(self) -> Position {
        Position { x: self.x as u64, y: self.y as u64 }
    }

    /// The same place as a landmark position.
    pub fn position(&self) -> (p: Position)
        ensures
            p == self.spec_position(),
    {
        Position { x: self.x as u64, y: self.y as u64 }
    }
}

/// A place in the pixel space of a frame.
#[derive(Debug, Clone, Copy, PartialEq, Eq, Structural)]
pub struct Position {
    pub x: u64,
    pub y: u64,
}

impl Position {
    /// The position `(x, y)`.
    pub fn new(x: u64, y: u64) -> (p: Self)
        ensures
            p.x == x,
            p.y == y,
    {
        Self { x, y }
    }

    /// The squared distance to `other`.
    pub open spec fn dist_sq(self, other: Position) -> int {
        dist_sq(self.x as int, self.y as int, other.x as int, other.y as int)
    }

    /// The distance to `other`, rounded down to whole pixels.
    pub fn distance_to(&self, other: &Position) -> (d: u128)
        ensures
            is_floor_sqrt(d as int, self.dist_sq(*other)),
    {
        hypot_floor(gap(self.x, other.x), gap(self.y, other.y))
    }

    /// Whether `other` lies closer than `radius` pixels.
    pub fn is_within(&self, other: &Position, radius: u64) -> (near: bool)
        ensures
            near == (self.dist_sq(*other) < square(radius as int)),
    {
        within_radius(self.x, self.y, other.x, other.y, radius)
    }
}

} // verus!
