//! Points, displacement vectors, and the exact orientation primitive.

use vstd::prelude::*;

verus! {

/// Largest coordinate magnitude the library accepts.
///
/// Keeping every coordinate within this bound lets every cross and dot
/// product of edge displacements be computed exactly in 64-bit integers.
pub const MAX_COORD: i64 = 1_000_000_000;

/// A polygon vertex or a query location, in exact integer coordinates
/// (a fixed-point grid chosen by the caller).
#[derive(Clone, Copy, PartialEq, Eq, Structural, Debug)]
pub struct Point {
    pub x: i64,
    pub y: i64,
}

/// A displacement between two points; never mutated after construction.
#[derive(Clone, Copy, PartialEq, Eq, Structural, Debug)]
pub struct Vector {
    pub x: i64,
    pub y: i64,
}

/// A coordinate within the accepted range.
pub open spec fn coord_ok(c: i64) -> bool {
    -MAX_COORD <= c <= MAX_COORD
}

/// A point whose coordinates are within the accepted range.
pub open spec fn point_ok(p: Point) -> bool {
    coord_ok(p.x) && coord_ok(p.y)
}

/// A vector small enough to arise as the difference of two in-range points.
pub open spec fn vector_ok(v: Vector) -> bool {
    -2 * MAX_COORD <= v.x <= 2 * MAX_COORD && -2 * MAX_COORD <= v.y <= 2 * MAX_COORD
}

/// Twice the signed area of the triangle `a b c`: positive when the three
/// points make a counter-clockwise turn, negative when they turn clockwise,
/// and zero when they are collinear. Equivalently, its sign says whether `c`
/// lies to the left of, to the right of, or on the directed line `a -> b`.
pub open spec fn orient(a: Point, b: Point, c: Point) -> int {
    (b.x - a.x) * (c.y - a.y) - (b.y - a.y) * (c.x - a.x)
}

/// A product of two factors bounded by `m` is bounded by `m * m`.
pub proof fn lemma_mul_bound(a: int, b: int, m: int) by (nonlinear_arith)
    requires
        0 <= m,
        -m <= a <= m,
        -m <= b <= m,
    ensures
        -m * m <= a * b <= m * m,
{
}

/// Products of equal factors are equal regardless of operand order.
pub proof fn lemma_mul_comm2(a: int, b: int, c: int, d: int) by (nonlinear_arith)
    ensures
        a * b - c * d == b * a - d * c,
{
}

impl Vector {
    /// The displacement `p1 - p2`, pointing from `p2` to `p1`.
    pub fn points_minus(p1: &Point, p2: &Point) -> (v: Vector)
        requires
            point_ok(*p1),
            point_ok(*p2),
        ensures
            v.x == p1.x - p2.x,
            v.y == p1.y - p2.y,
            vector_ok(v),
    {
        Vector { x: p1.x - p2.x, y: p1.y - p2.y }
    }

    /// Inner product of two displacement vectors.
    pub fn dot(&self, other: &Vector) -> (r: i64)
        requires
            vector_ok(*self),
            vector_ok(*other),
        ensures
            r == self.x * other.x + self.y * other.y,
    {
        proof {
            lemma_mul_bound(self.x as int, other.x as int, 2_000_000_000);
            lemma_mul_bound(self.y as int, other.y as int, 2_000_000_000);
        }
        self.x * other.x + self.y * other.y
    }

    /// Scalar cross product `self.y * other.x - self.x * other.y`, which is
    /// `other x self` in the usual orientation convention; callers rely on
    /// this exact operand order for the sign of their half-plane tests.
    pub fn cross(&self, other: &Vector) -> (r: i64)
        requires
            vector_ok(*self),
            vector_ok(*other),
        ensures
            r == self.y * other.x - self.x * other.y,
    {
        proof {
            lemma_mul_bound(self.y as int, other.x as int, 2_000_000_000);
            lemma_mul_bound(self.x as int, other.y as int, 2_000_000_000);
        }
        self.y * other.x - self.x * other.y
    }
}

/// The orientation of a triangle is invariant under rotating its vertices.
pub proof fn lemma_orient_cycle(a: Point, b: Point, c: Point)
    ensures
        orient(a, b, c) == orient(b, c, a),
{
    assert((b.x - a.x) * (c.y - a.y) - (b.y - a.y) * (c.x - a.x) == (c.x - b.x) * (a.y - b.y) - (
    c.y - b.y) * (a.x - b.x)) by (nonlinear_arith);
}

/// The orientation of a triangle is negated by listing its vertices
/// backwards.
pub proof fn lemma_orient_reversal(a: Point, b: Point, c: Point)
    ensures
        orient(c, b, a) == -orient(a, b, c),
{
    assert((b.x - c.x) * (a.y - c.y) - (b.y - c.y) * (a.x - c.x) == -((b.x - a.x) * (c.y - a.y) - (
    b.y - a.y) * (c.x - a.x))) by (nonlinear_arith);
}

/// A triangle with two coincident vertices is degenerate: its orientation
/// is zero.
pub proof fn lemma_orient_degenerate(a: Point, b: Point, c: Point)
    ensures
        a == b ==> orient(a, b, c) == 0,
        b == c ==> orient(a, b, c) == 0,
        a == c ==> orient(a, b, c) == 0,
{
    if a == b {
        assert((b.x - a.x) * (c.y - a.y) - (b.y - a.y) * (c.x - a.x) == 0) by (nonlinear_arith)
            requires
                a.x == b.x,
                a.y == b.y,
        ;
    }
    if b == c {
        assert((b.x - a.x) * (c.y - a.y) - (b.y - a.y) * (c.x - a.x) == 0) by (nonlinear_arith)
            requires
                b.x == c.x,
                b.y == c.y,
        ;
    }
    if a == c {
        assert((b.x - a.x) * (c.y - a.y) - (b.y - a.y) * (c.x - a.x) == 0) by (nonlinear_arith)
            requires
                a.x == c.x,
                a.y == c.y,
        ;
    }
}

/// The orientation primitive computed exactly: twice the signed area of the
/// triangle `a b c`, by the sign convention of [`orient`].
pub fn orientation_of(a: &Point, b: &Point, c: &Point) -> (r: i64)
    requires
        point_ok(*a),
        point_ok(*b),
        point_ok(*c),
    ensures
        r == orient(*a, *b, *c),
{
    let v = Vector::points_minus(b, a);
    let w = Vector::points_minus(c, a);
    let x = w.cross(&v);
    proof {
        lemma_mul_comm2(w.y as int, v.x as int, w.x as int, v.y as int);
        assert(x == orient(*a, *b, *c));
    }
    x
}

} // verus!
